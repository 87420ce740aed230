//! `AllowedSelfTradePreventionModes`: a set of flags in a `u8`.
use crate::flags::{flag_u8, with_flag_u8};
use vstd::prelude::*;

verus! {

#[derive(Clone, Copy, Debug, PartialEq, Eq, Structural, PartialOrd, Ord, Hash)]
pub struct AllowedSelfTradePreventionModes(pub u8);

impl Default for AllowedSelfTradePreventionModes {
    fn default() -> (r: Self)
        ensures
            r.0 == 0,
    {
        AllowedSelfTradePreventionModes(0)
    }
}

impl AllowedSelfTradePreventionModes {
    pub fn new(value: u8) -> (r: Self)
        ensures
            r.0 == value,
    {
        AllowedSelfTradePreventionModes(value)
    }

    /// Takes every flag away.
    pub fn clear(&mut self) -> (r: &mut Self)
        ensures
            r.0 == 0,
            *final(self) == *final(r),
    {
        self.0 = 0;
        self
    }

    /// The flag `none`: bit 0.
    pub fn get_none(&self) -> (r: bool)
        ensures
            r == flag_u8(self.0, 0),
    {
        0 != self.0 & (1 << 0)
    }

    pub fn set_none(&mut self, value: bool) -> (r: &mut Self)
        ensures
            r.0 == with_flag_u8(old(self).0, 0, value),
            *final(self) == *final(r),
    {
        self.0 = if value {
            self.0 | (1 << 0)
        } else {
            self.0 & !(1 << 0)
        };
        self
    }

    /// The flag `expire_taker`: bit 1.
    pub fn get_expire_taker(&self) -> (r: bool)
        ensures
            r == flag_u8(self.0, 1),
    {
        0 != self.0 & (1 << 1)
    }

    pub fn set_expire_taker(&mut self, value: bool) -> (r: &mut Self)
        ensures
            r.0 == with_flag_u8(old(self).0, 1, value),
            *final(self) == *final(r),
    {
        self.0 = if value {
            self.0 | (1 << 1)
        } else {
            self.0 & !(1 << 1)
        };
        self
    }

    /// The flag `expire_maker`: bit 2.
    pub fn get_expire_maker(&self) -> (r: bool)
        ensures
            r == flag_u8(self.0, 2),
    {
        0 != self.0 & (1 << 2)
    }

    pub fn set_expire_maker(&mut self, value: bool) -> (r: &mut Self)
        ensures
            r.0 == with_flag_u8(old(self).0, 2, value),
            *final(self) == *final(r),
    {
        self.0 = if value {
            self.0 | (1 << 2)
        } else {
            self.0 & !(1 << 2)
        };
        self
    }

    /// The flag `expire_both`: bit 3.
    pub fn get_expire_both(&self) -> (r: bool)
        ensures
            r == flag_u8(self.0, 3),
    {
        0 != self.0 & (1 << 3)
    }

    pub fn set_expire_both(&mut self, value: bool) -> (r: &mut Self)
        ensures
            r.0 == with_flag_u8(old(self).0, 3, value),
            *final(self) == *final(r),
    {
        self.0 = if value {
            self.0 | (1 << 3)
        } else {
            self.0 & !(1 << 3)
        };
        self
    }
}

} // verus!
