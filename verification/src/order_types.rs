//! `OrderTypes`: a set of flags in a `u16`.
use crate::flags::{flag_u16, with_flag_u16};
use vstd::prelude::*;

verus! {

#[derive(Clone, Copy, Debug, PartialEq, Eq, Structural, PartialOrd, Ord, Hash)]
pub struct OrderTypes(pub u16);

impl Default for OrderTypes {
    fn default() -> (r: Self)
        ensures
            r.0 == 0,
    {
        OrderTypes(0)
    }
}

impl OrderTypes {
    pub fn new(value: u16) -> (r: Self)
        ensures
            r.0 == value,
    {
        OrderTypes(value)
    }

    /// Takes every flag away.
    pub fn clear(&mut self) -> (r: &mut Self)
        ensures
            r.0 == 0,
            *final(self) == *final(r),
    {
        self.0 = 0;
        self
    }

    /// The flag `market`: bit 0.
    pub fn get_market(&self) -> (r: bool)
        ensures
            r == flag_u16(self.0, 0),
    {
        0 != self.0 & (1 << 0)
    }

    pub fn set_market(&mut self, value: bool) -> (r: &mut Self)
        ensures
            r.0 == with_flag_u16(old(self).0, 0, value),
            *final(self) == *final(r),
    {
        self.0 = if value {
            self.0 | (1 << 0)
        } else {
            self.0 & !(1 << 0)
        };
        self
    }

    /// The flag `limit`: bit 1.
    pub fn get_limit(&self) -> (r: bool)
        ensures
            r == flag_u16(self.0, 1),
    {
        0 != self.0 & (1 << 1)
    }

    pub fn set_limit(&mut self, value: bool) -> (r: &mut Self)
        ensures
            r.0 == with_flag_u16(old(self).0, 1, value),
            *final(self) == *final(r),
    {
        self.0 = if value {
            self.0 | (1 << 1)
        } else {
            self.0 & !(1 << 1)
        };
        self
    }

    /// The flag `stop_loss`: bit 2.
    pub fn get_stop_loss(&self) -> (r: bool)
        ensures
            r == flag_u16(self.0, 2),
    {
        0 != self.0 & (1 << 2)
    }

    pub fn set_stop_loss(&mut self, value: bool) -> (r: &mut Self)
        ensures
            r.0 == with_flag_u16(old(self).0, 2, value),
            *final(self) == *final(r),
    {
        self.0 = if value {
            self.0 | (1 << 2)
        } else {
            self.0 & !(1 << 2)
        };
        self
    }

    /// The flag `stop_loss_limit`: bit 3.
    pub fn get_stop_loss_limit(&self) -> (r: bool)
        ensures
            r == flag_u16(self.0, 3),
    {
        0 != self.0 & (1 << 3)
    }

    pub fn set_stop_loss_limit(&mut self, value: bool) -> (r: &mut Self)
        ensures
            r.0 == with_flag_u16(old(self).0, 3, value),
            *final(self) == *final(r),
    {
        self.0 = if value {
            self.0 | (1 << 3)
        } else {
            self.0 & !(1 << 3)
        };
        self
    }

    /// The flag `take_profit`: bit 4.
    pub fn get_take_profit(&self) -> (r: bool)
        ensures
            r == flag_u16(self.0, 4),
    {
        0 != self.0 & (1 << 4)
    }

    pub fn set_take_profit(&mut self, value: bool) -> (r: &mut Self)
        ensures
            r.0 == with_flag_u16(old(self).0, 4, value),
            *final(self) == *final(r),
    {
        self.0 = if value {
            self.0 | (1 << 4)
        } else {
            self.0 & !(1 << 4)
        };
        self
    }

    /// The flag `take_profit_limit`: bit 5.
    pub fn get_take_profit_limit(&self) -> (r: bool)
        ensures
            r == flag_u16(self.0, 5),
    {
        0 != self.0 & (1 << 5)
    }

    pub fn set_take_profit_limit(&mut self, value: bool) -> (r: &mut Self)
        ensures
            r.0 == with_flag_u16(old(self).0, 5, value),
            *final(self) == *final(r),
    {
        self.0 = if value {
            self.0 | (1 << 5)
        } else {
            self.0 & !(1 << 5)
        };
        self
    }

    /// The flag `limit_maker`: bit 6.
    pub fn get_limit_maker(&self) -> (r: bool)
        ensures
            r == flag_u16(self.0, 6),
    {
        0 != self.0 & (1 << 6)
    }

    pub fn set_limit_maker(&mut self, value: bool) -> (r: &mut Self)
        ensures
            r.0 == with_flag_u16(old(self).0, 6, value),
            *final(self) == *final(r),
    {
        self.0 = if value {
            self.0 | (1 << 6)
        } else {
            self.0 & !(1 << 6)
        };
        self
    }
}

} // verus!
