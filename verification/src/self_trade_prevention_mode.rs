//! `SelfTradePreventionMode`: one byte on the wire.
use vstd::prelude::*;

verus! {

#[derive(Clone, Copy, Debug, PartialEq, Eq, Structural, PartialOrd, Ord, Hash)]
pub enum SelfTradePreventionMode {
    NoneVal,
    ExpireTaker,
    ExpireMaker,
    ExpireBoth,
    NullVal,
}

impl Default for SelfTradePreventionMode {
    fn default() -> (r: Self)
        ensures
            r == SelfTradePreventionMode::NullVal,
    {
        SelfTradePreventionMode::NullVal
    }
}

impl SelfTradePreventionMode {
    /// The schema gives this code a meaning of its own.
    pub open spec fn declared(v: u8) -> bool {
        v == 1 || v == 2 || v == 3 || v == 4
    }

    /// What a byte stands for: every byte stands for something, and one
    /// without a meaning of its own for `NullVal`.
    pub open spec fn of_code(v: u8) -> Self {
        if v == 1 {
            SelfTradePreventionMode::NoneVal
        } else if v == 2 {
            SelfTradePreventionMode::ExpireTaker
        } else if v == 3 {
            SelfTradePreventionMode::ExpireMaker
        } else if v == 4 {
            SelfTradePreventionMode::ExpireBoth
        } else {
            SelfTradePreventionMode::NullVal
        }
    }

    /// The byte that stands for a value; `NullVal` is 255.
    pub open spec fn code_view(self) -> u8 {
        match self {
            SelfTradePreventionMode::NoneVal => 1,
            SelfTradePreventionMode::ExpireTaker => 2,
            SelfTradePreventionMode::ExpireMaker => 3,
            SelfTradePreventionMode::ExpireBoth => 4,
            SelfTradePreventionMode::NullVal => 255,
        }
    }

    /// The byte that stands for this value on the wire.
    pub fn code(self) -> (r: u8)
        ensures
            r == self.code_view(),
    {
        match self {
            Self::NoneVal => 1,
            Self::ExpireTaker => 2,
            Self::ExpireMaker => 3,
            Self::ExpireBoth => 4,
            Self::NullVal => 255,
        }
    }

    /// Reading is total and writing is undone by reading: a declared code
    /// is read as a value other than `NullVal` that is written as that
    /// code again, every other byte is read as `NullVal`, and each value
    /// is read back from its own code.
    pub proof fn lemma_codes(v: u8, e: Self)
        ensures
            Self::declared(v) ==> Self::of_code(v) != SelfTradePreventionMode::NullVal,
            Self::declared(v) ==> Self::of_code(v).code_view() == v,
            !Self::declared(v) ==> Self::of_code(v) == SelfTradePreventionMode::NullVal,
            Self::of_code(e.code_view()) == e,
            e != SelfTradePreventionMode::NullVal ==> Self::declared(e.code_view()),
    {
    }
}

impl From<u8> for SelfTradePreventionMode {
    fn from(v: u8) -> (r: Self) {
        match v {
            1 => Self::NoneVal,
            2 => Self::ExpireTaker,
            3 => Self::ExpireMaker,
            4 => Self::ExpireBoth,
            _ => Self::NullVal,
        }
    }
}

impl vstd::std_specs::convert::FromSpecImpl<u8> for SelfTradePreventionMode {
    open spec fn obeys_from_spec() -> bool {
        true
    }

    open spec fn from_spec(v: u8) -> Self {
        Self::of_code(v)
    }
}

} // verus!
