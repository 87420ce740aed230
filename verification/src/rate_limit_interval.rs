//! `RateLimitInterval`: one byte on the wire.
use vstd::prelude::*;

verus! {

#[derive(Clone, Copy, Debug, PartialEq, Eq, Structural, PartialOrd, Ord, Hash)]
pub enum RateLimitInterval {
    Second,
    Minute,
    Hour,
    Day,
    NullVal,
}

impl Default for RateLimitInterval {
    fn default() -> (r: Self)
        ensures
            r == RateLimitInterval::NullVal,
    {
        RateLimitInterval::NullVal
    }
}

impl RateLimitInterval {
    /// The schema gives this code a meaning of its own.
    pub open spec fn declared(v: u8) -> bool {
        v == 0 || v == 1 || v == 2 || v == 3
    }

    /// What a byte stands for: every byte stands for something, and one
    /// without a meaning of its own for `NullVal`.
    pub open spec fn of_code(v: u8) -> Self {
        if v == 0 {
            RateLimitInterval::Second
        } else if v == 1 {
            RateLimitInterval::Minute
        } else if v == 2 {
            RateLimitInterval::Hour
        } else if v == 3 {
            RateLimitInterval::Day
        } else {
            RateLimitInterval::NullVal
        }
    }

    /// The byte that stands for a value; `NullVal` is 255.
    pub open spec fn code_view(self) -> u8 {
        match self {
            RateLimitInterval::Second => 0,
            RateLimitInterval::Minute => 1,
            RateLimitInterval::Hour => 2,
            RateLimitInterval::Day => 3,
            RateLimitInterval::NullVal => 255,
        }
    }

    /// The byte that stands for this value on the wire.
    pub fn code(self) -> (r: u8)
        ensures
            r == self.code_view(),
    {
        match self {
            Self::Second => 0,
            Self::Minute => 1,
            Self::Hour => 2,
            Self::Day => 3,
            Self::NullVal => 255,
        }
    }

    /// Reading is total and writing is undone by reading: a declared code
    /// is read as a value other than `NullVal` that is written as that
    /// code again, every other byte is read as `NullVal`, and each value
    /// is read back from its own code.
    pub proof fn lemma_codes(v: u8, e: Self)
        ensures
            Self::declared(v) ==> Self::of_code(v) != RateLimitInterval::NullVal,
            Self::declared(v) ==> Self::of_code(v).code_view() == v,
            !Self::declared(v) ==> Self::of_code(v) == RateLimitInterval::NullVal,
            Self::of_code(e.code_view()) == e,
            e != RateLimitInterval::NullVal ==> Self::declared(e.code_view()),
    {
    }
}

impl From<u8> for RateLimitInterval {
    fn from(v: u8) -> (r: Self) {
        match v {
            0 => Self::Second,
            1 => Self::Minute,
            2 => Self::Hour,
            3 => Self::Day,
            _ => Self::NullVal,
        }
    }
}

impl vstd::std_specs::convert::FromSpecImpl<u8> for RateLimitInterval {
    open spec fn obeys_from_spec() -> bool {
        true
    }

    open spec fn from_spec(v: u8) -> Self {
        Self::of_code(v)
    }
}

} // verus!
