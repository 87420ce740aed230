//! `Floor`: one byte on the wire.
use vstd::prelude::*;

verus! {

#[derive(Clone, Copy, Debug, PartialEq, Eq, Structural, PartialOrd, Ord, Hash)]
pub enum Floor {
    Exchange,
    Broker,
    Sor,
    NullVal,
}

impl Default for Floor {
    fn default() -> (r: Self)
        ensures
            r == Floor::NullVal,
    {
        Floor::NullVal
    }
}

impl Floor {
    /// The schema gives this code a meaning of its own.
    pub open spec fn declared(v: u8) -> bool {
        v == 1 || v == 2 || v == 3
    }

    /// What a byte stands for: every byte stands for something, and one
    /// without a meaning of its own for `NullVal`.
    pub open spec fn of_code(v: u8) -> Self {
        if v == 1 {
            Floor::Exchange
        } else if v == 2 {
            Floor::Broker
        } else if v == 3 {
            Floor::Sor
        } else {
            Floor::NullVal
        }
    }

    /// The byte that stands for a value; `NullVal` is 255.
    pub open spec fn code_view(self) -> u8 {
        match self {
            Floor::Exchange => 1,
            Floor::Broker => 2,
            Floor::Sor => 3,
            Floor::NullVal => 255,
        }
    }

    /// The byte that stands for this value on the wire.
    pub fn code(self) -> (r: u8)
        ensures
            r == self.code_view(),
    {
        match self {
            Self::Exchange => 1,
            Self::Broker => 2,
            Self::Sor => 3,
            Self::NullVal => 255,
        }
    }

    /// Reading is total and writing is undone by reading: a declared code
    /// is read as a value other than `NullVal` that is written as that
    /// code again, every other byte is read as `NullVal`, and each value
    /// is read back from its own code.
    pub proof fn lemma_codes(v: u8, e: Self)
        ensures
            Self::declared(v) ==> Self::of_code(v) != Floor::NullVal,
            Self::declared(v) ==> Self::of_code(v).code_view() == v,
            !Self::declared(v) ==> Self::of_code(v) == Floor::NullVal,
            Self::of_code(e.code_view()) == e,
            e != Floor::NullVal ==> Self::declared(e.code_view()),
    {
    }
}

impl From<u8> for Floor {
    fn from(v: u8) -> (r: Self) {
        match v {
            1 => Self::Exchange,
            2 => Self::Broker,
            3 => Self::Sor,
            _ => Self::NullVal,
        }
    }
}

impl vstd::std_specs::convert::FromSpecImpl<u8> for Floor {
    open spec fn obeys_from_spec() -> bool {
        true
    }

    open spec fn from_spec(v: u8) -> Self {
        Self::of_code(v)
    }
}

} // verus!
