//! `ListOrderStatus`: one byte on the wire.
use vstd::prelude::*;

verus! {

#[derive(Clone, Copy, Debug, PartialEq, Eq, Structural, PartialOrd, Ord, Hash)]
pub enum ListOrderStatus {
    Canceling,
    Executing,
    AllDone,
    Reject,
    NullVal,
}

impl Default for ListOrderStatus {
    fn default() -> (r: Self)
        ensures
            r == ListOrderStatus::NullVal,
    {
        ListOrderStatus::NullVal
    }
}

impl ListOrderStatus {
    /// The schema gives this code a meaning of its own.
    pub open spec fn declared(v: u8) -> bool {
        v == 0 || v == 1 || v == 2 || v == 3
    }

    /// What a byte stands for: every byte stands for something, and one
    /// without a meaning of its own for `NullVal`.
    pub open spec fn of_code(v: u8) -> Self {
        if v == 0 {
            ListOrderStatus::Canceling
        } else if v == 1 {
            ListOrderStatus::Executing
        } else if v == 2 {
            ListOrderStatus::AllDone
        } else if v == 3 {
            ListOrderStatus::Reject
        } else {
            ListOrderStatus::NullVal
        }
    }

    /// The byte that stands for a value; `NullVal` is 255.
    pub open spec fn code_view(self) -> u8 {
        match self {
            ListOrderStatus::Canceling => 0,
            ListOrderStatus::Executing => 1,
            ListOrderStatus::AllDone => 2,
            ListOrderStatus::Reject => 3,
            ListOrderStatus::NullVal => 255,
        }
    }

    /// The byte that stands for this value on the wire.
    pub fn code(self) -> (r: u8)
        ensures
            r == self.code_view(),
    {
        match self {
            Self::Canceling => 0,
            Self::Executing => 1,
            Self::AllDone => 2,
            Self::Reject => 3,
            Self::NullVal => 255,
        }
    }

    /// Reading is total and writing is undone by reading: a declared code
    /// is read as a value other than `NullVal` that is written as that
    /// code again, every other byte is read as `NullVal`, and each value
    /// is read back from its own code.
    pub proof fn lemma_codes(v: u8, e: Self)
        ensures
            Self::declared(v) ==> Self::of_code(v) != ListOrderStatus::NullVal,
            Self::declared(v) ==> Self::of_code(v).code_view() == v,
            !Self::declared(v) ==> Self::of_code(v) == ListOrderStatus::NullVal,
            Self::of_code(e.code_view()) == e,
            e != ListOrderStatus::NullVal ==> Self::declared(e.code_view()),
    {
    }
}

impl From<u8> for ListOrderStatus {
    fn from(v: u8) -> (r: Self) {
        match v {
            0 => Self::Canceling,
            1 => Self::Executing,
            2 => Self::AllDone,
            3 => Self::Reject,
            _ => Self::NullVal,
        }
    }
}

impl vstd::std_specs::convert::FromSpecImpl<u8> for ListOrderStatus {
    open spec fn obeys_from_spec() -> bool {
        true
    }

    open spec fn from_spec(v: u8) -> Self {
        Self::of_code(v)
    }
}

} // verus!
