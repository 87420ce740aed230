//! `CancelReplaceStatus`: one byte on the wire.
use vstd::prelude::*;

verus! {

#[derive(Clone, Copy, Debug, PartialEq, Eq, Structural, PartialOrd, Ord, Hash)]
pub enum CancelReplaceStatus {
    Success,
    Failure,
    NotAttempted,
    NullVal,
}

impl Default for CancelReplaceStatus {
    fn default() -> (r: Self)
        ensures
            r == CancelReplaceStatus::NullVal,
    {
        CancelReplaceStatus::NullVal
    }
}

impl CancelReplaceStatus {
    /// The schema gives this code a meaning of its own.
    pub open spec fn declared(v: u8) -> bool {
        v == 0 || v == 1 || v == 2
    }

    /// What a byte stands for: every byte stands for something, and one
    /// without a meaning of its own for `NullVal`.
    pub open spec fn of_code(v: u8) -> Self {
        if v == 0 {
            CancelReplaceStatus::Success
        } else if v == 1 {
            CancelReplaceStatus::Failure
        } else if v == 2 {
            CancelReplaceStatus::NotAttempted
        } else {
            CancelReplaceStatus::NullVal
        }
    }

    /// The byte that stands for a value; `NullVal` is 255.
    pub open spec fn code_view(self) -> u8 {
        match self {
            CancelReplaceStatus::Success => 0,
            CancelReplaceStatus::Failure => 1,
            CancelReplaceStatus::NotAttempted => 2,
            CancelReplaceStatus::NullVal => 255,
        }
    }

    /// The byte that stands for this value on the wire.
    pub fn code(self) -> (r: u8)
        ensures
            r == self.code_view(),
    {
        match self {
            Self::Success => 0,
            Self::Failure => 1,
            Self::NotAttempted => 2,
            Self::NullVal => 255,
        }
    }

    /// Reading is total and writing is undone by reading: a declared code
    /// is read as a value other than `NullVal` that is written as that
    /// code again, every other byte is read as `NullVal`, and each value
    /// is read back from its own code.
    pub proof fn lemma_codes(v: u8, e: Self)
        ensures
            Self::declared(v) ==> Self::of_code(v) != CancelReplaceStatus::NullVal,
            Self::declared(v) ==> Self::of_code(v).code_view() == v,
            !Self::declared(v) ==> Self::of_code(v) == CancelReplaceStatus::NullVal,
            Self::of_code(e.code_view()) == e,
            e != CancelReplaceStatus::NullVal ==> Self::declared(e.code_view()),
    {
    }
}

impl From<u8> for CancelReplaceStatus {
    fn from(v: u8) -> (r: Self) {
        match v {
            0 => Self::Success,
            1 => Self::Failure,
            2 => Self::NotAttempted,
            _ => Self::NullVal,
        }
    }
}

impl vstd::std_specs::convert::FromSpecImpl<u8> for CancelReplaceStatus {
    open spec fn obeys_from_spec() -> bool {
        true
    }

    open spec fn from_spec(v: u8) -> Self {
        Self::of_code(v)
    }
}

} // verus!
