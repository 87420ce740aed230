//! `ListStatusType`: one byte on the wire.
use vstd::prelude::*;

verus! {

#[derive(Clone, Copy, Debug, PartialEq, Eq, Structural, PartialOrd, Ord, Hash)]
pub enum ListStatusType {
    Response,
    ExecStarted,
    AllDone,
    NullVal,
}

impl Default for ListStatusType {
    fn default() -> (r: Self)
        ensures
            r == ListStatusType::NullVal,
    {
        ListStatusType::NullVal
    }
}

impl ListStatusType {
    /// The schema gives this code a meaning of its own.
    pub open spec fn declared(v: u8) -> bool {
        v == 0 || v == 1 || v == 2
    }

    /// What a byte stands for: every byte stands for something, and one
    /// without a meaning of its own for `NullVal`.
    pub open spec fn of_code(v: u8) -> Self {
        if v == 0 {
            ListStatusType::Response
        } else if v == 1 {
            ListStatusType::ExecStarted
        } else if v == 2 {
            ListStatusType::AllDone
        } else {
            ListStatusType::NullVal
        }
    }

    /// The byte that stands for a value; `NullVal` is 255.
    pub open spec fn code_view(self) -> u8 {
        match self {
            ListStatusType::Response => 0,
            ListStatusType::ExecStarted => 1,
            ListStatusType::AllDone => 2,
            ListStatusType::NullVal => 255,
        }
    }

    /// The byte that stands for this value on the wire.
    pub fn code(self) -> (r: u8)
        ensures
            r == self.code_view(),
    {
        match self {
            Self::Response => 0,
            Self::ExecStarted => 1,
            Self::AllDone => 2,
            Self::NullVal => 255,
        }
    }

    /// Reading is total and writing is undone by reading: a declared code
    /// is read as a value other than `NullVal` that is written as that
    /// code again, every other byte is read as `NullVal`, and each value
    /// is read back from its own code.
    pub proof fn lemma_codes(v: u8, e: Self)
        ensures
            Self::declared(v) ==> Self::of_code(v) != ListStatusType::NullVal,
            Self::declared(v) ==> Self::of_code(v).code_view() == v,
            !Self::declared(v) ==> Self::of_code(v) == ListStatusType::NullVal,
            Self::of_code(e.code_view()) == e,
            e != ListStatusType::NullVal ==> Self::declared(e.code_view()),
    {
    }
}

impl From<u8> for ListStatusType {
    fn from(v: u8) -> (r: Self) {
        match v {
            0 => Self::Response,
            1 => Self::ExecStarted,
            2 => Self::AllDone,
            _ => Self::NullVal,
        }
    }
}

impl vstd::std_specs::convert::FromSpecImpl<u8> for ListStatusType {
    open spec fn obeys_from_spec() -> bool {
        true
    }

    open spec fn from_spec(v: u8) -> Self {
        Self::of_code(v)
    }
}

} // verus!
