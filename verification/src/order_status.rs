//! `OrderStatus`: one byte on the wire.
use vstd::prelude::*;

verus! {

#[derive(Clone, Copy, Debug, PartialEq, Eq, Structural, PartialOrd, Ord, Hash)]
pub enum OrderStatus {
    New,
    PartiallyFilled,
    Filled,
    Canceled,
    PendingCancel,
    Rejected,
    Expired,
    ExpiredInMatch,
    Unknown,
    NullVal,
}

impl Default for OrderStatus {
    fn default() -> (r: Self)
        ensures
            r == OrderStatus::NullVal,
    {
        OrderStatus::NullVal
    }
}

impl OrderStatus {
    /// The schema gives this code a meaning of its own.
    pub open spec fn declared(v: u8) -> bool {
        v == 0 || v == 1 || v == 2 || v == 3 || v == 4 || v == 5 || v == 6 || v == 9 || v == 254
    }

    /// What a byte stands for: every byte stands for something, and one
    /// without a meaning of its own for `NullVal`.
    pub open spec fn of_code(v: u8) -> Self {
        if v == 0 {
            OrderStatus::New
        } else if v == 1 {
            OrderStatus::PartiallyFilled
        } else if v == 2 {
            OrderStatus::Filled
        } else if v == 3 {
            OrderStatus::Canceled
        } else if v == 4 {
            OrderStatus::PendingCancel
        } else if v == 5 {
            OrderStatus::Rejected
        } else if v == 6 {
            OrderStatus::Expired
        } else if v == 9 {
            OrderStatus::ExpiredInMatch
        } else if v == 254 {
            OrderStatus::Unknown
        } else {
            OrderStatus::NullVal
        }
    }

    /// The byte that stands for a value; `NullVal` is 255.
    pub open spec fn code_view(self) -> u8 {
        match self {
            OrderStatus::New => 0,
            OrderStatus::PartiallyFilled => 1,
            OrderStatus::Filled => 2,
            OrderStatus::Canceled => 3,
            OrderStatus::PendingCancel => 4,
            OrderStatus::Rejected => 5,
            OrderStatus::Expired => 6,
            OrderStatus::ExpiredInMatch => 9,
            OrderStatus::Unknown => 254,
            OrderStatus::NullVal => 255,
        }
    }

    /// The byte that stands for this value on the wire.
    pub fn code(self) -> (r: u8)
        ensures
            r == self.code_view(),
    {
        match self {
            Self::New => 0,
            Self::PartiallyFilled => 1,
            Self::Filled => 2,
            Self::Canceled => 3,
            Self::PendingCancel => 4,
            Self::Rejected => 5,
            Self::Expired => 6,
            Self::ExpiredInMatch => 9,
            Self::Unknown => 254,
            Self::NullVal => 255,
        }
    }

    /// Reading is total and writing is undone by reading: a declared code
    /// is read as a value other than `NullVal` that is written as that
    /// code again, every other byte is read as `NullVal`, and each value
    /// is read back from its own code.
    pub proof fn lemma_codes(v: u8, e: Self)
        ensures
            Self::declared(v) ==> Self::of_code(v) != OrderStatus::NullVal,
            Self::declared(v) ==> Self::of_code(v).code_view() == v,
            !Self::declared(v) ==> Self::of_code(v) == OrderStatus::NullVal,
            Self::of_code(e.code_view()) == e,
            e != OrderStatus::NullVal ==> Self::declared(e.code_view()),
    {
    }
}

impl From<u8> for OrderStatus {
    fn from(v: u8) -> (r: Self) {
        match v {
            0 => Self::New,
            1 => Self::PartiallyFilled,
            2 => Self::Filled,
            3 => Self::Canceled,
            4 => Self::PendingCancel,
            5 => Self::Rejected,
            6 => Self::Expired,
            9 => Self::ExpiredInMatch,
            254 => Self::Unknown,
            _ => Self::NullVal,
        }
    }
}

impl vstd::std_specs::convert::FromSpecImpl<u8> for OrderStatus {
    open spec fn obeys_from_spec() -> bool {
        true
    }

    open spec fn from_spec(v: u8) -> Self {
        Self::of_code(v)
    }
}

} // verus!
