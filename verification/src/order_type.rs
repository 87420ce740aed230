//! `OrderType`: one byte on the wire.
use vstd::prelude::*;

verus! {

#[derive(Clone, Copy, Debug, PartialEq, Eq, Structural, PartialOrd, Ord, Hash)]
pub enum OrderType {
    Market,
    Limit,
    StopLoss,
    StopLossLimit,
    TakeProfit,
    TakeProfitLimit,
    LimitMaker,
    NullVal,
}

impl Default for OrderType {
    fn default() -> (r: Self)
        ensures
            r == OrderType::NullVal,
    {
        OrderType::NullVal
    }
}

impl OrderType {
    /// The schema gives this code a meaning of its own.
    pub open spec fn declared(v: u8) -> bool {
        v == 0 || v == 1 || v == 2 || v == 3 || v == 4 || v == 5 || v == 6
    }

    /// What a byte stands for: every byte stands for something, and one
    /// without a meaning of its own for `NullVal`.
    pub open spec fn of_code(v: u8) -> Self {
        if v == 0 {
            OrderType::Market
        } else if v == 1 {
            OrderType::Limit
        } else if v == 2 {
            OrderType::StopLoss
        } else if v == 3 {
            OrderType::StopLossLimit
        } else if v == 4 {
            OrderType::TakeProfit
        } else if v == 5 {
            OrderType::TakeProfitLimit
        } else if v == 6 {
            OrderType::LimitMaker
        } else {
            OrderType::NullVal
        }
    }

    /// The byte that stands for a value; `NullVal` is 255.
    pub open spec fn code_view(self) -> u8 {
        match self {
            OrderType::Market => 0,
            OrderType::Limit => 1,
            OrderType::StopLoss => 2,
            OrderType::StopLossLimit => 3,
            OrderType::TakeProfit => 4,
            OrderType::TakeProfitLimit => 5,
            OrderType::LimitMaker => 6,
            OrderType::NullVal => 255,
        }
    }

    /// The byte that stands for this value on the wire.
    pub fn code(self) -> (r: u8)
        ensures
            r == self.code_view(),
    {
        match self {
            Self::Market => 0,
            Self::Limit => 1,
            Self::StopLoss => 2,
            Self::StopLossLimit => 3,
            Self::TakeProfit => 4,
            Self::TakeProfitLimit => 5,
            Self::LimitMaker => 6,
            Self::NullVal => 255,
        }
    }

    /// Reading is total and writing is undone by reading: a declared code
    /// is read as a value other than `NullVal` that is written as that
    /// code again, every other byte is read as `NullVal`, and each value
    /// is read back from its own code.
    pub proof fn lemma_codes(v: u8, e: Self)
        ensures
            Self::declared(v) ==> Self::of_code(v) != OrderType::NullVal,
            Self::declared(v) ==> Self::of_code(v).code_view() == v,
            !Self::declared(v) ==> Self::of_code(v) == OrderType::NullVal,
            Self::of_code(e.code_view()) == e,
            e != OrderType::NullVal ==> Self::declared(e.code_view()),
    {
    }
}

impl From<u8> for OrderType {
    fn from(v: u8) -> (r: Self) {
        match v {
            0 => Self::Market,
            1 => Self::Limit,
            2 => Self::StopLoss,
            3 => Self::StopLossLimit,
            4 => Self::TakeProfit,
            5 => Self::TakeProfitLimit,
            6 => Self::LimitMaker,
            _ => Self::NullVal,
        }
    }
}

impl vstd::std_specs::convert::FromSpecImpl<u8> for OrderType {
    open spec fn obeys_from_spec() -> bool {
        true
    }

    open spec fn from_spec(v: u8) -> Self {
        Self::of_code(v)
    }
}

} // verus!
