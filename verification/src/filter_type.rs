//! `FilterType`: one byte on the wire.
use vstd::prelude::*;

verus! {

#[derive(Clone, Copy, Debug, PartialEq, Eq, Structural, PartialOrd, Ord, Hash)]
pub enum FilterType {
    MaxPosition,
    PriceFilter,
    TPlusSell,
    LotSize,
    MaxNumOrders,
    MinNotional,
    MaxNumAlgoOrders,
    ExchangeMaxNumOrders,
    ExchangeMaxNumAlgoOrders,
    IcebergParts,
    MarketLotSize,
    PercentPrice,
    MaxNumIcebergOrders,
    ExchangeMaxNumIcebergOrders,
    TrailingDelta,
    PercentPriceBySide,
    Notional,
    NullVal,
}

impl Default for FilterType {
    fn default() -> (r: Self)
        ensures
            r == FilterType::NullVal,
    {
        FilterType::NullVal
    }
}

impl FilterType {
    /// The schema gives this code a meaning of its own.
    pub open spec fn declared(v: u8) -> bool {
        v == 0 || v == 1 || v == 2 || v == 3 || v == 4 || v == 5 || v == 6 || v == 7
            || v == 8 || v == 9 || v == 10 || v == 11 || v == 12 || v == 13 || v == 14 || v == 15
            || v == 16
    }

    /// What a byte stands for: every byte stands for something, and one
    /// without a meaning of its own for `NullVal`.
    pub open spec fn of_code(v: u8) -> Self {
        if v == 0 {
            FilterType::MaxPosition
        } else if v == 1 {
            FilterType::PriceFilter
        } else if v == 2 {
            FilterType::TPlusSell
        } else if v == 3 {
            FilterType::LotSize
        } else if v == 4 {
            FilterType::MaxNumOrders
        } else if v == 5 {
            FilterType::MinNotional
        } else if v == 6 {
            FilterType::MaxNumAlgoOrders
        } else if v == 7 {
            FilterType::ExchangeMaxNumOrders
        } else if v == 8 {
            FilterType::ExchangeMaxNumAlgoOrders
        } else if v == 9 {
            FilterType::IcebergParts
        } else if v == 10 {
            FilterType::MarketLotSize
        } else if v == 11 {
            FilterType::PercentPrice
        } else if v == 12 {
            FilterType::MaxNumIcebergOrders
        } else if v == 13 {
            FilterType::ExchangeMaxNumIcebergOrders
        } else if v == 14 {
            FilterType::TrailingDelta
        } else if v == 15 {
            FilterType::PercentPriceBySide
        } else if v == 16 {
            FilterType::Notional
        } else {
            FilterType::NullVal
        }
    }

    /// The byte that stands for a value; `NullVal` is 255.
    pub open spec fn code_view(self) -> u8 {
        match self {
            FilterType::MaxPosition => 0,
            FilterType::PriceFilter => 1,
            FilterType::TPlusSell => 2,
            FilterType::LotSize => 3,
            FilterType::MaxNumOrders => 4,
            FilterType::MinNotional => 5,
            FilterType::MaxNumAlgoOrders => 6,
            FilterType::ExchangeMaxNumOrders => 7,
            FilterType::ExchangeMaxNumAlgoOrders => 8,
            FilterType::IcebergParts => 9,
            FilterType::MarketLotSize => 10,
            FilterType::PercentPrice => 11,
            FilterType::MaxNumIcebergOrders => 12,
            FilterType::ExchangeMaxNumIcebergOrders => 13,
            FilterType::TrailingDelta => 14,
            FilterType::PercentPriceBySide => 15,
            FilterType::Notional => 16,
            FilterType::NullVal => 255,
        }
    }

    /// The byte that stands for this value on the wire.
    pub fn code(self) -> (r: u8)
        ensures
            r == self.code_view(),
    {
        match self {
            Self::MaxPosition => 0,
            Self::PriceFilter => 1,
            Self::TPlusSell => 2,
            Self::LotSize => 3,
            Self::MaxNumOrders => 4,
            Self::MinNotional => 5,
            Self::MaxNumAlgoOrders => 6,
            Self::ExchangeMaxNumOrders => 7,
            Self::ExchangeMaxNumAlgoOrders => 8,
            Self::IcebergParts => 9,
            Self::MarketLotSize => 10,
            Self::PercentPrice => 11,
            Self::MaxNumIcebergOrders => 12,
            Self::ExchangeMaxNumIcebergOrders => 13,
            Self::TrailingDelta => 14,
            Self::PercentPriceBySide => 15,
            Self::Notional => 16,
            Self::NullVal => 255,
        }
    }

    /// Reading is total and writing is undone by reading: a declared code
    /// is read as a value other than `NullVal` that is written as that
    /// code again, every other byte is read as `NullVal`, and each value
    /// is read back from its own code.
    pub proof fn lemma_codes(v: u8, e: Self)
        ensures
            Self::declared(v) ==> Self::of_code(v) != FilterType::NullVal,
            Self::declared(v) ==> Self::of_code(v).code_view() == v,
            !Self::declared(v) ==> Self::of_code(v) == FilterType::NullVal,
            Self::of_code(e.code_view()) == e,
            e != FilterType::NullVal ==> Self::declared(e.code_view()),
    {
    }
}

impl From<u8> for FilterType {
    fn from(v: u8) -> (r: Self) {
        match v {
            0 => Self::MaxPosition,
            1 => Self::PriceFilter,
            2 => Self::TPlusSell,
            3 => Self::LotSize,
            4 => Self::MaxNumOrders,
            5 => Self::MinNotional,
            6 => Self::MaxNumAlgoOrders,
            7 => Self::ExchangeMaxNumOrders,
            8 => Self::ExchangeMaxNumAlgoOrders,
            9 => Self::IcebergParts,
            10 => Self::MarketLotSize,
            11 => Self::PercentPrice,
            12 => Self::MaxNumIcebergOrders,
            13 => Self::ExchangeMaxNumIcebergOrders,
            14 => Self::TrailingDelta,
            15 => Self::PercentPriceBySide,
            16 => Self::Notional,
            _ => Self::NullVal,
        }
    }
}

impl vstd::std_specs::convert::FromSpecImpl<u8> for FilterType {
    open spec fn obeys_from_spec() -> bool {
        true
    }

    open spec fn from_spec(v: u8) -> Self {
        Self::of_code(v)
    }
}

} // verus!
