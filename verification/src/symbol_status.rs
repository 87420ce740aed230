//! `SymbolStatus`: one byte on the wire.
use vstd::prelude::*;

verus! {

#[derive(Clone, Copy, Debug, PartialEq, Eq, Structural, PartialOrd, Ord, Hash)]
pub enum SymbolStatus {
    PreTrading,
    Trading,
    PostTrading,
    EndOfDay,
    Halt,
    AuctionMatch,
    Break,
    NullVal,
}

impl Default for SymbolStatus {
    fn default() -> (r: Self)
        ensures
            r == SymbolStatus::NullVal,
    {
        SymbolStatus::NullVal
    }
}

impl SymbolStatus {
    /// The schema gives this code a meaning of its own.
    pub open spec fn declared(v: u8) -> bool {
        v == 0 || v == 1 || v == 2 || v == 3 || v == 4 || v == 5 || v == 7
    }

    /// What a byte stands for: every byte stands for something, and one
    /// without a meaning of its own for `NullVal`.
    pub open spec fn of_code(v: u8) -> Self {
        if v == 0 {
            SymbolStatus::PreTrading
        } else if v == 1 {
            SymbolStatus::Trading
        } else if v == 2 {
            SymbolStatus::PostTrading
        } else if v == 3 {
            SymbolStatus::EndOfDay
        } else if v == 4 {
            SymbolStatus::Halt
        } else if v == 5 {
            SymbolStatus::AuctionMatch
        } else if v == 7 {
            SymbolStatus::Break
        } else {
            SymbolStatus::NullVal
        }
    }

    /// The byte that stands for a value; `NullVal` is 255.
    pub open spec fn code_view(self) -> u8 {
        match self {
            SymbolStatus::PreTrading => 0,
            SymbolStatus::Trading => 1,
            SymbolStatus::PostTrading => 2,
            SymbolStatus::EndOfDay => 3,
            SymbolStatus::Halt => 4,
            SymbolStatus::AuctionMatch => 5,
            SymbolStatus::Break => 7,
            SymbolStatus::NullVal => 255,
        }
    }

    /// The byte that stands for this value on the wire.
    pub fn code(self) -> (r: u8)
        ensures
            r == self.code_view(),
    {
        match self {
            Self::PreTrading => 0,
            Self::Trading => 1,
            Self::PostTrading => 2,
            Self::EndOfDay => 3,
            Self::Halt => 4,
            Self::AuctionMatch => 5,
            Self::Break => 7,
            Self::NullVal => 255,
        }
    }

    /// Reading is total and writing is undone by reading: a declared code
    /// is read as a value other than `NullVal` that is written as that
    /// code again, every other byte is read as `NullVal`, and each value
    /// is read back from its own code.
    pub proof fn lemma_codes(v: u8, e: Self)
        ensures
            Self::declared(v) ==> Self::of_code(v) != SymbolStatus::NullVal,
            Self::declared(v) ==> Self::of_code(v).code_view() == v,
            !Self::declared(v) ==> Self::of_code(v) == SymbolStatus::NullVal,
            Self::of_code(e.code_view()) == e,
            e != SymbolStatus::NullVal ==> Self::declared(e.code_view()),
    {
    }
}

impl From<u8> for SymbolStatus {
    fn from(v: u8) -> (r: Self) {
        match v {
            0 => Self::PreTrading,
            1 => Self::Trading,
            2 => Self::PostTrading,
            3 => Self::EndOfDay,
            4 => Self::Halt,
            5 => Self::AuctionMatch,
            7 => Self::Break,
            _ => Self::NullVal,
        }
    }
}

impl vstd::std_specs::convert::FromSpecImpl<u8> for SymbolStatus {
    open spec fn obeys_from_spec() -> bool {
        true
    }

    open spec fn from_spec(v: u8) -> Self {
        Self::of_code(v)
    }
}

} // verus!
