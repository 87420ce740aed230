//! What the exchange tells about itself, decoded: limits, filters, symbols
//! and order routing, and the answer that stands for an error.
use crate::allowed_self_trade_prevention_modes::AllowedSelfTradePreventionModes;
use crate::flags::{flag_u16, flag_u8};
use crate::order_types::OrderTypes;
use crate::rate_limit::RateLimit;
use crate::self_trade_prevention_mode::SelfTradePreventionMode;
use crate::symbol_status::SymbolStatus;
use vstd::prelude::*;

verus! {

/// The answer of the exchange where a request failed.
#[derive(Debug)]
pub struct ErrorResponse {
    pub code: i16,
    pub server_time: Option<i64>,
    pub retry_after: Option<i64>,
    pub msg: String,
}

/// An `ErrorResponse` as plain values.
pub struct ErrorResponseView {
    pub code: i16,
    pub server_time: Option<i64>,
    pub retry_after: Option<i64>,
    pub msg: Seq<char>,
}

impl View for ErrorResponse {
    type V = ErrorResponseView;

    open spec fn view(&self) -> ErrorResponseView {
        ErrorResponseView {
            code: self.code,
            server_time: self.server_time,
            retry_after: self.retry_after,
            msg: self.msg@,
        }
    }
}

/// The number `mantissa` times ten to the power of `exponent`.
#[derive(Clone, Copy, Debug, PartialEq, Eq, Structural)]
pub struct Decimal {
    mantissa: i64,
    exponent: i8,
}

impl Decimal {
    pub closed spec fn mantissa_view(self) -> i64 {
        self.mantissa
    }

    pub closed spec fn exponent_view(self) -> i8 {
        self.exponent
    }

    /// The decimal with this mantissa and exponent, of which there is one.
    pub closed spec fn of(mantissa: i64, exponent: i8) -> Decimal {
        Decimal { mantissa, exponent }
    }

    pub proof fn lemma_of(mantissa: i64, exponent: i8)
        ensures
            Self::of(mantissa, exponent).mantissa_view() == mantissa,
            Self::of(mantissa, exponent).exponent_view() == exponent,
    {
    }

    pub fn new(mantissa: i64, exponent: i8) -> (r: Self)
        ensures
            r == Self::of(mantissa, exponent),
            r.mantissa_view() == mantissa,
            r.exponent_view() == exponent,
    {
        Self { mantissa, exponent }
    }

    pub fn mantissa(&self) -> (r: i64)
        ensures
            r == self.mantissa_view(),
    {
        self.mantissa
    }

    pub fn exponent(&self) -> (r: i8)
        ensures
            r == self.exponent_view(),
    {
        self.exponent
    }
}

/// A rule of the exchange that holds for every symbol.
#[derive(Clone, Copy, Debug, PartialEq, Eq, Structural)]
pub enum ExchangeFilter {
    MaxNumOrders { max_num_orders: i64 },
    MaxNumAlgoOrders { max_num_algo_orders: i64 },
    MaxNumIcebergOrders { max_num_iceberg_orders: i64 },
}

/// A rule of the exchange that holds for one symbol.
#[derive(Clone, Copy, Debug, PartialEq, Eq, Structural)]
pub enum SymbolFilter {
    Price { min_price: Decimal, max_price: Decimal, tick_size: Decimal },
    PercentPrice { multiplier_up: Decimal, multiplier_down: Decimal, avg_price_mins: i32 },
    PercentPriceBySide {
        bid_multiplier_up: Decimal,
        bid_multiplier_down: Decimal,
        ask_multiplier_up: Decimal,
        ask_multiplier_down: Decimal,
        avg_price_mins: i32,
    },
    LotSize { min_qty: Decimal, max_qty: Decimal, step_size: Decimal },
    MinNotional { min_notional: Decimal, apply_to_market: bool, avg_price_mins: i32 },
    Notional {
        min_notional: Decimal,
        apply_min_to_market: bool,
        max_notional: Decimal,
        apply_max_to_market: bool,
        avg_price_mins: i32,
    },
    IcebergParts { filter_limit: i64 },
    MarketLotSize { min_qty: Decimal, max_qty: Decimal, step_size: Decimal },
    MaxNumOrders { max_num_orders: i64 },
    MaxNumAlgoOrders { max_num_algo_orders: i64 },
    MaxNumIcebergOrders { max_num_iceberg_orders: i64 },
    MaxPosition { max_position: Decimal },
    TrailingDelta {
        min_trailing_above_delta: i64,
        max_trailing_above_delta: i64,
        min_trailing_below_delta: i64,
        max_trailing_below_delta: i64,
    },
    TPlusSell { end_time: Option<i64> },
}

/// Symbols among which orders for one base asset are routed.
#[derive(Debug)]
pub struct Sor {
    pub symbols: Vec<String>,
    pub base_asset: String,
}

/// A `Sor` as plain values.
pub struct SorView {
    pub symbols: Seq<Seq<char>>,
    pub base_asset: Seq<char>,
}

impl View for Sor {
    type V = SorView;

    open spec fn view(&self) -> SorView {
        SorView { symbols: texts(self.symbols@), base_asset: self.base_asset@ }
    }
}

/// The texts of some strings, in their order.
pub open spec fn texts(v: Seq<String>) -> Seq<Seq<char>> {
    v.map_values(|s: String| s@)
}

/// What is fixed in length of a symbol's description.
#[derive(Clone, Copy, Debug, PartialEq, Eq, Structural)]
pub struct SymbolTerms {
    pub status: SymbolStatus,
    pub base_asset_precision: u8,
    pub quote_asset_precision: u8,
    pub base_commission_precision: u8,
    pub quote_commission_precision: u8,
    pub order_types: OrderTypes,
    pub iceberg_allowed: bool,
    pub oco_allowed: bool,
    pub quote_order_qty_market_allowed: bool,
    pub allow_trailing_stop: bool,
    pub cancel_replace_allowed: bool,
    pub is_spot_trading_allowed: bool,
    pub is_margin_trading_allowed: bool,
    pub default_self_trade_prevention_mode: SelfTradePreventionMode,
    pub allowed_self_trade_prevention_modes: AllowedSelfTradePreventionModes,
}

/// A symbol that the exchange trades, and the rules of trading it.
#[derive(Debug)]
pub struct SymbolInfo {
    pub status: SymbolStatus,
    pub base_asset_precision: u8,
    pub quote_asset_precision: u8,
    pub base_commission_precision: u8,
    pub quote_commission_precision: u8,
    pub order_types: OrderTypes,
    pub iceberg_allowed: bool,
    pub oco_allowed: bool,
    pub quote_order_qty_market_allowed: bool,
    pub allow_trailing_stop: bool,
    pub cancel_replace_allowed: bool,
    pub is_spot_trading_allowed: bool,
    pub is_margin_trading_allowed: bool,
    pub default_self_trade_prevention_mode: SelfTradePreventionMode,
    pub allowed_self_trade_prevention_modes: AllowedSelfTradePreventionModes,
    pub filters: Vec<SymbolFilter>,
    pub permissions: Vec<String>,
    pub symbol: String,
    pub base_asset: String,
    pub quote_asset: String,
}

/// A `SymbolInfo` as plain values.
pub struct SymbolInfoView {
    pub terms: SymbolTerms,
    pub filters: Seq<SymbolFilter>,
    pub permissions: Seq<Seq<char>>,
    pub symbol: Seq<char>,
    pub base_asset: Seq<char>,
    pub quote_asset: Seq<char>,
}

impl SymbolInfo {
    /// The fields of fixed length, taken together.
    pub open spec fn terms(self) -> SymbolTerms {
        SymbolTerms {
            status: self.status,
            base_asset_precision: self.base_asset_precision,
            quote_asset_precision: self.quote_asset_precision,
            base_commission_precision: self.base_commission_precision,
            quote_commission_precision: self.quote_commission_precision,
            order_types: self.order_types,
            iceberg_allowed: self.iceberg_allowed,
            oco_allowed: self.oco_allowed,
            quote_order_qty_market_allowed: self.quote_order_qty_market_allowed,
            allow_trailing_stop: self.allow_trailing_stop,
            cancel_replace_allowed: self.cancel_replace_allowed,
            is_spot_trading_allowed: self.is_spot_trading_allowed,
            is_margin_trading_allowed: self.is_margin_trading_allowed,
            default_self_trade_prevention_mode: self.default_self_trade_prevention_mode,
            allowed_self_trade_prevention_modes: self.allowed_self_trade_prevention_modes,
        }
    }
}

impl View for SymbolInfo {
    type V = SymbolInfoView;

    open spec fn view(&self) -> SymbolInfoView {
        SymbolInfoView {
            terms: self.terms(),
            filters: self.filters@,
            permissions: texts(self.permissions@),
            symbol: self.symbol@,
            base_asset: self.base_asset@,
            quote_asset: self.quote_asset@,
        }
    }
}

/// Some symbols as plain values, in their order.
pub open spec fn symbol_views(v: Seq<SymbolInfo>) -> Seq<SymbolInfoView> {
    v.map_values(|s: SymbolInfo| s@)
}

/// Some routing entries as plain values, in their order.
pub open spec fn sor_views(v: Seq<Sor>) -> Seq<SorView> {
    v.map_values(|s: Sor| s@)
}

/// All that the exchange tells about itself.
#[derive(Debug)]
pub struct ExchangeInfo {
    pub rate_limits: Vec<RateLimit>,
    pub exchange_filters: Vec<ExchangeFilter>,
    pub symbols: Vec<SymbolInfo>,
    pub sors: Vec<Sor>,
}

/// An `ExchangeInfo` as plain values.
pub struct ExchangeInfoView {
    pub rate_limits: Seq<RateLimit>,
    pub exchange_filters: Seq<ExchangeFilter>,
    pub symbols: Seq<SymbolInfoView>,
    pub sors: Seq<SorView>,
}

impl View for ExchangeInfo {
    type V = ExchangeInfoView;

    open spec fn view(&self) -> ExchangeInfoView {
        ExchangeInfoView {
            rate_limits: self.rate_limits@,
            exchange_filters: self.exchange_filters@,
            symbols: symbol_views(self.symbols@),
            sors: sor_views(self.sors@),
        }
    }
}

/// The name of a status; the null value has none.
pub open spec fn symbol_status_name(val: SymbolStatus) -> Option<&'static str> {
    match val {
        SymbolStatus::PreTrading => Some("PRE_TRADING"),
        SymbolStatus::Trading => Some("TRADING"),
        SymbolStatus::PostTrading => Some("POST_TRADING"),
        SymbolStatus::EndOfDay => Some("END_OF_DAY"),
        SymbolStatus::Halt => Some("HALT"),
        SymbolStatus::AuctionMatch => Some("AUCTION_MATCH"),
        SymbolStatus::Break => Some("BREAK"),
        SymbolStatus::NullVal => None,
    }
}

/// The name of a mode of self-trade prevention; the null value has none.
pub open spec fn self_trade_prevention_mode_name(val: SelfTradePreventionMode) -> Option<
    &'static str,
> {
    match val {
        SelfTradePreventionMode::NoneVal => Some("NONE"),
        SelfTradePreventionMode::ExpireTaker => Some("EXPIRE_TAKER"),
        SelfTradePreventionMode::ExpireMaker => Some("EXPIRE_MAKER"),
        SelfTradePreventionMode::ExpireBoth => Some("EXPIRE_BOTH"),
        SelfTradePreventionMode::NullVal => None,
    }
}

/// `name` where `on` holds, and nothing else.
pub open spec fn named_if(on: bool, name: &'static str) -> Seq<&'static str> {
    if on {
        seq![name]
    } else {
        seq![]
    }
}

/// The names of the order types that are set, in the order of their bits.
pub open spec fn order_type_names(val: OrderTypes) -> Seq<&'static str> {
    named_if(flag_u16(val.0, 0), "MARKET") + named_if(flag_u16(val.0, 1), "LIMIT") + named_if(
        flag_u16(val.0, 2),
        "STOP_LOSS",
    ) + named_if(flag_u16(val.0, 3), "STOP_LOSS_LIMIT") + named_if(
        flag_u16(val.0, 4),
        "TAKE_PROFIT",
    ) + named_if(flag_u16(val.0, 5), "TAKE_PROFIT_LIMIT") + named_if(
        flag_u16(val.0, 6),
        "LIMIT_MAKER",
    )
}

/// The names of the modes that are allowed, in the order of their bits.
pub open spec fn allowed_self_trade_prevention_mode_names(
    val: AllowedSelfTradePreventionModes,
) -> Seq<&'static str> {
    named_if(flag_u8(val.0, 0), "NONE") + named_if(flag_u8(val.0, 1), "EXPIRE_TAKER") + named_if(
        flag_u8(val.0, 2),
        "EXPIRE_MAKER",
    ) + named_if(flag_u8(val.0, 3), "EXPIRE_BOTH")
}

/// The text that stands for a status, if it has one.
pub fn symbol_status_text(val: &SymbolStatus) -> (r: Option<&'static str>)
    ensures
        r == symbol_status_name(*val),
{
    let str_val = match val {
        SymbolStatus::PreTrading => "PRE_TRADING",
        SymbolStatus::Trading => "TRADING",
        SymbolStatus::PostTrading => "POST_TRADING",
        SymbolStatus::EndOfDay => "END_OF_DAY",
        SymbolStatus::Halt => "HALT",
        SymbolStatus::AuctionMatch => "AUCTION_MATCH",
        SymbolStatus::Break => "BREAK",
        SymbolStatus::NullVal => {
            return None;
        },
    };
    Some(str_val)
}

/// The texts that stand for the order types that are set.
pub fn order_type_texts(val: &OrderTypes) -> (r: Vec<&'static str>)
    ensures
        r@ == order_type_names(*val),
{
    let mut strings: Vec<&'static str> = Vec::with_capacity(10);
    if val.get_market() {
        strings.push("MARKET");
    }
    assert(strings@ =~= named_if(flag_u16(val.0, 0), "MARKET"));
    let ghost s0 = strings@;
    if val.get_limit() {
        strings.push("LIMIT");
    }
    assert(strings@ =~= s0 + named_if(flag_u16(val.0, 1), "LIMIT"));
    let ghost s1 = strings@;
    if val.get_stop_loss() {
        strings.push("STOP_LOSS");
    }
    assert(strings@ =~= s1 + named_if(flag_u16(val.0, 2), "STOP_LOSS"));
    let ghost s2 = strings@;
    if val.get_stop_loss_limit() {
        strings.push("STOP_LOSS_LIMIT");
    }
    assert(strings@ =~= s2 + named_if(flag_u16(val.0, 3), "STOP_LOSS_LIMIT"));
    let ghost s3 = strings@;
    if val.get_take_profit() {
        strings.push("TAKE_PROFIT");
    }
    assert(strings@ =~= s3 + named_if(flag_u16(val.0, 4), "TAKE_PROFIT"));
    let ghost s4 = strings@;
    if val.get_take_profit_limit() {
        strings.push("TAKE_PROFIT_LIMIT");
    }
    assert(strings@ =~= s4 + named_if(flag_u16(val.0, 5), "TAKE_PROFIT_LIMIT"));
    let ghost s5 = strings@;
    if val.get_limit_maker() {
        strings.push("LIMIT_MAKER");
    }
    assert(strings@ =~= s5 + named_if(flag_u16(val.0, 6), "LIMIT_MAKER"));
    strings
}

/// The text that stands for a mode of self-trade prevention, if it has one.
pub fn self_trade_prevention_mode_text(val: &SelfTradePreventionMode) -> (r: Option<&'static str>)
    ensures
        r == self_trade_prevention_mode_name(*val),
{
    let str_val = match val {
        SelfTradePreventionMode::NoneVal => "NONE",
        SelfTradePreventionMode::ExpireTaker => "EXPIRE_TAKER",
        SelfTradePreventionMode::ExpireMaker => "EXPIRE_MAKER",
        SelfTradePreventionMode::ExpireBoth => "EXPIRE_BOTH",
        SelfTradePreventionMode::NullVal => {
            return None;
        },
    };
    Some(str_val)
}

/// The texts that stand for the modes that are allowed.
pub fn allowed_self_trade_prevention_mode_texts(val: &AllowedSelfTradePreventionModes) -> (r: Vec<
    &'static str,
>)
    ensures
        r@ == allowed_self_trade_prevention_mode_names(*val),
{
    let mut strings: Vec<&'static str> = Vec::with_capacity(4);
    if val.get_none() {
        strings.push("NONE");
    }
    assert(strings@ =~= named_if(flag_u8(val.0, 0), "NONE"));
    let ghost s0 = strings@;
    if val.get_expire_taker() {
        strings.push("EXPIRE_TAKER");
    }
    assert(strings@ =~= s0 + named_if(flag_u8(val.0, 1), "EXPIRE_TAKER"));
    let ghost s1 = strings@;
    if val.get_expire_maker() {
        strings.push("EXPIRE_MAKER");
    }
    assert(strings@ =~= s1 + named_if(flag_u8(val.0, 2), "EXPIRE_MAKER"));
    let ghost s2 = strings@;
    if val.get_expire_both() {
        strings.push("EXPIRE_BOTH");
    }
    assert(strings@ =~= s2 + named_if(flag_u8(val.0, 3), "EXPIRE_BOTH"));
    strings
}

} // verus!
