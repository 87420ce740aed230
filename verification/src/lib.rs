//! Codecs of the spot schema in Simple Binary Encoding, with their contracts.
//!
//! - `wire` states the layout: what bytes spell which number, and what a
//!   write leaves of the bytes around it.
//! - `buffer` holds the two windows over a byte buffer, `ReadBuf` and
//!   `WriteBuf`, with an accessor for each integer width.
//! - `codec` holds the traits of all codecs: a codec reaches a buffer, and
//!   most of them a limit, the position behind what was read or written.
//! - `group` states the walk over the elements of a repeating group.
//! - Each message, composite, enumeration and flag set has a module of its
//!   own. A message codec stands over the fixed block; groups and
//!   variable-length data follow at the limit, in the order of the schema.
//! - `decode` turns a whole payload into what it says: an error response,
//!   the exchange information, or a websocket envelope around one of them.
//!
//! A contract of an accessor names the bytes that it reads or writes by the
//! functions of `wire`. What else a codec holds is told by spec functions
//! whose names end in `_view`; that an accessor leaves it alone is told by
//! `placed_as`. An encoder borrows the bytes that it writes: once it is no
//! longer used, `lemma_resolved` says that the lender's bytes are those of
//! the encoder's buffer.
pub mod account_commission_response_codec;
pub mod account_order_rate_limit_response_codec;
pub mod account_type;
pub mod agg_trades_response_codec;
pub mod allocation_type;
pub mod allowed_self_trade_prevention_modes;
pub mod bool_enum;
pub mod buffer;
pub mod cancel_open_orders_response_codec;
pub mod cancel_order_response_codec;
pub mod cancel_replace_status;
pub mod codec;
pub mod contingency_type;
pub mod decode;
pub mod depth_response_codec;
pub mod error_response_codec;
pub mod exchange_info;
pub mod exchange_info_response_codec;
pub mod exchange_max_num_algo_orders_filter_codec;
pub mod exchange_max_num_iceberg_orders_filter_codec;
pub mod exchange_max_num_orders_filter_codec;
pub mod filter_type;
pub mod flags;
pub mod floor;
pub mod group;
pub mod group_size_16_encoding_codec;
pub mod group_size_encoding_codec;
pub mod iceberg_parts_filter_codec;
pub mod list_order_status;
pub mod list_status_type;
pub mod lot_size_filter_codec;
pub mod market_lot_size_filter_codec;
pub mod match_type;
pub mod max_num_algo_orders_filter_codec;
pub mod max_num_iceberg_orders_filter_codec;
pub mod max_num_orders_filter_codec;
pub mod max_position_filter_codec;
pub mod message_data_8_codec;
pub mod message_header_codec;
pub mod min_notional_filter_codec;
pub mod new_order_full_response_codec;
pub mod notional_filter_codec;
pub mod optional_var_string_8_codec;
pub mod order_capacity;
pub mod order_response_codec;
pub mod order_side;
pub mod order_status;
pub mod order_type;
pub mod order_types;
pub mod percent_price_by_side_filter_codec;
pub mod percent_price_filter_codec;
pub mod price_filter_codec;
pub mod rate_limit;
pub mod rate_limit_interval;
pub mod rate_limit_type;
pub mod self_trade_prevention_mode;
pub mod symbol_status;
pub mod time_in_force;
pub mod tp_lus_sell_filter_codec;
pub mod trailing_delta_filter_codec;
pub mod var_string_codec;
pub mod web_socket_response_codec;
pub mod web_socket_session_logout_response_codec;
pub mod websocket;
pub mod wire;

pub use crate::account_commission_response_codec::{
    AccountCommissionResponseDecoder, AccountCommissionResponseEncoder,
};
pub use crate::account_order_rate_limit_response_codec::{
    AccountOrderRateLimitResponseDecoder, AccountOrderRateLimitResponseEncoder,
};
pub use crate::account_type::AccountType;
pub use crate::agg_trades_response_codec::{
    AggTradesDecoder, AggTradesEncoder, AggTradesResponseDecoder, AggTradesResponseEncoder,
};
pub use crate::allocation_type::AllocationType;
pub use crate::allowed_self_trade_prevention_modes::AllowedSelfTradePreventionModes;
pub use crate::bool_enum::BoolEnum;
pub use crate::buffer::{ReadBuf, WriteBuf};
pub use crate::cancel_open_orders_response_codec::{
    CancelOpenOrdersResponseDecoder, CancelOpenOrdersResponseEncoder, ResponsesDecoder,
    ResponsesEncoder,
};
pub use crate::cancel_order_response_codec::{
    CancelOrderResponseDecoder, CancelOrderResponseEncoder,
};
pub use crate::cancel_replace_status::CancelReplaceStatus;
pub use crate::codec::{Decoder, Either, Encoder, Reader, SbeErr, SbeResult, Writer};
pub use crate::contingency_type::ContingencyType;
pub use crate::decode::DecodeError;
pub use crate::decode::payload::{Envelope, Outcome, OutcomeView, Report, ReportView};
pub use crate::depth_response_codec::{
    AsksDecoder, AsksEncoder, BidsDecoder, BidsEncoder, DepthResponseDecoder, DepthResponseEncoder,
};
pub use crate::error_response_codec::{ErrorResponseDecoder, ErrorResponseEncoder};
pub use crate::exchange_info::{
    Decimal, ErrorResponse, ErrorResponseView, ExchangeFilter, ExchangeInfo, ExchangeInfoView, Sor,
    SorView, SymbolFilter, SymbolInfo, SymbolInfoView, SymbolTerms,
};
pub use crate::exchange_info_response_codec::{
    ExchangeFiltersDecoder, ExchangeFiltersEncoder, ExchangeInfoResponseDecoder,
    ExchangeInfoResponseEncoder, FiltersDecoder, FiltersEncoder, PermissionsDecoder,
    PermissionsEncoder, SorSymbolsDecoder, SorSymbolsEncoder, SorsDecoder, SorsEncoder,
    SymbolsDecoder, SymbolsEncoder,
};
pub use crate::exchange_max_num_algo_orders_filter_codec::{
    ExchangeMaxNumAlgoOrdersFilterDecoder, ExchangeMaxNumAlgoOrdersFilterEncoder,
};
pub use crate::exchange_max_num_iceberg_orders_filter_codec::{
    ExchangeMaxNumIcebergOrdersFilterDecoder, ExchangeMaxNumIcebergOrdersFilterEncoder,
};
pub use crate::exchange_max_num_orders_filter_codec::{
    ExchangeMaxNumOrdersFilterDecoder, ExchangeMaxNumOrdersFilterEncoder,
};
pub use crate::filter_type::FilterType;
pub use crate::floor::Floor;
pub use crate::group_size_16_encoding_codec::{
    GroupSize16EncodingDecoder, GroupSize16EncodingEncoder,
};
pub use crate::group_size_encoding_codec::{GroupSizeEncodingDecoder, GroupSizeEncodingEncoder};
pub use crate::iceberg_parts_filter_codec::{IcebergPartsFilterDecoder, IcebergPartsFilterEncoder};
pub use crate::list_order_status::ListOrderStatus;
pub use crate::list_status_type::ListStatusType;
pub use crate::lot_size_filter_codec::{LotSizeFilterDecoder, LotSizeFilterEncoder};
pub use crate::market_lot_size_filter_codec::{
    MarketLotSizeFilterDecoder, MarketLotSizeFilterEncoder,
};
pub use crate::match_type::MatchType;
pub use crate::max_num_algo_orders_filter_codec::{
    MaxNumAlgoOrdersFilterDecoder, MaxNumAlgoOrdersFilterEncoder,
};
pub use crate::max_num_iceberg_orders_filter_codec::{
    MaxNumIcebergOrdersFilterDecoder, MaxNumIcebergOrdersFilterEncoder,
};
pub use crate::max_num_orders_filter_codec::{MaxNumOrdersFilterDecoder, MaxNumOrdersFilterEncoder};
pub use crate::max_position_filter_codec::{MaxPositionFilterDecoder, MaxPositionFilterEncoder};
pub use crate::message_data_8_codec::{MessageData8Decoder, MessageData8Encoder};
pub use crate::message_header_codec::{MessageHeaderDecoder, MessageHeaderEncoder};
pub use crate::min_notional_filter_codec::{MinNotionalFilterDecoder, MinNotionalFilterEncoder};
pub use crate::new_order_full_response_codec::{
    FillsDecoder, FillsEncoder, NewOrderFullResponseDecoder, NewOrderFullResponseEncoder,
    PreventedMatchesDecoder, PreventedMatchesEncoder,
};
pub use crate::notional_filter_codec::{NotionalFilterDecoder, NotionalFilterEncoder};
pub use crate::optional_var_string_8_codec::{OptionalVarString8Decoder, OptionalVarString8Encoder};
pub use crate::order_capacity::OrderCapacity;
pub use crate::order_response_codec::{OrderResponseDecoder, OrderResponseEncoder};
pub use crate::order_side::OrderSide;
pub use crate::order_status::OrderStatus;
pub use crate::order_type::OrderType;
pub use crate::order_types::OrderTypes;
pub use crate::percent_price_by_side_filter_codec::{
    PercentPriceBySideFilterDecoder, PercentPriceBySideFilterEncoder,
};
pub use crate::percent_price_filter_codec::{PercentPriceFilterDecoder, PercentPriceFilterEncoder};
pub use crate::price_filter_codec::{PriceFilterDecoder, PriceFilterEncoder};
pub use crate::rate_limit::RateLimit;
pub use crate::rate_limit_interval::RateLimitInterval;
pub use crate::rate_limit_type::RateLimitType;
pub use crate::self_trade_prevention_mode::SelfTradePreventionMode;
pub use crate::symbol_status::SymbolStatus;
pub use crate::time_in_force::TimeInForce;
pub use crate::tp_lus_sell_filter_codec::{TPlusSellFilterDecoder, TPlusSellFilterEncoder};
pub use crate::trailing_delta_filter_codec::{
    TrailingDeltaFilterDecoder, TrailingDeltaFilterEncoder,
};
pub use crate::var_string_codec::{VarStringDecoder, VarStringEncoder};
pub use crate::web_socket_response_codec::{WebSocketResponseDecoder, WebSocketResponseEncoder};
pub use crate::web_socket_session_logout_response_codec::{
    WebSocketSessionLogoutResponseDecoder, WebSocketSessionLogoutResponseEncoder,
};
pub use crate::websocket::{
    WebSocketMetadata, WebSocketMetadataView, WebSocketResult, WebSocketResultView,
};
