//! The filters of the exchange and of its symbols: each a message of its own,
//! told apart by its template id.
use crate::bool_enum::BoolEnum;
use crate::buffer::ReadBuf;
use crate::codec::Reader;
use crate::decode::{DecodeError, block_fits, bool_of, has_block, into_bool};
use crate::exchange_info::{Decimal, ExchangeFilter, SymbolFilter};
use crate::exchange_max_num_algo_orders_filter_codec::{self, ExchangeMaxNumAlgoOrdersFilterDecoder};
use crate::exchange_max_num_iceberg_orders_filter_codec::{
    self, ExchangeMaxNumIcebergOrdersFilterDecoder,
};
use crate::exchange_max_num_orders_filter_codec::{self, ExchangeMaxNumOrdersFilterDecoder};
use crate::iceberg_parts_filter_codec::{self, IcebergPartsFilterDecoder};
use crate::lot_size_filter_codec::{self, LotSizeFilterDecoder};
use crate::market_lot_size_filter_codec::{self, MarketLotSizeFilterDecoder};
use crate::max_num_algo_orders_filter_codec::{self, MaxNumAlgoOrdersFilterDecoder};
use crate::max_num_iceberg_orders_filter_codec::{self, MaxNumIcebergOrdersFilterDecoder};
use crate::max_num_orders_filter_codec::{self, MaxNumOrdersFilterDecoder};
use crate::max_position_filter_codec::{self, MaxPositionFilterDecoder};
use crate::message_header_codec::MessageHeaderDecoder;
use crate::min_notional_filter_codec::{self, MinNotionalFilterDecoder};
use crate::notional_filter_codec::{self, NotionalFilterDecoder};
use crate::percent_price_by_side_filter_codec::{self, PercentPriceBySideFilterDecoder};
use crate::percent_price_filter_codec::{self, PercentPriceFilterDecoder};
use crate::price_filter_codec::{self, PriceFilterDecoder};
use crate::tp_lus_sell_filter_codec::{self, TPlusSellFilterDecoder};
use crate::trailing_delta_filter_codec::{self, TrailingDeltaFilterDecoder};
use crate::wire::{absent_if, read_i32, read_i64, read_i8, read_u16, read_u8};
use vstd::prelude::*;

verus! {

/// A filter of the exchange, from a buffer that holds it behind its header
/// at `at`: the template id says which filter it is, and its fields stand
/// in the block behind the header.
pub open spec fn exchange_filter_of(s: Seq<u8>, at: int) -> Result<ExchangeFilter, DecodeError> {
    let id = read_u16(s, at + 2);
    if id == exchange_max_num_orders_filter_codec::SBE_TEMPLATE_ID {
        if !block_fits(s, at, 8) {
            Err(DecodeError::Truncated)
        } else {
            Ok(ExchangeFilter::MaxNumOrders { max_num_orders: read_i64(s, at + 8) })
        }
    } else if id == exchange_max_num_algo_orders_filter_codec::SBE_TEMPLATE_ID {
        if !block_fits(s, at, 8) {
            Err(DecodeError::Truncated)
        } else {
            Ok(ExchangeFilter::MaxNumAlgoOrders { max_num_algo_orders: read_i64(s, at + 8) })
        }
    } else if id == exchange_max_num_iceberg_orders_filter_codec::SBE_TEMPLATE_ID {
        if !block_fits(s, at, 8) {
            Err(DecodeError::Truncated)
        } else {
            Ok(ExchangeFilter::MaxNumIcebergOrders { max_num_iceberg_orders: read_i64(s, at + 8) })
        }
    } else {
        Err(DecodeError::ExchangeFilterTemplate { got: id })
    }
}

/// Decodes the filter of the exchange that `header` announces.
pub fn decode_exchange_filter(header: MessageHeaderDecoder<ReadBuf<'_>>) -> (r: Result<
    ExchangeFilter,
    DecodeError,
>)
    requires
        header.buf_ok(),
        header.offset_view() + 8 <= header.buf()@.len(),
    ensures
        r == exchange_filter_of(header.buf()@, header.offset_view() as int),
{
    let id = header.template_id();
    if id == exchange_max_num_orders_filter_codec::SBE_TEMPLATE_ID {
        if !has_block(&header, 8) {
            return Err(DecodeError::Truncated);
        }
        let decoder = ExchangeMaxNumOrdersFilterDecoder::default().header(header);
        Ok(ExchangeFilter::MaxNumOrders { max_num_orders: decoder.max_num_orders() })
    } else if id == exchange_max_num_algo_orders_filter_codec::SBE_TEMPLATE_ID {
        if !has_block(&header, 8) {
            return Err(DecodeError::Truncated);
        }
        let decoder = ExchangeMaxNumAlgoOrdersFilterDecoder::default().header(header);
        Ok(ExchangeFilter::MaxNumAlgoOrders { max_num_algo_orders: decoder.max_num_algo_orders() })
    } else if id == exchange_max_num_iceberg_orders_filter_codec::SBE_TEMPLATE_ID {
        if !has_block(&header, 8) {
            return Err(DecodeError::Truncated);
        }
        let decoder = ExchangeMaxNumIcebergOrdersFilterDecoder::default().header(header);
        Ok(
            ExchangeFilter::MaxNumIcebergOrders {
                max_num_iceberg_orders: decoder.max_num_iceberg_orders(),
            },
        )
    } else {
        Err(DecodeError::ExchangeFilterTemplate { got: id })
    }
}

/// A filter of a symbol, from a buffer that holds it behind its header at
/// `at`: the template id says which filter it is, and its fields stand in
/// the block behind the header.
pub open spec fn symbol_filter_of(s: Seq<u8>, at: int) -> Result<SymbolFilter, DecodeError> {
    let id = read_u16(s, at + 2);
    if id == price_filter_codec::SBE_TEMPLATE_ID {
        if !block_fits(s, at, price_filter_codec::SBE_BLOCK_LENGTH as int) {
            Err(DecodeError::Truncated)
        } else {
            Ok(
                SymbolFilter::Price {
                    min_price: Decimal::of(read_i64(s, at + 9), read_i8(s, at + 8)),
                    max_price: Decimal::of(read_i64(s, at + 17), read_i8(s, at + 8)),
                    tick_size: Decimal::of(read_i64(s, at + 25), read_i8(s, at + 8)),
                },
            )
        }
    } else if id == percent_price_filter_codec::SBE_TEMPLATE_ID {
        if !block_fits(s, at, percent_price_filter_codec::SBE_BLOCK_LENGTH as int) {
            Err(DecodeError::Truncated)
        } else {
            Ok(
                SymbolFilter::PercentPrice {
                    multiplier_up: Decimal::of(read_i64(s, at + 9), read_i8(s, at + 8)),
                    multiplier_down: Decimal::of(read_i64(s, at + 17), read_i8(s, at + 8)),
                    avg_price_mins: read_i32(s, at + 25),
                },
            )
        }
    } else if id == percent_price_by_side_filter_codec::SBE_TEMPLATE_ID {
        if !block_fits(s, at, percent_price_by_side_filter_codec::SBE_BLOCK_LENGTH as int) {
            Err(DecodeError::Truncated)
        } else {
            Ok(
                SymbolFilter::PercentPriceBySide {
                    bid_multiplier_up: Decimal::of(read_i64(s, at + 9), read_i8(s, at + 8)),
                    bid_multiplier_down: Decimal::of(read_i64(s, at + 17), read_i8(s, at + 8)),
                    ask_multiplier_up: Decimal::of(read_i64(s, at + 25), read_i8(s, at + 8)),
                    ask_multiplier_down: Decimal::of(read_i64(s, at + 33), read_i8(s, at + 8)),
                    avg_price_mins: read_i32(s, at + 41),
                },
            )
        }
    } else if id == lot_size_filter_codec::SBE_TEMPLATE_ID {
        if !block_fits(s, at, lot_size_filter_codec::SBE_BLOCK_LENGTH as int) {
            Err(DecodeError::Truncated)
        } else {
            Ok(
                SymbolFilter::LotSize {
                    min_qty: Decimal::of(read_i64(s, at + 9), read_i8(s, at + 8)),
                    max_qty: Decimal::of(read_i64(s, at + 17), read_i8(s, at + 8)),
                    step_size: Decimal::of(read_i64(s, at + 25), read_i8(s, at + 8)),
                },
            )
        }
    } else if id == min_notional_filter_codec::SBE_TEMPLATE_ID {
        if !block_fits(s, at, min_notional_filter_codec::SBE_BLOCK_LENGTH as int) {
            Err(DecodeError::Truncated)
        } else {
            if bool_of(BoolEnum::of_code(read_u8(s, at + 17))) is Err {
                Err(DecodeError::NullBool)
            } else {
                Ok(
                    SymbolFilter::MinNotional {
                        min_notional: Decimal::of(read_i64(s, at + 9), read_i8(s, at + 8)),
                        apply_to_market: bool_of(BoolEnum::of_code(read_u8(s, at + 17)))->Ok_0,
                        avg_price_mins: read_i32(s, at + 18),
                    },
                )
            }
        }
    } else if id == notional_filter_codec::SBE_TEMPLATE_ID {
        if !block_fits(s, at, notional_filter_codec::SBE_BLOCK_LENGTH as int) {
            Err(DecodeError::Truncated)
        } else {
            if bool_of(BoolEnum::of_code(read_u8(s, at + 17))) is Err {
                Err(DecodeError::NullBool)
            } else {
                if bool_of(BoolEnum::of_code(read_u8(s, at + 26))) is Err {
                    Err(DecodeError::NullBool)
                } else {
                    Ok(
                        SymbolFilter::Notional {
                            min_notional: Decimal::of(read_i64(s, at + 9), read_i8(s, at + 8)),
                            apply_min_to_market: bool_of(BoolEnum::of_code(read_u8(s, at + 17)))->Ok_0,
                            max_notional: Decimal::of(read_i64(s, at + 18), read_i8(s, at + 8)),
                            apply_max_to_market: bool_of(BoolEnum::of_code(read_u8(s, at + 26)))->Ok_0,
                            avg_price_mins: read_i32(s, at + 27),
                        },
                    )
                }
            }
        }
    } else if id == iceberg_parts_filter_codec::SBE_TEMPLATE_ID {
        if !block_fits(s, at, iceberg_parts_filter_codec::SBE_BLOCK_LENGTH as int) {
            Err(DecodeError::Truncated)
        } else {
            Ok(
                SymbolFilter::IcebergParts {
                    filter_limit: read_i64(s, at + 8),
                },
            )
        }
    } else if id == market_lot_size_filter_codec::SBE_TEMPLATE_ID {
        if !block_fits(s, at, market_lot_size_filter_codec::SBE_BLOCK_LENGTH as int) {
            Err(DecodeError::Truncated)
        } else {
            Ok(
                SymbolFilter::MarketLotSize {
                    min_qty: Decimal::of(read_i64(s, at + 9), read_i8(s, at + 8)),
                    max_qty: Decimal::of(read_i64(s, at + 17), read_i8(s, at + 8)),
                    step_size: Decimal::of(read_i64(s, at + 25), read_i8(s, at + 8)),
                },
            )
        }
    } else if id == max_num_orders_filter_codec::SBE_TEMPLATE_ID {
        if !block_fits(s, at, max_num_orders_filter_codec::SBE_BLOCK_LENGTH as int) {
            Err(DecodeError::Truncated)
        } else {
            Ok(
                SymbolFilter::MaxNumOrders {
                    max_num_orders: read_i64(s, at + 8),
                },
            )
        }
    } else if id == max_num_algo_orders_filter_codec::SBE_TEMPLATE_ID {
        if !block_fits(s, at, max_num_algo_orders_filter_codec::SBE_BLOCK_LENGTH as int) {
            Err(DecodeError::Truncated)
        } else {
            Ok(
                SymbolFilter::MaxNumAlgoOrders {
                    max_num_algo_orders: read_i64(s, at + 8),
                },
            )
        }
    } else if id == max_num_iceberg_orders_filter_codec::SBE_TEMPLATE_ID {
        if !block_fits(s, at, max_num_iceberg_orders_filter_codec::SBE_BLOCK_LENGTH as int) {
            Err(DecodeError::Truncated)
        } else {
            Ok(
                SymbolFilter::MaxNumIcebergOrders {
                    max_num_iceberg_orders: read_i64(s, at + 8),
                },
            )
        }
    } else if id == max_position_filter_codec::SBE_TEMPLATE_ID {
        if !block_fits(s, at, max_position_filter_codec::SBE_BLOCK_LENGTH as int) {
            Err(DecodeError::Truncated)
        } else {
            Ok(
                SymbolFilter::MaxPosition {
                    max_position: Decimal::of(read_i64(s, at + 9), read_i8(s, at + 8)),
                },
            )
        }
    } else if id == trailing_delta_filter_codec::SBE_TEMPLATE_ID {
        if !block_fits(s, at, trailing_delta_filter_codec::SBE_BLOCK_LENGTH as int) {
            Err(DecodeError::Truncated)
        } else {
            Ok(
                SymbolFilter::TrailingDelta {
                    min_trailing_above_delta: read_i64(s, at + 8),
                    max_trailing_above_delta: read_i64(s, at + 16),
                    min_trailing_below_delta: read_i64(s, at + 24),
                    max_trailing_below_delta: read_i64(s, at + 32),
                },
            )
        }
    } else if id == tp_lus_sell_filter_codec::SBE_TEMPLATE_ID {
        if !block_fits(s, at, tp_lus_sell_filter_codec::SBE_BLOCK_LENGTH as int) {
            Err(DecodeError::Truncated)
        } else {
            Ok(
                SymbolFilter::TPlusSell {
                    end_time: absent_if(read_i64(s, at + 8), i64::MIN),
                },
            )
        }
    } else {
        Err(DecodeError::SymbolFilterTemplate { got: id })
    }
}

/// Decodes the filter of a symbol that `header` announces.
pub fn decode_symbol_filter(header: MessageHeaderDecoder<ReadBuf<'_>>) -> (r: Result<
    SymbolFilter,
    DecodeError,
>)
    requires
        header.buf_ok(),
        header.offset_view() + 8 <= header.buf()@.len(),
    ensures
        r == symbol_filter_of(header.buf()@, header.offset_view() as int),
{
    let id = header.template_id();
    if id == price_filter_codec::SBE_TEMPLATE_ID {
        if !has_block(&header, price_filter_codec::SBE_BLOCK_LENGTH as usize) {
            return Err(DecodeError::Truncated);
        }
        let filter = PriceFilterDecoder::default().header(header);
        let exponent = filter.price_exponent();
        Ok(
            SymbolFilter::Price {
                min_price: Decimal::new(filter.min_price(), exponent),
                max_price: Decimal::new(filter.max_price(), exponent),
                tick_size: Decimal::new(filter.tick_size(), exponent),
            },
        )
    } else if id == percent_price_filter_codec::SBE_TEMPLATE_ID {
        if !has_block(&header, percent_price_filter_codec::SBE_BLOCK_LENGTH as usize) {
            return Err(DecodeError::Truncated);
        }
        let filter = PercentPriceFilterDecoder::default().header(header);
        let exponent = filter.multiplier_exponent();
        Ok(
            SymbolFilter::PercentPrice {
                multiplier_up: Decimal::new(filter.multiplier_up(), exponent),
                multiplier_down: Decimal::new(filter.multiplier_down(), exponent),
                avg_price_mins: filter.avg_price_mins(),
            },
        )
    } else if id == percent_price_by_side_filter_codec::SBE_TEMPLATE_ID {
        if !has_block(&header, percent_price_by_side_filter_codec::SBE_BLOCK_LENGTH as usize) {
            return Err(DecodeError::Truncated);
        }
        let filter = PercentPriceBySideFilterDecoder::default().header(header);
        let exponent = filter.multiplier_exponent();
        Ok(
            SymbolFilter::PercentPriceBySide {
                bid_multiplier_up: Decimal::new(filter.bid_multiplier_up(), exponent),
                bid_multiplier_down: Decimal::new(filter.bid_multiplier_down(), exponent),
                ask_multiplier_up: Decimal::new(filter.ask_multiplier_up(), exponent),
                ask_multiplier_down: Decimal::new(filter.ask_multiplier_down(), exponent),
                avg_price_mins: filter.avg_price_mins(),
            },
        )
    } else if id == lot_size_filter_codec::SBE_TEMPLATE_ID {
        if !has_block(&header, lot_size_filter_codec::SBE_BLOCK_LENGTH as usize) {
            return Err(DecodeError::Truncated);
        }
        let filter = LotSizeFilterDecoder::default().header(header);
        let exponent = filter.qty_exponent();
        Ok(
            SymbolFilter::LotSize {
                min_qty: Decimal::new(filter.min_qty(), exponent),
                max_qty: Decimal::new(filter.max_qty(), exponent),
                step_size: Decimal::new(filter.step_size(), exponent),
            },
        )
    } else if id == min_notional_filter_codec::SBE_TEMPLATE_ID {
        if !has_block(&header, min_notional_filter_codec::SBE_BLOCK_LENGTH as usize) {
            return Err(DecodeError::Truncated);
        }
        let filter = MinNotionalFilterDecoder::default().header(header);
        let exponent = filter.price_exponent();
        let apply_to_market = match into_bool(filter.apply_to_market()) {
            Ok(b) => b,
            Err(e) => {
                return Err(e);
            },
        };
        Ok(
            SymbolFilter::MinNotional {
                min_notional: Decimal::new(filter.min_notional(), exponent),
                apply_to_market,
                avg_price_mins: filter.avg_price_mins(),
            },
        )
    } else if id == notional_filter_codec::SBE_TEMPLATE_ID {
        if !has_block(&header, notional_filter_codec::SBE_BLOCK_LENGTH as usize) {
            return Err(DecodeError::Truncated);
        }
        let filter = NotionalFilterDecoder::default().header(header);
        let exponent = filter.price_exponent();
        let apply_min_to_market = match into_bool(filter.apply_min_to_market()) {
            Ok(b) => b,
            Err(e) => {
                return Err(e);
            },
        };
        let apply_max_to_market = match into_bool(filter.apply_max_to_market()) {
            Ok(b) => b,
            Err(e) => {
                return Err(e);
            },
        };
        Ok(
            SymbolFilter::Notional {
                min_notional: Decimal::new(filter.min_notional(), exponent),
                apply_min_to_market,
                max_notional: Decimal::new(filter.max_notional(), exponent),
                apply_max_to_market,
                avg_price_mins: filter.avg_price_mins(),
            },
        )
    } else if id == iceberg_parts_filter_codec::SBE_TEMPLATE_ID {
        if !has_block(&header, iceberg_parts_filter_codec::SBE_BLOCK_LENGTH as usize) {
            return Err(DecodeError::Truncated);
        }
        let filter = IcebergPartsFilterDecoder::default().header(header);
        Ok(
            SymbolFilter::IcebergParts {
                filter_limit: filter.filter_limit(),
            },
        )
    } else if id == market_lot_size_filter_codec::SBE_TEMPLATE_ID {
        if !has_block(&header, market_lot_size_filter_codec::SBE_BLOCK_LENGTH as usize) {
            return Err(DecodeError::Truncated);
        }
        let filter = MarketLotSizeFilterDecoder::default().header(header);
        let exponent = filter.qty_exponent();
        Ok(
            SymbolFilter::MarketLotSize {
                min_qty: Decimal::new(filter.min_qty(), exponent),
                max_qty: Decimal::new(filter.max_qty(), exponent),
                step_size: Decimal::new(filter.step_size(), exponent),
            },
        )
    } else if id == max_num_orders_filter_codec::SBE_TEMPLATE_ID {
        if !has_block(&header, max_num_orders_filter_codec::SBE_BLOCK_LENGTH as usize) {
            return Err(DecodeError::Truncated);
        }
        let filter = MaxNumOrdersFilterDecoder::default().header(header);
        Ok(
            SymbolFilter::MaxNumOrders {
                max_num_orders: filter.max_num_orders(),
            },
        )
    } else if id == max_num_algo_orders_filter_codec::SBE_TEMPLATE_ID {
        if !has_block(&header, max_num_algo_orders_filter_codec::SBE_BLOCK_LENGTH as usize) {
            return Err(DecodeError::Truncated);
        }
        let filter = MaxNumAlgoOrdersFilterDecoder::default().header(header);
        Ok(
            SymbolFilter::MaxNumAlgoOrders {
                max_num_algo_orders: filter.max_num_algo_orders(),
            },
        )
    } else if id == max_num_iceberg_orders_filter_codec::SBE_TEMPLATE_ID {
        if !has_block(&header, max_num_iceberg_orders_filter_codec::SBE_BLOCK_LENGTH as usize) {
            return Err(DecodeError::Truncated);
        }
        let filter = MaxNumIcebergOrdersFilterDecoder::default().header(header);
        Ok(
            SymbolFilter::MaxNumIcebergOrders {
                max_num_iceberg_orders: filter.max_num_iceberg_orders(),
            },
        )
    } else if id == max_position_filter_codec::SBE_TEMPLATE_ID {
        if !has_block(&header, max_position_filter_codec::SBE_BLOCK_LENGTH as usize) {
            return Err(DecodeError::Truncated);
        }
        let filter = MaxPositionFilterDecoder::default().header(header);
        let exponent = filter.qty_exponent();
        Ok(
            SymbolFilter::MaxPosition {
                max_position: Decimal::new(filter.max_position(), exponent),
            },
        )
    } else if id == trailing_delta_filter_codec::SBE_TEMPLATE_ID {
        if !has_block(&header, trailing_delta_filter_codec::SBE_BLOCK_LENGTH as usize) {
            return Err(DecodeError::Truncated);
        }
        let filter = TrailingDeltaFilterDecoder::default().header(header);
        Ok(
            SymbolFilter::TrailingDelta {
                min_trailing_above_delta: filter.min_trailing_above_delta(),
                max_trailing_above_delta: filter.max_trailing_above_delta(),
                min_trailing_below_delta: filter.min_trailing_below_delta(),
                max_trailing_below_delta: filter.max_trailing_below_delta(),
            },
        )
    } else if id == tp_lus_sell_filter_codec::SBE_TEMPLATE_ID {
        if !has_block(&header, tp_lus_sell_filter_codec::SBE_BLOCK_LENGTH as usize) {
            return Err(DecodeError::Truncated);
        }
        let filter = TPlusSellFilterDecoder::default().header(header);
        Ok(
            SymbolFilter::TPlusSell {
                end_time: filter.end_time(),
            },
        )
    } else {
        Err(DecodeError::SymbolFilterTemplate { got: id })
    }
}

} // verus!
