use spot_sbe::decode::filters::{decode_exchange_filter, decode_symbol_filter};
use spot_sbe::decode::payload::{
    decode_error, decode_payload, decode_websocket_metadata, Outcome,
};
use spot_sbe::decode::{decode_text, into_bool, DecodeError};
use spot_sbe::error_response_codec::ErrorResponseEncoder;
use spot_sbe::exchange_info::{Decimal, ExchangeFilter, SymbolFilter};
use spot_sbe::exchange_info_response_codec::{
    ExchangeFiltersEncoder, ExchangeInfoResponseEncoder, FiltersEncoder, PermissionsEncoder,
    SorSymbolsEncoder, SorsEncoder, SymbolsEncoder,
};
use spot_sbe::exchange_max_num_orders_filter_codec::ExchangeMaxNumOrdersFilterEncoder;
use spot_sbe::min_notional_filter_codec::MinNotionalFilterEncoder;
use spot_sbe::price_filter_codec::PriceFilterEncoder;
use spot_sbe::tp_lus_sell_filter_codec::TPlusSellFilterEncoder;
use spot_sbe::web_socket_response_codec::WebSocketResponseEncoder;
use spot_sbe::websocket::WebSocketResult;
use spot_sbe::{
    AllowedSelfTradePreventionModes, BoolEnum, Encoder, MessageHeaderDecoder, OrderTypes,
    RateLimitInterval, RateLimitType, ReadBuf, SelfTradePreventionMode, SymbolStatus, WriteBuf,
    Writer,
};

fn error_payload(code: i16, server_time: i64, retry_after: i64, msg: &str) -> Vec<u8> {
    let mut buf = vec![0u8; 512];
    let encoder = ErrorResponseEncoder::default().wrap(WriteBuf::new(&mut buf), 8);
    let mut header = encoder.header(0);
    let mut encoder = header.parent().unwrap();
    encoder.code(code);
    encoder.server_time(server_time);
    encoder.retry_after(retry_after);
    encoder.msg(msg);
    encoder.data(&[]);
    let length = encoder.get_limit();
    buf.truncate(length);
    buf
}

fn price_filter() -> Vec<u8> {
    let mut buf = vec![0u8; 8 + 25];
    let encoder = PriceFilterEncoder::default().wrap(WriteBuf::new(&mut buf), 8);
    let mut header = encoder.header(0);
    let mut encoder = header.parent().unwrap();
    encoder.price_exponent(-2);
    encoder.min_price(1);
    encoder.max_price(100_000);
    encoder.tick_size(5);
    buf
}

fn min_notional_filter(apply: BoolEnum) -> Vec<u8> {
    let mut buf = vec![0u8; 8 + 14];
    let encoder = MinNotionalFilterEncoder::default().wrap(WriteBuf::new(&mut buf), 8);
    let mut header = encoder.header(0);
    let mut encoder = header.parent().unwrap();
    encoder.price_exponent(-8);
    encoder.min_notional(1000);
    encoder.apply_to_market(apply);
    encoder.avg_price_mins(5);
    buf
}

fn exchange_filter(max_num_orders: i64) -> Vec<u8> {
    let mut buf = vec![0u8; 8 + 8];
    let encoder = ExchangeMaxNumOrdersFilterEncoder::default().wrap(WriteBuf::new(&mut buf), 8);
    let mut header = encoder.header(0);
    let mut encoder = header.parent().unwrap();
    encoder.max_num_orders(max_num_orders);
    buf
}

fn exchange_info_payload(symbol_filters: &[Vec<u8>], symbol: &[u8]) -> Vec<u8> {
    let mut buf = vec![0u8; 2048];
    let encoder = ExchangeInfoResponseEncoder::default().wrap(WriteBuf::new(&mut buf), 8);
    let mut header = encoder.header(0);
    let encoder = header.parent().unwrap();
    let mut limits = encoder.rate_limits_encoder(
        2,
        spot_sbe::exchange_info_response_codec::RateLimitsEncoder::default(),
    );
    limits.advance().unwrap();
    limits.rate_limit_type(RateLimitType::RequestWeight);
    limits.interval(RateLimitInterval::Minute);
    limits.interval_num(1);
    limits.rate_limit(6000);
    limits.advance().unwrap();
    limits.rate_limit_type(RateLimitType::Orders);
    limits.interval(RateLimitInterval::Day);
    limits.interval_num(1);
    limits.rate_limit(200_000);
    let encoder = limits.parent().unwrap();
    let mut filters = encoder.exchange_filters_encoder(1, ExchangeFiltersEncoder::default());
    filters.advance().unwrap();
    filters.filter(&exchange_filter(1000));
    let encoder = filters.parent().unwrap();
    let mut symbols = encoder.symbols_encoder(1, SymbolsEncoder::default());
    symbols.advance().unwrap();
    symbols.status(SymbolStatus::Trading);
    symbols.base_asset_precision(8);
    symbols.quote_asset_precision(7);
    symbols.base_commission_precision(6);
    symbols.quote_commission_precision(5);
    symbols.order_types(OrderTypes::new(0b11));
    symbols.iceberg_allowed(BoolEnum::True);
    symbols.oco_allowed(BoolEnum::False);
    symbols.quote_order_qty_market_allowed(BoolEnum::True);
    symbols.allow_trailing_stop(BoolEnum::False);
    symbols.cancel_replace_allowed(BoolEnum::True);
    symbols.is_spot_trading_allowed(BoolEnum::True);
    symbols.is_margin_trading_allowed(BoolEnum::False);
    symbols.default_self_trade_prevention_mode(SelfTradePreventionMode::ExpireMaker);
    symbols.allowed_self_trade_prevention_modes(AllowedSelfTradePreventionModes::new(0b1110));
    let mut filters = symbols.filters_encoder(symbol_filters.len() as u32, FiltersEncoder::default());
    for filter in symbol_filters {
        filters.advance().unwrap();
        filters.filter(filter);
    }
    let symbols = filters.parent().unwrap();
    let mut permissions = symbols.permissions_encoder(2, PermissionsEncoder::default());
    permissions.advance().unwrap();
    permissions.permission("SPOT");
    permissions.advance().unwrap();
    permissions.permission("MARGIN");
    let mut symbols = permissions.parent().unwrap();
    symbols.symbol("");
    // the name as raw bytes, so that a test can make it invalid
    let at = symbols.get_limit() - 1;
    symbols.set_limit(at);
    let mut symbols = symbols;
    symbols.get_buf_mut().put_u8_at(at, symbol.len() as u8);
    symbols.get_buf_mut().put_slice_at(at + 1, symbol);
    symbols.set_limit(at + 1 + symbol.len());
    symbols.base_asset("BTC");
    symbols.quote_asset("USDT");
    let encoder = symbols.parent().unwrap();
    let mut sors = encoder.sors_encoder(1, SorsEncoder::default());
    sors.advance().unwrap();
    let mut names = sors.sor_symbols_encoder(2, SorSymbolsEncoder::default());
    names.advance().unwrap();
    names.symbol("BTCUSDT");
    names.advance().unwrap();
    names.symbol("BTCUSDC");
    let mut sors = names.parent().unwrap();
    sors.base_asset("BTC");
    let encoder = sors.parent().unwrap();
    let length = encoder.get_limit();
    buf.truncate(length);
    buf
}

fn envelope_payload(deprecated: BoolEnum, limits: u32, id: &str, inner: &[u8]) -> Vec<u8> {
    let mut buf = vec![0u8; 4096];
    let encoder = WebSocketResponseEncoder::default().wrap(WriteBuf::new(&mut buf), 8);
    let mut header = encoder.header(0);
    let mut encoder = header.parent().unwrap();
    encoder.sbe_schema_id_version_deprecated(deprecated);
    encoder.status(200);
    let mut group = encoder.rate_limits_encoder(
        limits,
        spot_sbe::web_socket_response_codec::RateLimitsEncoder::default(),
    );
    for i in 0..limits {
        group.advance().unwrap();
        group.rate_limit_type(RateLimitType::RequestWeight);
        group.interval(RateLimitInterval::Minute);
        group.interval_num(1);
        group.rate_limit(6000);
        group.current(20 + i as i64);
    }
    let mut encoder = group.parent().unwrap();
    encoder.id(id);
    encoder.result(inner);
    let length = encoder.get_limit();
    buf.truncate(length);
    buf
}

#[test]
fn an_error_response_is_reported_with_its_fields() {
    let payload = error_payload(-1121, i64::MIN, i64::MIN, "Bad symbol.");
    assert_eq!(&payload[..8], &[18, 0, 100, 0, 1, 0, 0, 0]);
    let report = decode_payload(&payload);
    assert_eq!(report.unexpected_version, None);
    assert!(!report.deprecated_schema);
    match report.result {
        Ok(Outcome::Error(error)) => {
            assert_eq!(error.code, -1121);
            assert_eq!(error.server_time, None);
            assert_eq!(error.retry_after, None);
            assert_eq!(error.msg, "Bad symbol.");
        }
        other => panic!("{:?}", other),
    }
}

#[test]
fn an_error_response_is_read_whatever_its_schema() {
    let mut payload = error_payload(-1003, 1_700_000_000_000_000, 1_700_000_000_500_000, "Too many requests.");
    payload[4] = 9;
    payload[5] = 9;
    payload[6] = 3;
    let report = decode_payload(&payload);
    assert_eq!(report.unexpected_version, None);
    match report.result {
        Ok(Outcome::Error(error)) => {
            assert_eq!(error.code, -1003);
            assert_eq!(error.server_time, Some(1_700_000_000_000_000));
            assert_eq!(error.retry_after, Some(1_700_000_000_500_000));
            assert_eq!(error.msg, "Too many requests.");
        }
        other => panic!("{:?}", other),
    }
}

#[test]
fn the_block_length_of_the_header_says_where_the_text_begins() {
    // a header that declares no block at all: the text is looked for at byte 8
    let mut payload = vec![0u8, 0, 100, 0, 1, 0, 0, 0];
    payload.extend_from_slice(&[11, 0]);
    payload.extend_from_slice(b"Bad symbol.");
    payload.extend_from_slice(&[0; 5]);
    assert_eq!(payload.len(), 26);
    match decode_payload(&payload).result {
        Ok(Outcome::Error(error)) => {
            assert_eq!(error.code, 11);
            assert_eq!(error.msg, "Bad symbol.");
        }
        other => panic!("{:?}", other),
    }
    // the same header before a block that begins with the code -1121: the two
    // bytes of the code are taken for a length that the payload does not hold
    let mut payload = error_payload(-1121, 0, 0, "Bad symbol.");
    payload[0] = 0;
    assert!(matches!(decode_payload(&payload).result, Err(DecodeError::Truncated)));
}

#[test]
fn an_envelope_with_exchange_info_is_one_report() {
    let inner = exchange_info_payload(&[price_filter(), min_notional_filter(BoolEnum::True)], b"BTCUSDT");
    let payload = envelope_payload(BoolEnum::False, 0, "abc", &inner);
    let report = decode_payload(&payload);
    assert_eq!(report.unexpected_version, None);
    assert!(!report.deprecated_schema);
    let metadata = match report.result {
        Ok(Outcome::WebSocket(metadata)) => metadata,
        other => panic!("{:?}", other),
    };
    assert_eq!(metadata.status(), 200);
    assert_eq!(metadata.id(), "abc");
    assert!(metadata.rate_limits().is_empty());
    let info = match metadata.result() {
        WebSocketResult::ExchangeInfo(info) => info,
        other => panic!("{:?}", other),
    };
    assert_eq!(info.rate_limits.len(), 2);
    assert_eq!(info.rate_limits[0].rate_limit_type, RateLimitType::RequestWeight);
    assert_eq!(info.rate_limits[0].interval, RateLimitInterval::Minute);
    assert_eq!(info.rate_limits[0].interval_num, 1);
    assert_eq!(info.rate_limits[0].limit, 6000);
    assert_eq!(info.rate_limits[0].count, None);
    assert_eq!(info.rate_limits[1].rate_limit_type, RateLimitType::Orders);
    assert_eq!(info.rate_limits[1].limit, 200_000);
    assert_eq!(info.exchange_filters, vec![ExchangeFilter::MaxNumOrders { max_num_orders: 1000 }]);
    assert_eq!(info.symbols.len(), 1);
    let symbol = &info.symbols[0];
    assert_eq!(symbol.status, SymbolStatus::Trading);
    assert_eq!(symbol.base_asset_precision, 8);
    assert_eq!(symbol.quote_asset_precision, 7);
    assert_eq!(symbol.base_commission_precision, 6);
    assert_eq!(symbol.quote_commission_precision, 5);
    assert_eq!(symbol.order_types, OrderTypes::new(0b11));
    assert!(symbol.iceberg_allowed);
    assert!(!symbol.oco_allowed);
    assert!(symbol.quote_order_qty_market_allowed);
    assert!(!symbol.allow_trailing_stop);
    assert!(symbol.cancel_replace_allowed);
    assert!(symbol.is_spot_trading_allowed);
    assert!(!symbol.is_margin_trading_allowed);
    assert_eq!(symbol.default_self_trade_prevention_mode, SelfTradePreventionMode::ExpireMaker);
    assert_eq!(symbol.allowed_self_trade_prevention_modes, AllowedSelfTradePreventionModes::new(0b1110));
    assert_eq!(
        symbol.filters,
        vec![
            SymbolFilter::Price {
                min_price: Decimal::new(1, -2),
                max_price: Decimal::new(100_000, -2),
                tick_size: Decimal::new(5, -2),
            },
            SymbolFilter::MinNotional {
                min_notional: Decimal::new(1000, -8),
                apply_to_market: true,
                avg_price_mins: 5,
            },
        ]
    );
    assert_eq!(symbol.permissions, vec!["SPOT", "MARGIN"]);
    assert_eq!(symbol.symbol, "BTCUSDT");
    assert_eq!(symbol.base_asset, "BTC");
    assert_eq!(symbol.quote_asset, "USDT");
    assert_eq!(info.sors.len(), 1);
    assert_eq!(info.sors[0].symbols, vec!["BTCUSDT", "BTCUSDC"]);
    assert_eq!(info.sors[0].base_asset, "BTC");
}

#[test]
fn exchange_info_without_envelope() {
    let payload = exchange_info_payload(&[], b"ETHBTC");
    match decode_payload(&payload).result {
        Ok(Outcome::ExchangeInfo(info)) => {
            assert_eq!(info.symbols[0].symbol, "ETHBTC");
            assert!(info.symbols[0].filters.is_empty());
            assert_eq!(info.sors[0].base_asset, "BTC");
        }
        other => panic!("{:?}", other),
    }
}

#[test]
fn an_envelope_with_an_error_is_a_failure_in_the_envelope() {
    let inner = error_payload(-2010, i64::MIN, 5, "Rejected.");
    let payload = envelope_payload(BoolEnum::True, 2, "req-1", &inner);
    let report = decode_payload(&payload);
    assert!(report.deprecated_schema);
    let metadata = match report.result {
        Ok(Outcome::WebSocketError(metadata)) => metadata,
        other => panic!("{:?}", other),
    };
    assert_eq!(metadata.id(), "req-1");
    assert_eq!(metadata.rate_limits().len(), 2);
    assert_eq!(metadata.rate_limits()[0].count, Some(20));
    assert_eq!(metadata.rate_limits()[1].count, Some(21));
    assert_eq!(metadata.rate_limits()[1].limit, 6000);
    match metadata.result() {
        WebSocketResult::Error(error) => {
            assert_eq!(error.code, -2010);
            assert_eq!(error.retry_after, Some(5));
            assert_eq!(error.msg, "Rejected.");
        }
        other => panic!("{:?}", other),
    }
}

#[test]
fn another_schema_is_refused() {
    let mut payload = exchange_info_payload(&[], b"X");
    payload[4] = 2;
    let report = decode_payload(&payload);
    assert_eq!(report.result.err(), Some(DecodeError::SchemaId { got: 2, expected: 1 }));
    assert_eq!(report.unexpected_version, None);
}

#[test]
fn another_version_is_a_warning_only() {
    let mut payload = exchange_info_payload(&[], b"X");
    payload[6] = 7;
    let report = decode_payload(&payload);
    assert_eq!(report.unexpected_version, Some(7));
    assert!(matches!(report.result, Ok(Outcome::ExchangeInfo(_))));
}

#[test]
fn another_message_is_refused() {
    let mut payload = exchange_info_payload(&[], b"X");
    payload[2] = 200;
    assert_eq!(decode_payload(&payload).result.err(), Some(DecodeError::Template { got: 200 }));
}

#[test]
fn a_short_payload_is_truncated() {
    assert_eq!(decode_payload(&[]).result.err(), Some(DecodeError::Truncated));
    assert_eq!(decode_payload(&[0; 7]).result.err(), Some(DecodeError::Truncated));
    let payload = exchange_info_payload(&[price_filter()], b"BTCUSDT");
    for cut in 0..payload.len() {
        let report = decode_payload(&payload[..cut]);
        assert_eq!(report.result.err(), Some(DecodeError::Truncated), "cut at {}", cut);
    }
    assert!(decode_payload(&payload).result.is_ok());
    let payload = error_payload(-1, 0, 0, "x");
    // the trailing data of an error response is not read: only its four length bytes may go
    for cut in 0..payload.len() - 4 {
        assert_eq!(decode_payload(&payload[..cut]).result.err(), Some(DecodeError::Truncated));
    }
    assert!(decode_payload(&payload[..payload.len() - 4]).result.is_ok());
}

#[test]
fn a_cut_envelope_is_truncated() {
    let inner = exchange_info_payload(&[], b"X");
    let payload = envelope_payload(BoolEnum::False, 1, "abc", &inner);
    for cut in 0..payload.len() {
        let report = decode_payload(&payload[..cut]);
        assert_eq!(report.result.err(), Some(DecodeError::Truncated), "cut at {}", cut);
    }
}

#[test]
fn a_text_that_is_not_utf8_is_refused() {
    let payload = exchange_info_payload(&[], &[b'B', 0xff, b'C']);
    assert_eq!(decode_payload(&payload).result.err(), Some(DecodeError::InvalidUtf8));
    let mut payload = error_payload(-1, 0, 0, "abc");
    let n = payload.len();
    payload[n - 5] = 0xc0;
    assert_eq!(decode_payload(&payload).result.err(), Some(DecodeError::InvalidUtf8));
}

#[test]
fn a_null_flag_is_refused() {
    let payload = exchange_info_payload(&[min_notional_filter(BoolEnum::NullVal)], b"X");
    assert_eq!(decode_payload(&payload).result.err(), Some(DecodeError::NullBool));
    let inner = exchange_info_payload(&[], b"X");
    let payload = envelope_payload(BoolEnum::NullVal, 0, "abc", &inner);
    let report = decode_payload(&payload);
    assert_eq!(report.result.err(), Some(DecodeError::NullBool));
    assert!(!report.deprecated_schema);
}

#[test]
fn an_unknown_filter_is_refused() {
    let mut filter = price_filter();
    filter[2] = 99;
    let payload = exchange_info_payload(&[filter], b"X");
    assert_eq!(
        decode_payload(&payload).result.err(),
        Some(DecodeError::SymbolFilterTemplate { got: 99 })
    );
    // a filter of a symbol among the filters of the exchange
    let header = MessageHeaderDecoder::default().wrap(ReadBuf::new(&[25, 0, 1, 0, 1, 0, 0, 0]), 0);
    assert_eq!(
        decode_exchange_filter(header),
        Err(DecodeError::ExchangeFilterTemplate { got: 1 })
    );
}

#[test]
fn filters_are_told_apart_by_their_template() {
    let bytes = exchange_filter(42);
    let header = MessageHeaderDecoder::default().wrap(ReadBuf::new(&bytes), 0);
    assert_eq!(decode_exchange_filter(header), Ok(ExchangeFilter::MaxNumOrders { max_num_orders: 42 }));
    let mut bytes = exchange_filter(43);
    bytes[2] = 16;
    let header = MessageHeaderDecoder::default().wrap(ReadBuf::new(&bytes), 0);
    assert_eq!(
        decode_exchange_filter(header),
        Ok(ExchangeFilter::MaxNumAlgoOrders { max_num_algo_orders: 43 })
    );
    bytes[2] = 17;
    let header = MessageHeaderDecoder::default().wrap(ReadBuf::new(&bytes), 0);
    assert_eq!(
        decode_exchange_filter(header),
        Ok(ExchangeFilter::MaxNumIcebergOrders { max_num_iceberg_orders: 43 })
    );
    let header = MessageHeaderDecoder::default().wrap(ReadBuf::new(&bytes[..15]), 0);
    assert_eq!(decode_exchange_filter(header), Err(DecodeError::Truncated));

    let mut buf = vec![0u8; 16];
    let encoder = TPlusSellFilterEncoder::default().wrap(WriteBuf::new(&mut buf), 8);
    let mut header = encoder.header(0);
    let mut encoder = header.parent().unwrap();
    encoder.end_time(i64::MIN);
    let header = MessageHeaderDecoder::default().wrap(ReadBuf::new(&buf), 0);
    assert_eq!(decode_symbol_filter(header), Ok(SymbolFilter::TPlusSell { end_time: None }));
    buf[8] = 1;
    let header = MessageHeaderDecoder::default().wrap(ReadBuf::new(&buf), 0);
    assert_eq!(
        decode_symbol_filter(header),
        Ok(SymbolFilter::TPlusSell { end_time: Some(i64::MIN + 1) })
    );
    let bytes = price_filter();
    let header = MessageHeaderDecoder::default().wrap(ReadBuf::new(&bytes), 0);
    assert!(matches!(decode_symbol_filter(header), Ok(SymbolFilter::Price { .. })));
}

#[test]
fn every_symbol_filter_has_its_template() {
    let blocks = [25usize, 21, 37, 25, 14, 23, 8, 25, 8, 8, 8, 9, 32, 8];
    for (i, block) in blocks.iter().enumerate() {
        let id = i as u8 + 1;
        let mut bytes = vec![0u8; 8 + block];
        bytes[2] = id;
        let header = MessageHeaderDecoder::default().wrap(ReadBuf::new(&bytes), 0);
        let filter = decode_symbol_filter(header).unwrap();
        let expected = match id {
            1 => matches!(filter, SymbolFilter::Price { .. }),
            2 => matches!(filter, SymbolFilter::PercentPrice { .. }),
            3 => matches!(filter, SymbolFilter::PercentPriceBySide { .. }),
            4 => matches!(filter, SymbolFilter::LotSize { .. }),
            5 => matches!(filter, SymbolFilter::MinNotional { apply_to_market: false, .. }),
            6 => matches!(filter, SymbolFilter::Notional { .. }),
            7 => matches!(filter, SymbolFilter::IcebergParts { filter_limit: 0 }),
            8 => matches!(filter, SymbolFilter::MarketLotSize { .. }),
            9 => matches!(filter, SymbolFilter::MaxNumOrders { .. }),
            10 => matches!(filter, SymbolFilter::MaxNumAlgoOrders { .. }),
            11 => matches!(filter, SymbolFilter::MaxNumIcebergOrders { .. }),
            12 => matches!(filter, SymbolFilter::MaxPosition { .. }),
            13 => matches!(filter, SymbolFilter::TrailingDelta { .. }),
            _ => matches!(filter, SymbolFilter::TPlusSell { end_time: Some(0) }),
        };
        assert!(expected, "template {}", id);
        let header = MessageHeaderDecoder::default().wrap(ReadBuf::new(&bytes[..7 + block]), 0);
        assert_eq!(decode_symbol_filter(header), Err(DecodeError::Truncated));
    }
    let mut bytes = vec![0u8; 40];
    bytes[2] = 15;
    let header = MessageHeaderDecoder::default().wrap(ReadBuf::new(&bytes), 0);
    assert_eq!(decode_symbol_filter(header), Err(DecodeError::SymbolFilterTemplate { got: 15 }));
}

#[test]
fn flags_are_true_or_false() {
    assert_eq!(into_bool(BoolEnum::True), Ok(true));
    assert_eq!(into_bool(BoolEnum::False), Ok(false));
    assert_eq!(into_bool(BoolEnum::NullVal), Err(DecodeError::NullBool));
}

#[test]
fn texts_are_utf8() {
    assert_eq!(decode_text(b"Bad symbol."), Ok("Bad symbol.".to_string()));
    assert_eq!(decode_text("zażółć".as_bytes()), Ok("zażółć".to_string()));
    assert_eq!(decode_text(b""), Ok(String::new()));
    assert_eq!(decode_text(&[0x80]), Err(DecodeError::InvalidUtf8));
    assert_eq!(decode_text(&[b'a', 0xe2, 0x82]), Err(DecodeError::InvalidUtf8));
}

#[test]
fn decode_error_reads_behind_the_header() {
    let payload = error_payload(7, 8, i64::MIN, "m");
    let header = MessageHeaderDecoder::default().wrap(ReadBuf::new(&payload), 0);
    let error = decode_error(header).unwrap();
    assert_eq!(error.code, 7);
    assert_eq!(error.server_time, Some(8));
    assert_eq!(error.retry_after, None);
    assert_eq!(error.msg, "m");
}

#[test]
fn an_envelope_tells_where_its_message_begins() {
    let inner = [1u8, 2, 3];
    let payload = envelope_payload(BoolEnum::True, 1, "abc", &inner);
    let header = MessageHeaderDecoder::default().wrap(ReadBuf::new(&payload), 0);
    let envelope = decode_websocket_metadata(header);
    assert!(envelope.deprecated);
    let (metadata, offset) = envelope.content.unwrap();
    assert_eq!(offset, payload.len() - 3);
    assert_eq!(&payload[offset..], &inner);
    assert_eq!(metadata.status(), 200);
    assert_eq!(metadata.id(), "abc");
    assert!(matches!(metadata.result(), WebSocketResult::Unset));
    // 8 header, 3 block, 6 group size, 19 one rate limit, 1 + 3 id, 4 length of the result
    assert_eq!(offset, 8 + 3 + 6 + 19 + 4 + 4);
}

#[test]
fn a_message_is_decoded_behind_its_header_wherever_that_is() {
    let message = error_payload(-1121, 5, i64::MIN, "Bad symbol.");
    let mut bytes = vec![0x55u8; 9];
    bytes.extend_from_slice(&message);
    let header = MessageHeaderDecoder::default().wrap(ReadBuf::new(&bytes), 9);
    let error = decode_error(header).unwrap();
    assert_eq!(error.code, -1121);
    assert_eq!(error.server_time, Some(5));
    assert_eq!(error.retry_after, None);
    assert_eq!(error.msg, "Bad symbol.");
    let header = MessageHeaderDecoder::default().wrap(ReadBuf::new(&bytes[..bytes.len() - 5]), 9);
    assert!(matches!(decode_error(header), Err(DecodeError::Truncated)));

    let filter = min_notional_filter(BoolEnum::True);
    let mut bytes = vec![0u8; 3];
    bytes.extend_from_slice(&filter);
    let header = MessageHeaderDecoder::default().wrap(ReadBuf::new(&bytes), 3);
    assert_eq!(
        decode_symbol_filter(header),
        Ok(SymbolFilter::MinNotional {
            min_notional: Decimal::new(1000, -8),
            apply_to_market: true,
            avg_price_mins: 5,
        })
    );
    let filter = exchange_filter(77);
    let mut bytes = vec![0u8; 5];
    bytes.extend_from_slice(&filter);
    let header = MessageHeaderDecoder::default().wrap(ReadBuf::new(&bytes), 5);
    assert_eq!(
        decode_exchange_filter(header),
        Ok(ExchangeFilter::MaxNumOrders { max_num_orders: 77 })
    );
    let header = MessageHeaderDecoder::default().wrap(ReadBuf::new(&bytes[..20]), 5);
    assert_eq!(decode_exchange_filter(header), Err(DecodeError::Truncated));

    let inner = [1u8, 2, 3];
    let envelope = envelope_payload(BoolEnum::True, 1, "abc", &inner);
    let mut bytes = vec![0u8; 4];
    bytes.extend_from_slice(&envelope);
    let header = MessageHeaderDecoder::default().wrap(ReadBuf::new(&bytes), 4);
    let opened = decode_websocket_metadata(header);
    assert!(opened.deprecated);
    let (metadata, offset) = opened.content.unwrap();
    assert_eq!(metadata.status(), 200);
    assert_eq!(metadata.id(), "abc");
    assert_eq!(&bytes[offset..], &inner);
}
