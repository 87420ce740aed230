use spot_sbe::exchange_info_response_codec::{
    ExchangeFiltersEncoder, ExchangeInfoResponseDecoder, ExchangeInfoResponseEncoder,
    FiltersEncoder, PermissionsEncoder, RateLimitsEncoder, SBE_BLOCK_LENGTH, SBE_SCHEMA_ID,
    SBE_SCHEMA_VERSION, SBE_TEMPLATE_ID, SorSymbolsEncoder, SorsEncoder, SymbolsEncoder,
};
use spot_sbe::{
    AllowedSelfTradePreventionModes, BoolEnum, Decoder, Encoder, MessageHeaderDecoder, OrderTypes,
    RateLimitInterval, RateLimitType, ReadBuf, SelfTradePreventionMode, SymbolStatus, WriteBuf,
};

#[test]
#[allow(unused_mut)]
fn exchange_info_response_round_trip() {
    let mut buf = vec![0u8; 4096];
    let encoder = ExchangeInfoResponseEncoder::default().wrap(WriteBuf::new(&mut buf), 8);
    let mut header = encoder.header(0);
    let mut encoder = header.parent().unwrap();
    assert_eq!(encoder.encoded_length(), SBE_BLOCK_LENGTH as usize);
    let mut g1 = encoder.rate_limits_encoder(2, RateLimitsEncoder::default());
    assert_eq!(g1.advance(), Ok(Some(0)));
    g1.rate_limit_type(RateLimitType::RequestWeight);
    g1.interval(RateLimitInterval::Hour);
    g1.interval_num(4);
    g1.rate_limit(-1000000000031676);
    assert_eq!(g1.advance(), Ok(Some(1)));
    g1.rate_limit_type(RateLimitType::Orders);
    g1.interval(RateLimitInterval::Hour);
    g1.interval_num(8);
    g1.rate_limit(-1000000000063352);
    assert_eq!(g1.advance(), Ok(None));
    let mut encoder = g1.parent().unwrap();
    let mut g1 = encoder.exchange_filters_encoder(2, ExchangeFiltersEncoder::default());
    assert_eq!(g1.advance(), Ok(Some(0)));
    g1.filter(&[9, 0, 255]);
    assert_eq!(g1.advance(), Ok(Some(1)));
    g1.filter(&[10, 0, 255]);
    assert_eq!(g1.advance(), Ok(None));
    let mut encoder = g1.parent().unwrap();
    let mut g1 = encoder.symbols_encoder(2, SymbolsEncoder::default());
    assert_eq!(g1.advance(), Ok(Some(0)));
    g1.status(SymbolStatus::Halt);
    g1.base_asset_precision(13);
    g1.quote_asset_precision(14);
    g1.base_commission_precision(15);
    g1.quote_commission_precision(16);
    g1.order_types(OrderTypes::new(592));
    g1.iceberg_allowed(BoolEnum::True);
    g1.oco_allowed(BoolEnum::False);
    g1.quote_order_qty_market_allowed(BoolEnum::True);
    g1.allow_trailing_stop(BoolEnum::False);
    g1.cancel_replace_allowed(BoolEnum::True);
    g1.is_spot_trading_allowed(BoolEnum::False);
    g1.is_margin_trading_allowed(BoolEnum::True);
    g1.default_self_trade_prevention_mode(SelfTradePreventionMode::NoneVal);
    g1.allowed_self_trade_prevention_modes(AllowedSelfTradePreventionModes::new(175));
    let mut g2 = g1.filters_encoder(2, FiltersEncoder::default());
    assert_eq!(g2.advance(), Ok(Some(0)));
    g2.filter(&[26, 0, 255]);
    assert_eq!(g2.advance(), Ok(Some(1)));
    g2.filter(&[27, 0, 255]);
    assert_eq!(g2.advance(), Ok(None));
    let mut g1 = g2.parent().unwrap();
    let mut g2 = g1.permissions_encoder(2, PermissionsEncoder::default());
    assert_eq!(g2.advance(), Ok(Some(0)));
    g2.permission("text-28");
    assert_eq!(g2.advance(), Ok(Some(1)));
    g2.permission("text-29");
    assert_eq!(g2.advance(), Ok(None));
    let mut g1 = g2.parent().unwrap();
    g1.symbol("text-30");
    g1.base_asset("text-31");
    g1.quote_asset("text-32");
    assert_eq!(g1.advance(), Ok(Some(1)));
    g1.status(SymbolStatus::AuctionMatch);
    g1.base_asset_precision(35);
    g1.quote_asset_precision(36);
    g1.base_commission_precision(37);
    g1.quote_commission_precision(38);
    g1.order_types(OrderTypes::new(1406));
    g1.iceberg_allowed(BoolEnum::True);
    g1.oco_allowed(BoolEnum::False);
    g1.quote_order_qty_market_allowed(BoolEnum::True);
    g1.allow_trailing_stop(BoolEnum::False);
    g1.cancel_replace_allowed(BoolEnum::True);
    g1.is_spot_trading_allowed(BoolEnum::False);
    g1.is_margin_trading_allowed(BoolEnum::True);
    g1.default_self_trade_prevention_mode(SelfTradePreventionMode::ExpireMaker);
    g1.allowed_self_trade_prevention_modes(AllowedSelfTradePreventionModes::new(239));
    let mut g2 = g1.filters_encoder(2, FiltersEncoder::default());
    assert_eq!(g2.advance(), Ok(Some(0)));
    g2.filter(&[48, 0, 255]);
    assert_eq!(g2.advance(), Ok(Some(1)));
    g2.filter(&[49, 0, 255]);
    assert_eq!(g2.advance(), Ok(None));
    let mut g1 = g2.parent().unwrap();
    let mut g2 = g1.permissions_encoder(2, PermissionsEncoder::default());
    assert_eq!(g2.advance(), Ok(Some(0)));
    g2.permission("text-50");
    assert_eq!(g2.advance(), Ok(Some(1)));
    g2.permission("text-51");
    assert_eq!(g2.advance(), Ok(None));
    let mut g1 = g2.parent().unwrap();
    g1.symbol("text-52");
    g1.base_asset("text-53");
    g1.quote_asset("text-54");
    assert_eq!(g1.advance(), Ok(None));
    let mut encoder = g1.parent().unwrap();
    let mut g1 = encoder.sors_encoder(2, SorsEncoder::default());
    assert_eq!(g1.advance(), Ok(Some(0)));
    let mut g2 = g1.sor_symbols_encoder(2, SorSymbolsEncoder::default());
    assert_eq!(g2.advance(), Ok(Some(0)));
    g2.symbol("text-55");
    assert_eq!(g2.advance(), Ok(Some(1)));
    g2.symbol("text-56");
    assert_eq!(g2.advance(), Ok(None));
    let mut g1 = g2.parent().unwrap();
    g1.base_asset("text-57");
    assert_eq!(g1.advance(), Ok(Some(1)));
    let mut g2 = g1.sor_symbols_encoder(2, SorSymbolsEncoder::default());
    assert_eq!(g2.advance(), Ok(Some(0)));
    g2.symbol("text-58");
    assert_eq!(g2.advance(), Ok(Some(1)));
    g2.symbol("text-59");
    assert_eq!(g2.advance(), Ok(None));
    let mut g1 = g2.parent().unwrap();
    g1.base_asset("text-60");
    assert_eq!(g1.advance(), Ok(None));
    let mut encoder = g1.parent().unwrap();
    let length = encoder.get_limit();
    assert_eq!(encoder.encoded_length(), length - 8);
    let header = MessageHeaderDecoder::default().wrap(ReadBuf::new(&buf), 0);
    assert_eq!(header.block_length(), SBE_BLOCK_LENGTH);
    assert_eq!(header.template_id(), SBE_TEMPLATE_ID);
    assert_eq!(header.schema_id(), SBE_SCHEMA_ID);
    assert_eq!(header.version(), SBE_SCHEMA_VERSION);
    let mut decoder = ExchangeInfoResponseDecoder::default().header(header);
    assert_eq!(decoder.acting_block_length, SBE_BLOCK_LENGTH);
    assert_eq!(decoder.acting_version, SBE_SCHEMA_VERSION);
    let mut g1 = decoder.rate_limits_decoder();
    assert_eq!(g1.count(), 2);
    assert_eq!(g1.advance(), Ok(Some(0)));
    assert_eq!(g1.rate_limit_type(), RateLimitType::RequestWeight);
    assert_eq!(g1.interval(), RateLimitInterval::Hour);
    assert_eq!(g1.interval_num(), 4);
    assert_eq!(g1.rate_limit(), -1000000000031676);
    assert_eq!(g1.advance(), Ok(Some(1)));
    assert_eq!(g1.rate_limit_type(), RateLimitType::Orders);
    assert_eq!(g1.interval(), RateLimitInterval::Hour);
    assert_eq!(g1.interval_num(), 8);
    assert_eq!(g1.rate_limit(), -1000000000063352);
    assert_eq!(g1.advance(), Ok(None));
    let mut decoder = g1.parent().unwrap();
    let mut g1 = decoder.exchange_filters_decoder();
    assert_eq!(g1.count(), 2);
    assert_eq!(g1.advance(), Ok(Some(0)));
    let c = g1.filter_decoder();
    assert_eq!(g1.filter_slice(c), &[9, 0, 255]);
    assert_eq!(g1.advance(), Ok(Some(1)));
    let c = g1.filter_decoder();
    assert_eq!(g1.filter_slice(c), &[10, 0, 255]);
    assert_eq!(g1.advance(), Ok(None));
    let mut decoder = g1.parent().unwrap();
    let mut g1 = decoder.symbols_decoder();
    assert_eq!(g1.count(), 2);
    assert_eq!(g1.advance(), Ok(Some(0)));
    assert_eq!(g1.status(), SymbolStatus::Halt);
    assert_eq!(g1.base_asset_precision(), 13);
    assert_eq!(g1.quote_asset_precision(), 14);
    assert_eq!(g1.base_commission_precision(), 15);
    assert_eq!(g1.quote_commission_precision(), 16);
    assert_eq!(g1.order_types(), OrderTypes::new(592));
    assert_eq!(g1.iceberg_allowed(), BoolEnum::True);
    assert_eq!(g1.oco_allowed(), BoolEnum::False);
    assert_eq!(g1.quote_order_qty_market_allowed(), BoolEnum::True);
    assert_eq!(g1.allow_trailing_stop(), BoolEnum::False);
    assert_eq!(g1.cancel_replace_allowed(), BoolEnum::True);
    assert_eq!(g1.is_spot_trading_allowed(), BoolEnum::False);
    assert_eq!(g1.is_margin_trading_allowed(), BoolEnum::True);
    assert_eq!(g1.default_self_trade_prevention_mode(), SelfTradePreventionMode::NoneVal);
    assert_eq!(g1.allowed_self_trade_prevention_modes(), AllowedSelfTradePreventionModes::new(175));
    let mut g2 = g1.filters_decoder();
    assert_eq!(g2.count(), 2);
    assert_eq!(g2.advance(), Ok(Some(0)));
    let c = g2.filter_decoder();
    assert_eq!(g2.filter_slice(c), &[26, 0, 255]);
    assert_eq!(g2.advance(), Ok(Some(1)));
    let c = g2.filter_decoder();
    assert_eq!(g2.filter_slice(c), &[27, 0, 255]);
    assert_eq!(g2.advance(), Ok(None));
    let mut g1 = g2.parent().unwrap();
    let mut g2 = g1.permissions_decoder();
    assert_eq!(g2.count(), 2);
    assert_eq!(g2.advance(), Ok(Some(0)));
    let c = g2.permission_decoder();
    assert_eq!(g2.permission_slice(c), b"text-28");
    assert_eq!(g2.advance(), Ok(Some(1)));
    let c = g2.permission_decoder();
    assert_eq!(g2.permission_slice(c), b"text-29");
    assert_eq!(g2.advance(), Ok(None));
    let mut g1 = g2.parent().unwrap();
    let c = g1.symbol_decoder();
    assert_eq!(g1.symbol_slice(c), b"text-30");
    let c = g1.base_asset_decoder();
    assert_eq!(g1.base_asset_slice(c), b"text-31");
    let c = g1.quote_asset_decoder();
    assert_eq!(g1.quote_asset_slice(c), b"text-32");
    assert_eq!(g1.advance(), Ok(Some(1)));
    assert_eq!(g1.status(), SymbolStatus::AuctionMatch);
    assert_eq!(g1.base_asset_precision(), 35);
    assert_eq!(g1.quote_asset_precision(), 36);
    assert_eq!(g1.base_commission_precision(), 37);
    assert_eq!(g1.quote_commission_precision(), 38);
    assert_eq!(g1.order_types(), OrderTypes::new(1406));
    assert_eq!(g1.iceberg_allowed(), BoolEnum::True);
    assert_eq!(g1.oco_allowed(), BoolEnum::False);
    assert_eq!(g1.quote_order_qty_market_allowed(), BoolEnum::True);
    assert_eq!(g1.allow_trailing_stop(), BoolEnum::False);
    assert_eq!(g1.cancel_replace_allowed(), BoolEnum::True);
    assert_eq!(g1.is_spot_trading_allowed(), BoolEnum::False);
    assert_eq!(g1.is_margin_trading_allowed(), BoolEnum::True);
    assert_eq!(g1.default_self_trade_prevention_mode(), SelfTradePreventionMode::ExpireMaker);
    assert_eq!(g1.allowed_self_trade_prevention_modes(), AllowedSelfTradePreventionModes::new(239));
    let mut g2 = g1.filters_decoder();
    assert_eq!(g2.count(), 2);
    assert_eq!(g2.advance(), Ok(Some(0)));
    let c = g2.filter_decoder();
    assert_eq!(g2.filter_slice(c), &[48, 0, 255]);
    assert_eq!(g2.advance(), Ok(Some(1)));
    let c = g2.filter_decoder();
    assert_eq!(g2.filter_slice(c), &[49, 0, 255]);
    assert_eq!(g2.advance(), Ok(None));
    let mut g1 = g2.parent().unwrap();
    let mut g2 = g1.permissions_decoder();
    assert_eq!(g2.count(), 2);
    assert_eq!(g2.advance(), Ok(Some(0)));
    let c = g2.permission_decoder();
    assert_eq!(g2.permission_slice(c), b"text-50");
    assert_eq!(g2.advance(), Ok(Some(1)));
    let c = g2.permission_decoder();
    assert_eq!(g2.permission_slice(c), b"text-51");
    assert_eq!(g2.advance(), Ok(None));
    let mut g1 = g2.parent().unwrap();
    let c = g1.symbol_decoder();
    assert_eq!(g1.symbol_slice(c), b"text-52");
    let c = g1.base_asset_decoder();
    assert_eq!(g1.base_asset_slice(c), b"text-53");
    let c = g1.quote_asset_decoder();
    assert_eq!(g1.quote_asset_slice(c), b"text-54");
    assert_eq!(g1.advance(), Ok(None));
    let mut decoder = g1.parent().unwrap();
    let mut g1 = decoder.sors_decoder();
    assert_eq!(g1.count(), 2);
    assert_eq!(g1.advance(), Ok(Some(0)));
    let mut g2 = g1.sor_symbols_decoder();
    assert_eq!(g2.count(), 2);
    assert_eq!(g2.advance(), Ok(Some(0)));
    let c = g2.symbol_decoder();
    assert_eq!(g2.symbol_slice(c), b"text-55");
    assert_eq!(g2.advance(), Ok(Some(1)));
    let c = g2.symbol_decoder();
    assert_eq!(g2.symbol_slice(c), b"text-56");
    assert_eq!(g2.advance(), Ok(None));
    let mut g1 = g2.parent().unwrap();
    let c = g1.base_asset_decoder();
    assert_eq!(g1.base_asset_slice(c), b"text-57");
    assert_eq!(g1.advance(), Ok(Some(1)));
    let mut g2 = g1.sor_symbols_decoder();
    assert_eq!(g2.count(), 2);
    assert_eq!(g2.advance(), Ok(Some(0)));
    let c = g2.symbol_decoder();
    assert_eq!(g2.symbol_slice(c), b"text-58");
    assert_eq!(g2.advance(), Ok(Some(1)));
    let c = g2.symbol_decoder();
    assert_eq!(g2.symbol_slice(c), b"text-59");
    assert_eq!(g2.advance(), Ok(None));
    let mut g1 = g2.parent().unwrap();
    let c = g1.base_asset_decoder();
    assert_eq!(g1.base_asset_slice(c), b"text-60");
    assert_eq!(g1.advance(), Ok(None));
    let mut decoder = g1.parent().unwrap();
    assert_eq!(decoder.get_limit(), length);
    assert_eq!(decoder.encoded_length(), length - 8);
}
