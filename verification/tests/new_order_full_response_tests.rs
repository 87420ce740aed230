use spot_sbe::new_order_full_response_codec::{
    FillsEncoder, NewOrderFullResponseDecoder, NewOrderFullResponseEncoder,
    PreventedMatchesEncoder, SBE_BLOCK_LENGTH, SBE_SCHEMA_ID, SBE_SCHEMA_VERSION, SBE_TEMPLATE_ID,
};
use spot_sbe::{
    BoolEnum, Decoder, Encoder, Floor, MatchType, MessageHeaderDecoder, OrderCapacity, OrderSide,
    OrderStatus, OrderType, ReadBuf, SelfTradePreventionMode, TimeInForce, WriteBuf,
};

#[test]
#[allow(unused_mut)]
fn new_order_full_response_round_trip() {
    let mut buf = vec![0u8; 4096];
    let encoder = NewOrderFullResponseEncoder::default().wrap(WriteBuf::new(&mut buf), 8);
    let mut header = encoder.header(0);
    let mut encoder = header.parent().unwrap();
    assert_eq!(encoder.encoded_length(), SBE_BLOCK_LENGTH as usize);
    encoder.price_exponent(-2);
    encoder.qty_exponent(-3);
    encoder.order_id(-1000000000023757);
    encoder.order_list_id(-1000000000031676);
    encoder.transact_time(-1000000000039595);
    encoder.price(-1000000000047514);
    encoder.orig_qty(-1000000000055433);
    encoder.executed_qty(-1000000000063352);
    encoder.cummulative_quote_qty(-1000000000071271);
    encoder.status(OrderStatus::PartiallyFilled);
    encoder.time_in_force(TimeInForce::Fok);
    encoder.order_type(OrderType::TakeProfitLimit);
    encoder.side(OrderSide::Sell);
    encoder.stop_price(-1000000000110866);
    encoder.trailing_delta(-1000000000118785);
    encoder.trailing_time(-1000000000126704);
    encoder.working_time(-1000000000134623);
    encoder.iceberg_qty(-1000000000142542);
    encoder.strategy_id(-1000000000150461);
    encoder.strategy_type(-100020);
    encoder.order_capacity(OrderCapacity::Agency);
    encoder.working_floor(Floor::Broker);
    encoder.self_trade_prevention_mode(SelfTradePreventionMode::ExpireBoth);
    encoder.trade_group_id(-1000000000190056);
    encoder.prevented_quantity(-1000000000197975);
    encoder.used_sor(BoolEnum::False);
    let mut g1 = encoder.fills_encoder(2, FillsEncoder::default());
    assert_eq!(g1.advance(), Ok(Some(0)));
    g1.commission_exponent(-28);
    g1.match_type(MatchType::AutoMatch);
    g1.price(-1000000000229651);
    g1.qty(-1000000000237570);
    g1.commission(-1000000000245489);
    g1.trade_id(-1000000000253408);
    g1.alloc_id(-1000000000261327);
    g1.commission_asset("text-34");
    assert_eq!(g1.advance(), Ok(Some(1)));
    g1.commission_exponent(-36);
    g1.match_type(MatchType::AutoMatch);
    g1.price(-1000000000293003);
    g1.qty(-1000000000300922);
    g1.commission(-1000000000308841);
    g1.trade_id(-1000000000316760);
    g1.alloc_id(-1000000000324679);
    g1.commission_asset("text-42");
    assert_eq!(g1.advance(), Ok(None));
    let mut encoder = g1.parent().unwrap();
    let mut g1 = encoder.prevented_matches_encoder(2, PreventedMatchesEncoder::default());
    assert_eq!(g1.advance(), Ok(Some(0)));
    g1.prevented_match_id(-1000000000340517);
    g1.maker_order_id(-1000000000348436);
    g1.price(-1000000000356355);
    g1.taker_prevented_quantity(-1000000000364274);
    g1.maker_prevented_quantity(-1000000000372193);
    g1.maker_symbol("text-48");
    assert_eq!(g1.advance(), Ok(Some(1)));
    g1.prevented_match_id(-1000000000388031);
    g1.maker_order_id(-1000000000395950);
    g1.price(-1000000000403869);
    g1.taker_prevented_quantity(-1000000000411788);
    g1.maker_prevented_quantity(-1000000000419707);
    g1.maker_symbol("text-54");
    assert_eq!(g1.advance(), Ok(None));
    let mut encoder = g1.parent().unwrap();
    encoder.symbol("text-55");
    encoder.client_order_id("text-56");
    let length = encoder.get_limit();
    assert_eq!(encoder.encoded_length(), length - 8);
    let header = MessageHeaderDecoder::default().wrap(ReadBuf::new(&buf), 0);
    assert_eq!(header.block_length(), SBE_BLOCK_LENGTH);
    assert_eq!(header.template_id(), SBE_TEMPLATE_ID);
    assert_eq!(header.schema_id(), SBE_SCHEMA_ID);
    assert_eq!(header.version(), SBE_SCHEMA_VERSION);
    let mut decoder = NewOrderFullResponseDecoder::default().header(header);
    assert_eq!(decoder.acting_block_length, SBE_BLOCK_LENGTH);
    assert_eq!(decoder.acting_version, SBE_SCHEMA_VERSION);
    assert_eq!(decoder.price_exponent(), -2);
    assert_eq!(decoder.qty_exponent(), -3);
    assert_eq!(decoder.order_id(), -1000000000023757);
    assert_eq!(decoder.order_list_id(), Some(-1000000000031676));
    assert_eq!(decoder.transact_time(), -1000000000039595);
    assert_eq!(decoder.price(), -1000000000047514);
    assert_eq!(decoder.orig_qty(), -1000000000055433);
    assert_eq!(decoder.executed_qty(), -1000000000063352);
    assert_eq!(decoder.cummulative_quote_qty(), -1000000000071271);
    assert_eq!(decoder.status(), OrderStatus::PartiallyFilled);
    assert_eq!(decoder.time_in_force(), TimeInForce::Fok);
    assert_eq!(decoder.order_type(), OrderType::TakeProfitLimit);
    assert_eq!(decoder.side(), OrderSide::Sell);
    assert_eq!(decoder.stop_price(), Some(-1000000000110866));
    assert_eq!(decoder.trailing_delta(), Some(-1000000000118785));
    assert_eq!(decoder.trailing_time(), Some(-1000000000126704));
    assert_eq!(decoder.working_time(), Some(-1000000000134623));
    assert_eq!(decoder.iceberg_qty(), Some(-1000000000142542));
    assert_eq!(decoder.strategy_id(), Some(-1000000000150461));
    assert_eq!(decoder.strategy_type(), Some(-100020));
    assert_eq!(decoder.order_capacity(), OrderCapacity::Agency);
    assert_eq!(decoder.working_floor(), Floor::Broker);
    assert_eq!(decoder.self_trade_prevention_mode(), SelfTradePreventionMode::ExpireBoth);
    assert_eq!(decoder.trade_group_id(), Some(-1000000000190056));
    assert_eq!(decoder.prevented_quantity(), Some(-1000000000197975));
    assert_eq!(decoder.used_sor(), BoolEnum::False);
    let mut g1 = decoder.fills_decoder();
    assert_eq!(g1.count(), 2);
    assert_eq!(g1.advance(), Ok(Some(0)));
    assert_eq!(g1.commission_exponent(), -28);
    assert_eq!(g1.match_type(), MatchType::AutoMatch);
    assert_eq!(g1.price(), -1000000000229651);
    assert_eq!(g1.qty(), -1000000000237570);
    assert_eq!(g1.commission(), -1000000000245489);
    assert_eq!(g1.trade_id(), Some(-1000000000253408));
    assert_eq!(g1.alloc_id(), Some(-1000000000261327));
    let c = g1.commission_asset_decoder();
    assert_eq!(g1.commission_asset_slice(c), b"text-34");
    assert_eq!(g1.advance(), Ok(Some(1)));
    assert_eq!(g1.commission_exponent(), -36);
    assert_eq!(g1.match_type(), MatchType::AutoMatch);
    assert_eq!(g1.price(), -1000000000293003);
    assert_eq!(g1.qty(), -1000000000300922);
    assert_eq!(g1.commission(), -1000000000308841);
    assert_eq!(g1.trade_id(), Some(-1000000000316760));
    assert_eq!(g1.alloc_id(), Some(-1000000000324679));
    let c = g1.commission_asset_decoder();
    assert_eq!(g1.commission_asset_slice(c), b"text-42");
    assert_eq!(g1.advance(), Ok(None));
    let mut decoder = g1.parent().unwrap();
    let mut g1 = decoder.prevented_matches_decoder();
    assert_eq!(g1.count(), 2);
    assert_eq!(g1.advance(), Ok(Some(0)));
    assert_eq!(g1.prevented_match_id(), -1000000000340517);
    assert_eq!(g1.maker_order_id(), Some(-1000000000348436));
    assert_eq!(g1.price(), Some(-1000000000356355));
    assert_eq!(g1.taker_prevented_quantity(), Some(-1000000000364274));
    assert_eq!(g1.maker_prevented_quantity(), Some(-1000000000372193));
    let c = g1.maker_symbol_decoder();
    assert_eq!(g1.maker_symbol_slice(c), b"text-48");
    assert_eq!(g1.advance(), Ok(Some(1)));
    assert_eq!(g1.prevented_match_id(), -1000000000388031);
    assert_eq!(g1.maker_order_id(), Some(-1000000000395950));
    assert_eq!(g1.price(), Some(-1000000000403869));
    assert_eq!(g1.taker_prevented_quantity(), Some(-1000000000411788));
    assert_eq!(g1.maker_prevented_quantity(), Some(-1000000000419707));
    let c = g1.maker_symbol_decoder();
    assert_eq!(g1.maker_symbol_slice(c), b"text-54");
    assert_eq!(g1.advance(), Ok(None));
    let mut decoder = g1.parent().unwrap();
    let c = decoder.symbol_decoder();
    assert_eq!(decoder.symbol_slice(c), b"text-55");
    let c = decoder.client_order_id_decoder();
    assert_eq!(decoder.client_order_id_slice(c), b"text-56");
    assert_eq!(decoder.get_limit(), length);
    assert_eq!(decoder.encoded_length(), length - 8);
}

#[test]
fn new_order_full_response_null_values_are_absent() {
    let mut buf = vec![0u8; 4096];
    let mut encoder = NewOrderFullResponseEncoder::default().wrap(WriteBuf::new(&mut buf), 8);
    encoder.order_list_id(i64::MIN);
    encoder.stop_price(i64::MIN);
    encoder.trailing_delta(i64::MIN);
    encoder.trailing_time(i64::MIN);
    encoder.working_time(i64::MIN);
    encoder.iceberg_qty(i64::MIN);
    encoder.strategy_id(i64::MIN);
    encoder.strategy_type(i32::MIN);
    encoder.trade_group_id(i64::MIN);
    encoder.prevented_quantity(i64::MIN);
    let decoder =
        NewOrderFullResponseDecoder::default().wrap(ReadBuf::new(&buf), 8, SBE_BLOCK_LENGTH, 0);
    assert_eq!(decoder.order_list_id(), None);
    assert_eq!(decoder.stop_price(), None);
    assert_eq!(decoder.trailing_delta(), None);
    assert_eq!(decoder.trailing_time(), None);
    assert_eq!(decoder.working_time(), None);
    assert_eq!(decoder.iceberg_qty(), None);
    assert_eq!(decoder.strategy_id(), None);
    assert_eq!(decoder.strategy_type(), None);
    assert_eq!(decoder.trade_group_id(), None);
    assert_eq!(decoder.prevented_quantity(), None);
    let mut encoder = NewOrderFullResponseEncoder::default().wrap(WriteBuf::new(&mut buf), 8);
    encoder.order_list_id(i64::MIN + 1);
    encoder.stop_price(i64::MIN + 1);
    encoder.trailing_delta(i64::MIN + 1);
    encoder.trailing_time(i64::MIN + 1);
    encoder.working_time(i64::MIN + 1);
    encoder.iceberg_qty(i64::MIN + 1);
    encoder.strategy_id(i64::MIN + 1);
    encoder.strategy_type(i32::MIN + 1);
    encoder.trade_group_id(i64::MIN + 1);
    encoder.prevented_quantity(i64::MIN + 1);
    let decoder =
        NewOrderFullResponseDecoder::default().wrap(ReadBuf::new(&buf), 8, SBE_BLOCK_LENGTH, 0);
    assert_eq!(decoder.order_list_id(), Some(i64::MIN + 1));
    assert_eq!(decoder.stop_price(), Some(i64::MIN + 1));
    assert_eq!(decoder.trailing_delta(), Some(i64::MIN + 1));
    assert_eq!(decoder.trailing_time(), Some(i64::MIN + 1));
    assert_eq!(decoder.working_time(), Some(i64::MIN + 1));
    assert_eq!(decoder.iceberg_qty(), Some(i64::MIN + 1));
    assert_eq!(decoder.strategy_id(), Some(i64::MIN + 1));
    assert_eq!(decoder.strategy_type(), Some(i32::MIN + 1));
    assert_eq!(decoder.trade_group_id(), Some(i64::MIN + 1));
    assert_eq!(decoder.prevented_quantity(), Some(i64::MIN + 1));
}
