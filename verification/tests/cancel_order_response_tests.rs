use spot_sbe::cancel_order_response_codec::{
    CancelOrderResponseDecoder, CancelOrderResponseEncoder, SBE_BLOCK_LENGTH, SBE_SCHEMA_ID,
    SBE_SCHEMA_VERSION, SBE_TEMPLATE_ID,
};
use spot_sbe::{
    BoolEnum, Decoder, Encoder, Floor, MessageHeaderDecoder, OrderCapacity, OrderSide,
    OrderStatus, OrderType, ReadBuf, SelfTradePreventionMode, TimeInForce, WriteBuf,
};

#[test]
#[allow(unused_mut)]
fn cancel_order_response_round_trip() {
    let mut buf = vec![0u8; 4096];
    let encoder = CancelOrderResponseEncoder::default().wrap(WriteBuf::new(&mut buf), 8);
    let mut header = encoder.header(0);
    let mut encoder = header.parent().unwrap();
    assert_eq!(encoder.encoded_length(), SBE_BLOCK_LENGTH as usize);
    encoder.price_exponent(-2);
    encoder.qty_exponent(-3);
    encoder.order_id(-1000000000023757);
    encoder.order_list_id(-1000000000031676);
    encoder.transact_time(-1000000000039595);
    encoder.price(-1000000000047514);
    encoder.orig_qty(-1000000000055433);
    encoder.executed_qty(-1000000000063352);
    encoder.cummulative_quote_qty(-1000000000071271);
    encoder.status(OrderStatus::PartiallyFilled);
    encoder.time_in_force(TimeInForce::Fok);
    encoder.order_type(OrderType::TakeProfitLimit);
    encoder.side(OrderSide::Sell);
    encoder.stop_price(-1000000000110866);
    encoder.trailing_delta(-1000000000118785);
    encoder.trailing_time(-1000000000126704);
    encoder.iceberg_qty(-1000000000134623);
    encoder.strategy_id(-1000000000142542);
    encoder.strategy_type(-100019);
    encoder.order_capacity(OrderCapacity::Principal);
    encoder.working_floor(Floor::Exchange);
    encoder.self_trade_prevention_mode(SelfTradePreventionMode::ExpireMaker);
    encoder.prevented_quantity(-1000000000182137);
    encoder.used_sor(BoolEnum::False);
    encoder.symbol("text-25");
    encoder.orig_client_order_id("text-26");
    encoder.client_order_id("text-27");
    let length = encoder.get_limit();
    assert_eq!(encoder.encoded_length(), length - 8);
    let header = MessageHeaderDecoder::default().wrap(ReadBuf::new(&buf), 0);
    assert_eq!(header.block_length(), SBE_BLOCK_LENGTH);
    assert_eq!(header.template_id(), SBE_TEMPLATE_ID);
    assert_eq!(header.schema_id(), SBE_SCHEMA_ID);
    assert_eq!(header.version(), SBE_SCHEMA_VERSION);
    let mut decoder = CancelOrderResponseDecoder::default().header(header);
    assert_eq!(decoder.acting_block_length, SBE_BLOCK_LENGTH);
    assert_eq!(decoder.acting_version, SBE_SCHEMA_VERSION);
    assert_eq!(decoder.price_exponent(), -2);
    assert_eq!(decoder.qty_exponent(), -3);
    assert_eq!(decoder.order_id(), -1000000000023757);
    assert_eq!(decoder.order_list_id(), Some(-1000000000031676));
    assert_eq!(decoder.transact_time(), -1000000000039595);
    assert_eq!(decoder.price(), -1000000000047514);
    assert_eq!(decoder.orig_qty(), -1000000000055433);
    assert_eq!(decoder.executed_qty(), -1000000000063352);
    assert_eq!(decoder.cummulative_quote_qty(), -1000000000071271);
    assert_eq!(decoder.status(), OrderStatus::PartiallyFilled);
    assert_eq!(decoder.time_in_force(), TimeInForce::Fok);
    assert_eq!(decoder.order_type(), OrderType::TakeProfitLimit);
    assert_eq!(decoder.side(), OrderSide::Sell);
    assert_eq!(decoder.stop_price(), Some(-1000000000110866));
    assert_eq!(decoder.trailing_delta(), Some(-1000000000118785));
    assert_eq!(decoder.trailing_time(), Some(-1000000000126704));
    assert_eq!(decoder.iceberg_qty(), Some(-1000000000134623));
    assert_eq!(decoder.strategy_id(), Some(-1000000000142542));
    assert_eq!(decoder.strategy_type(), Some(-100019));
    assert_eq!(decoder.order_capacity(), OrderCapacity::Principal);
    assert_eq!(decoder.working_floor(), Floor::Exchange);
    assert_eq!(decoder.self_trade_prevention_mode(), SelfTradePreventionMode::ExpireMaker);
    assert_eq!(decoder.prevented_quantity(), Some(-1000000000182137));
    assert_eq!(decoder.used_sor(), BoolEnum::False);
    let c = decoder.symbol_decoder();
    assert_eq!(decoder.symbol_slice(c), b"text-25");
    let c = decoder.orig_client_order_id_decoder();
    assert_eq!(decoder.orig_client_order_id_slice(c), b"text-26");
    let c = decoder.client_order_id_decoder();
    assert_eq!(decoder.client_order_id_slice(c), b"text-27");
    assert_eq!(decoder.get_limit(), length);
    assert_eq!(decoder.encoded_length(), length - 8);
}

#[test]
fn cancel_order_response_null_values_are_absent() {
    let mut buf = vec![0u8; 4096];
    let mut encoder = CancelOrderResponseEncoder::default().wrap(WriteBuf::new(&mut buf), 8);
    encoder.order_list_id(i64::MIN);
    encoder.stop_price(i64::MIN);
    encoder.trailing_delta(i64::MIN);
    encoder.trailing_time(i64::MIN);
    encoder.iceberg_qty(i64::MIN);
    encoder.strategy_id(i64::MIN);
    encoder.strategy_type(i32::MIN);
    encoder.prevented_quantity(i64::MIN);
    let decoder =
        CancelOrderResponseDecoder::default().wrap(ReadBuf::new(&buf), 8, SBE_BLOCK_LENGTH, 0);
    assert_eq!(decoder.order_list_id(), None);
    assert_eq!(decoder.stop_price(), None);
    assert_eq!(decoder.trailing_delta(), None);
    assert_eq!(decoder.trailing_time(), None);
    assert_eq!(decoder.iceberg_qty(), None);
    assert_eq!(decoder.strategy_id(), None);
    assert_eq!(decoder.strategy_type(), None);
    assert_eq!(decoder.prevented_quantity(), None);
    let mut encoder = CancelOrderResponseEncoder::default().wrap(WriteBuf::new(&mut buf), 8);
    encoder.order_list_id(i64::MIN + 1);
    encoder.stop_price(i64::MIN + 1);
    encoder.trailing_delta(i64::MIN + 1);
    encoder.trailing_time(i64::MIN + 1);
    encoder.iceberg_qty(i64::MIN + 1);
    encoder.strategy_id(i64::MIN + 1);
    encoder.strategy_type(i32::MIN + 1);
    encoder.prevented_quantity(i64::MIN + 1);
    let decoder =
        CancelOrderResponseDecoder::default().wrap(ReadBuf::new(&buf), 8, SBE_BLOCK_LENGTH, 0);
    assert_eq!(decoder.order_list_id(), Some(i64::MIN + 1));
    assert_eq!(decoder.stop_price(), Some(i64::MIN + 1));
    assert_eq!(decoder.trailing_delta(), Some(i64::MIN + 1));
    assert_eq!(decoder.trailing_time(), Some(i64::MIN + 1));
    assert_eq!(decoder.iceberg_qty(), Some(i64::MIN + 1));
    assert_eq!(decoder.strategy_id(), Some(i64::MIN + 1));
    assert_eq!(decoder.strategy_type(), Some(i32::MIN + 1));
    assert_eq!(decoder.prevented_quantity(), Some(i64::MIN + 1));
}
