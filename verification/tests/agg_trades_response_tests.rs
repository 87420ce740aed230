use spot_sbe::agg_trades_response_codec::{
    AggTradesEncoder, AggTradesResponseDecoder, AggTradesResponseEncoder, SBE_BLOCK_LENGTH,
    SBE_SCHEMA_ID, SBE_SCHEMA_VERSION, SBE_TEMPLATE_ID,
};
use spot_sbe::{BoolEnum, Decoder, Encoder, MessageHeaderDecoder, ReadBuf, WriteBuf};

#[test]
#[allow(unused_mut)]
fn agg_trades_response_round_trip() {
    let mut buf = vec![0u8; 4096];
    let encoder = AggTradesResponseEncoder::default().wrap(WriteBuf::new(&mut buf), 8);
    let mut header = encoder.header(0);
    let mut encoder = header.parent().unwrap();
    assert_eq!(encoder.encoded_length(), SBE_BLOCK_LENGTH as usize);
    encoder.price_exponent(-2);
    encoder.qty_exponent(-3);
    let mut g1 = encoder.agg_trades_encoder(2, AggTradesEncoder::default());
    assert_eq!(g1.advance(), Ok(Some(0)));
    g1.agg_trade_id(-1000000000023757);
    g1.price(-1000000000031676);
    g1.qty(-1000000000039595);
    g1.first_trade_id(-1000000000047514);
    g1.last_trade_id(-1000000000055433);
    g1.time(-1000000000063352);
    g1.is_buyer_maker(BoolEnum::True);
    g1.is_best_match(BoolEnum::False);
    assert_eq!(g1.advance(), Ok(Some(1)));
    g1.agg_trade_id(-1000000000087109);
    g1.price(-1000000000095028);
    g1.qty(-1000000000102947);
    g1.first_trade_id(-1000000000110866);
    g1.last_trade_id(-1000000000118785);
    g1.time(-1000000000126704);
    g1.is_buyer_maker(BoolEnum::True);
    g1.is_best_match(BoolEnum::False);
    assert_eq!(g1.advance(), Ok(None));
    let mut encoder = g1.parent().unwrap();
    let length = encoder.get_limit();
    assert_eq!(encoder.encoded_length(), length - 8);
    let header = MessageHeaderDecoder::default().wrap(ReadBuf::new(&buf), 0);
    assert_eq!(header.block_length(), SBE_BLOCK_LENGTH);
    assert_eq!(header.template_id(), SBE_TEMPLATE_ID);
    assert_eq!(header.schema_id(), SBE_SCHEMA_ID);
    assert_eq!(header.version(), SBE_SCHEMA_VERSION);
    let mut decoder = AggTradesResponseDecoder::default().header(header);
    assert_eq!(decoder.acting_block_length, SBE_BLOCK_LENGTH);
    assert_eq!(decoder.acting_version, SBE_SCHEMA_VERSION);
    assert_eq!(decoder.price_exponent(), -2);
    assert_eq!(decoder.qty_exponent(), -3);
    let mut g1 = decoder.agg_trades_decoder();
    assert_eq!(g1.count(), 2);
    assert_eq!(g1.advance(), Ok(Some(0)));
    assert_eq!(g1.agg_trade_id(), -1000000000023757);
    assert_eq!(g1.price(), -1000000000031676);
    assert_eq!(g1.qty(), -1000000000039595);
    assert_eq!(g1.first_trade_id(), -1000000000047514);
    assert_eq!(g1.last_trade_id(), -1000000000055433);
    assert_eq!(g1.time(), -1000000000063352);
    assert_eq!(g1.is_buyer_maker(), BoolEnum::True);
    assert_eq!(g1.is_best_match(), BoolEnum::False);
    assert_eq!(g1.advance(), Ok(Some(1)));
    assert_eq!(g1.agg_trade_id(), -1000000000087109);
    assert_eq!(g1.price(), -1000000000095028);
    assert_eq!(g1.qty(), -1000000000102947);
    assert_eq!(g1.first_trade_id(), -1000000000110866);
    assert_eq!(g1.last_trade_id(), -1000000000118785);
    assert_eq!(g1.time(), -1000000000126704);
    assert_eq!(g1.is_buyer_maker(), BoolEnum::True);
    assert_eq!(g1.is_best_match(), BoolEnum::False);
    assert_eq!(g1.advance(), Ok(None));
    let mut decoder = g1.parent().unwrap();
    assert_eq!(decoder.get_limit(), length);
    assert_eq!(decoder.encoded_length(), length - 8);
}
