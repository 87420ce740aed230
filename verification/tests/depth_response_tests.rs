use spot_sbe::depth_response_codec::{
    AsksEncoder, BidsEncoder, DepthResponseDecoder, DepthResponseEncoder, SBE_BLOCK_LENGTH,
    SBE_SCHEMA_ID, SBE_SCHEMA_VERSION, SBE_TEMPLATE_ID,
};
use spot_sbe::{Decoder, Encoder, MessageHeaderDecoder, ReadBuf, WriteBuf};

#[test]
#[allow(unused_mut)]
fn depth_response_round_trip() {
    let mut buf = vec![0u8; 4096];
    let encoder = DepthResponseEncoder::default().wrap(WriteBuf::new(&mut buf), 8);
    let mut header = encoder.header(0);
    let mut encoder = header.parent().unwrap();
    assert_eq!(encoder.encoded_length(), SBE_BLOCK_LENGTH as usize);
    encoder.last_update_id(-1000000000007919);
    encoder.price_exponent(-3);
    encoder.qty_exponent(-4);
    let mut g1 = encoder.bids_encoder(2, BidsEncoder::default());
    assert_eq!(g1.advance(), Ok(Some(0)));
    g1.price(-1000000000031676);
    g1.qty(-1000000000039595);
    assert_eq!(g1.advance(), Ok(Some(1)));
    g1.price(-1000000000047514);
    g1.qty(-1000000000055433);
    assert_eq!(g1.advance(), Ok(None));
    let mut encoder = g1.parent().unwrap();
    let mut g1 = encoder.asks_encoder(2, AsksEncoder::default());
    assert_eq!(g1.advance(), Ok(Some(0)));
    g1.price(-1000000000063352);
    g1.qty(-1000000000071271);
    assert_eq!(g1.advance(), Ok(Some(1)));
    g1.price(-1000000000079190);
    g1.qty(-1000000000087109);
    assert_eq!(g1.advance(), Ok(None));
    let mut encoder = g1.parent().unwrap();
    let length = encoder.get_limit();
    assert_eq!(encoder.encoded_length(), length - 8);
    let header = MessageHeaderDecoder::default().wrap(ReadBuf::new(&buf), 0);
    assert_eq!(header.block_length(), SBE_BLOCK_LENGTH);
    assert_eq!(header.template_id(), SBE_TEMPLATE_ID);
    assert_eq!(header.schema_id(), SBE_SCHEMA_ID);
    assert_eq!(header.version(), SBE_SCHEMA_VERSION);
    let mut decoder = DepthResponseDecoder::default().header(header);
    assert_eq!(decoder.acting_block_length, SBE_BLOCK_LENGTH);
    assert_eq!(decoder.acting_version, SBE_SCHEMA_VERSION);
    assert_eq!(decoder.last_update_id(), -1000000000007919);
    assert_eq!(decoder.price_exponent(), -3);
    assert_eq!(decoder.qty_exponent(), -4);
    let mut g1 = decoder.bids_decoder();
    assert_eq!(g1.count(), 2);
    assert_eq!(g1.advance(), Ok(Some(0)));
    assert_eq!(g1.price(), -1000000000031676);
    assert_eq!(g1.qty(), -1000000000039595);
    assert_eq!(g1.advance(), Ok(Some(1)));
    assert_eq!(g1.price(), -1000000000047514);
    assert_eq!(g1.qty(), -1000000000055433);
    assert_eq!(g1.advance(), Ok(None));
    let mut decoder = g1.parent().unwrap();
    let mut g1 = decoder.asks_decoder();
    assert_eq!(g1.count(), 2);
    assert_eq!(g1.advance(), Ok(Some(0)));
    assert_eq!(g1.price(), -1000000000063352);
    assert_eq!(g1.qty(), -1000000000071271);
    assert_eq!(g1.advance(), Ok(Some(1)));
    assert_eq!(g1.price(), -1000000000079190);
    assert_eq!(g1.qty(), -1000000000087109);
    assert_eq!(g1.advance(), Ok(None));
    let mut decoder = g1.parent().unwrap();
    assert_eq!(decoder.get_limit(), length);
    assert_eq!(decoder.encoded_length(), length - 8);
}
