use spot_sbe::cancel_open_orders_response_codec::{
    CancelOpenOrdersResponseDecoder, CancelOpenOrdersResponseEncoder, ResponsesEncoder,
    SBE_BLOCK_LENGTH, SBE_SCHEMA_ID, SBE_SCHEMA_VERSION, SBE_TEMPLATE_ID,
};
use spot_sbe::{Decoder, Encoder, MessageHeaderDecoder, ReadBuf, WriteBuf};

#[test]
#[allow(unused_mut)]
fn cancel_open_orders_response_round_trip() {
    let mut buf = vec![0u8; 4096];
    let encoder = CancelOpenOrdersResponseEncoder::default().wrap(WriteBuf::new(&mut buf), 8);
    let mut header = encoder.header(0);
    let mut encoder = header.parent().unwrap();
    assert_eq!(encoder.encoded_length(), SBE_BLOCK_LENGTH as usize);
    let mut g1 = encoder.responses_encoder(2, ResponsesEncoder::default());
    assert_eq!(g1.advance(), Ok(Some(0)));
    g1.response(&[1, 0, 255]);
    assert_eq!(g1.advance(), Ok(Some(1)));
    g1.response(&[2, 0, 255]);
    assert_eq!(g1.advance(), Ok(None));
    let mut encoder = g1.parent().unwrap();
    let length = encoder.get_limit();
    assert_eq!(encoder.encoded_length(), length - 8);
    let header = MessageHeaderDecoder::default().wrap(ReadBuf::new(&buf), 0);
    assert_eq!(header.block_length(), SBE_BLOCK_LENGTH);
    assert_eq!(header.template_id(), SBE_TEMPLATE_ID);
    assert_eq!(header.schema_id(), SBE_SCHEMA_ID);
    assert_eq!(header.version(), SBE_SCHEMA_VERSION);
    let mut decoder = CancelOpenOrdersResponseDecoder::default().header(header);
    assert_eq!(decoder.acting_block_length, SBE_BLOCK_LENGTH);
    assert_eq!(decoder.acting_version, SBE_SCHEMA_VERSION);
    let mut g1 = decoder.responses_decoder();
    assert_eq!(g1.count(), 2);
    assert_eq!(g1.advance(), Ok(Some(0)));
    let c = g1.response_decoder();
    assert_eq!(g1.response_slice(c), &[1, 0, 255]);
    assert_eq!(g1.advance(), Ok(Some(1)));
    let c = g1.response_decoder();
    assert_eq!(g1.response_slice(c), &[2, 0, 255]);
    assert_eq!(g1.advance(), Ok(None));
    let mut decoder = g1.parent().unwrap();
    assert_eq!(decoder.get_limit(), length);
    assert_eq!(decoder.encoded_length(), length - 8);
}
