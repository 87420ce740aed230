use spot_sbe::error_response_codec::{
    ErrorResponseDecoder, ErrorResponseEncoder, SBE_BLOCK_LENGTH, SBE_SCHEMA_ID,
    SBE_SCHEMA_VERSION, SBE_TEMPLATE_ID,
};
use spot_sbe::{Decoder, Encoder, MessageHeaderDecoder, ReadBuf, WriteBuf};

#[test]
#[allow(unused_mut)]
fn error_response_round_trip() {
    let mut buf = vec![0u8; 4096];
    let encoder = ErrorResponseEncoder::default().wrap(WriteBuf::new(&mut buf), 8);
    let mut header = encoder.header(0);
    let mut encoder = header.parent().unwrap();
    assert_eq!(encoder.encoded_length(), SBE_BLOCK_LENGTH as usize);
    encoder.code(-1001);
    encoder.server_time(-1000000000015838);
    encoder.retry_after(-1000000000023757);
    encoder.msg("text-4");
    encoder.data(&[5, 0, 255]);
    let length = encoder.get_limit();
    assert_eq!(encoder.encoded_length(), length - 8);
    let header = MessageHeaderDecoder::default().wrap(ReadBuf::new(&buf), 0);
    assert_eq!(header.block_length(), SBE_BLOCK_LENGTH);
    assert_eq!(header.template_id(), SBE_TEMPLATE_ID);
    assert_eq!(header.schema_id(), SBE_SCHEMA_ID);
    assert_eq!(header.version(), SBE_SCHEMA_VERSION);
    let mut decoder = ErrorResponseDecoder::default().header(header);
    assert_eq!(decoder.acting_block_length, SBE_BLOCK_LENGTH);
    assert_eq!(decoder.acting_version, SBE_SCHEMA_VERSION);
    assert_eq!(decoder.code(), -1001);
    assert_eq!(decoder.server_time(), Some(-1000000000015838));
    assert_eq!(decoder.retry_after(), Some(-1000000000023757));
    let c = decoder.msg_decoder();
    assert_eq!(decoder.msg_slice(c), b"text-4");
    let c = decoder.data_decoder();
    assert_eq!(decoder.data_slice(c), &[5, 0, 255]);
    assert_eq!(decoder.get_limit(), length);
    assert_eq!(decoder.encoded_length(), length - 8);
}

#[test]
fn error_response_null_values_are_absent() {
    let mut buf = vec![0u8; 4096];
    let mut encoder = ErrorResponseEncoder::default().wrap(WriteBuf::new(&mut buf), 8);
    encoder.server_time(i64::MIN);
    encoder.retry_after(i64::MIN);
    let decoder = ErrorResponseDecoder::default().wrap(ReadBuf::new(&buf), 8, SBE_BLOCK_LENGTH, 0);
    assert_eq!(decoder.server_time(), None);
    assert_eq!(decoder.retry_after(), None);
    let mut encoder = ErrorResponseEncoder::default().wrap(WriteBuf::new(&mut buf), 8);
    encoder.server_time(i64::MIN + 1);
    encoder.retry_after(i64::MIN + 1);
    let decoder = ErrorResponseDecoder::default().wrap(ReadBuf::new(&buf), 8, SBE_BLOCK_LENGTH, 0);
    assert_eq!(decoder.server_time(), Some(i64::MIN + 1));
    assert_eq!(decoder.retry_after(), Some(i64::MIN + 1));
}
