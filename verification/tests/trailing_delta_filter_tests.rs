use spot_sbe::trailing_delta_filter_codec::{
    SBE_BLOCK_LENGTH, SBE_SCHEMA_ID, SBE_SCHEMA_VERSION, SBE_TEMPLATE_ID,
    TrailingDeltaFilterDecoder, TrailingDeltaFilterEncoder,
};
use spot_sbe::{Decoder, Encoder, FilterType, MessageHeaderDecoder, ReadBuf, WriteBuf};

#[test]
#[allow(unused_mut)]
fn trailing_delta_filter_round_trip() {
    let mut buf = vec![0u8; 4096];
    let encoder = TrailingDeltaFilterEncoder::default().wrap(WriteBuf::new(&mut buf), 8);
    let mut header = encoder.header(0);
    let mut encoder = header.parent().unwrap();
    assert_eq!(encoder.encoded_length(), SBE_BLOCK_LENGTH as usize);
    encoder.min_trailing_above_delta(-1000000000007919);
    encoder.max_trailing_above_delta(-1000000000015838);
    encoder.min_trailing_below_delta(-1000000000023757);
    encoder.max_trailing_below_delta(-1000000000031676);
    let length = encoder.get_limit();
    assert_eq!(encoder.encoded_length(), length - 8);
    let header = MessageHeaderDecoder::default().wrap(ReadBuf::new(&buf), 0);
    assert_eq!(header.block_length(), SBE_BLOCK_LENGTH);
    assert_eq!(header.template_id(), SBE_TEMPLATE_ID);
    assert_eq!(header.schema_id(), SBE_SCHEMA_ID);
    assert_eq!(header.version(), SBE_SCHEMA_VERSION);
    let mut decoder = TrailingDeltaFilterDecoder::default().header(header);
    assert_eq!(decoder.acting_block_length, SBE_BLOCK_LENGTH);
    assert_eq!(decoder.acting_version, SBE_SCHEMA_VERSION);
    assert_eq!(decoder.filter_type(), FilterType::TrailingDelta);
    assert_eq!(decoder.min_trailing_above_delta(), -1000000000007919);
    assert_eq!(decoder.max_trailing_above_delta(), -1000000000015838);
    assert_eq!(decoder.min_trailing_below_delta(), -1000000000023757);
    assert_eq!(decoder.max_trailing_below_delta(), -1000000000031676);
    assert_eq!(decoder.get_limit(), length);
    assert_eq!(decoder.encoded_length(), length - 8);
}
