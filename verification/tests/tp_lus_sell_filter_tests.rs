use spot_sbe::tp_lus_sell_filter_codec::{
    SBE_BLOCK_LENGTH, SBE_SCHEMA_ID, SBE_SCHEMA_VERSION, SBE_TEMPLATE_ID, TPlusSellFilterDecoder,
    TPlusSellFilterEncoder,
};
use spot_sbe::{Decoder, Encoder, FilterType, MessageHeaderDecoder, ReadBuf, WriteBuf};

#[test]
#[allow(unused_mut)]
fn tp_lus_sell_filter_round_trip() {
    let mut buf = vec![0u8; 4096];
    let encoder = TPlusSellFilterEncoder::default().wrap(WriteBuf::new(&mut buf), 8);
    let mut header = encoder.header(0);
    let mut encoder = header.parent().unwrap();
    assert_eq!(encoder.encoded_length(), SBE_BLOCK_LENGTH as usize);
    encoder.end_time(-1000000000007919);
    let length = encoder.get_limit();
    assert_eq!(encoder.encoded_length(), length - 8);
    let header = MessageHeaderDecoder::default().wrap(ReadBuf::new(&buf), 0);
    assert_eq!(header.block_length(), SBE_BLOCK_LENGTH);
    assert_eq!(header.template_id(), SBE_TEMPLATE_ID);
    assert_eq!(header.schema_id(), SBE_SCHEMA_ID);
    assert_eq!(header.version(), SBE_SCHEMA_VERSION);
    let mut decoder = TPlusSellFilterDecoder::default().header(header);
    assert_eq!(decoder.acting_block_length, SBE_BLOCK_LENGTH);
    assert_eq!(decoder.acting_version, SBE_SCHEMA_VERSION);
    assert_eq!(decoder.filter_type(), FilterType::TPlusSell);
    assert_eq!(decoder.end_time(), Some(-1000000000007919));
    assert_eq!(decoder.get_limit(), length);
    assert_eq!(decoder.encoded_length(), length - 8);
}

#[test]
fn tp_lus_sell_filter_null_values_are_absent() {
    let mut buf = vec![0u8; 4096];
    let mut encoder = TPlusSellFilterEncoder::default().wrap(WriteBuf::new(&mut buf), 8);
    encoder.end_time(i64::MIN);
    let decoder =
        TPlusSellFilterDecoder::default().wrap(ReadBuf::new(&buf), 8, SBE_BLOCK_LENGTH, 0);
    assert_eq!(decoder.end_time(), None);
    let mut encoder = TPlusSellFilterEncoder::default().wrap(WriteBuf::new(&mut buf), 8);
    encoder.end_time(i64::MIN + 1);
    let decoder =
        TPlusSellFilterDecoder::default().wrap(ReadBuf::new(&buf), 8, SBE_BLOCK_LENGTH, 0);
    assert_eq!(decoder.end_time(), Some(i64::MIN + 1));
}
