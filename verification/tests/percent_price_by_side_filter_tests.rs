use spot_sbe::percent_price_by_side_filter_codec::{
    PercentPriceBySideFilterDecoder, PercentPriceBySideFilterEncoder, SBE_BLOCK_LENGTH,
    SBE_SCHEMA_ID, SBE_SCHEMA_VERSION, SBE_TEMPLATE_ID,
};
use spot_sbe::{Decoder, Encoder, FilterType, MessageHeaderDecoder, ReadBuf, WriteBuf};

#[test]
#[allow(unused_mut)]
fn percent_price_by_side_filter_round_trip() {
    let mut buf = vec![0u8; 4096];
    let encoder = PercentPriceBySideFilterEncoder::default().wrap(WriteBuf::new(&mut buf), 8);
    let mut header = encoder.header(0);
    let mut encoder = header.parent().unwrap();
    assert_eq!(encoder.encoded_length(), SBE_BLOCK_LENGTH as usize);
    encoder.multiplier_exponent(-2);
    encoder.bid_multiplier_up(-1000000000015838);
    encoder.bid_multiplier_down(-1000000000023757);
    encoder.ask_multiplier_up(-1000000000031676);
    encoder.ask_multiplier_down(-1000000000039595);
    encoder.avg_price_mins(-100006);
    let length = encoder.get_limit();
    assert_eq!(encoder.encoded_length(), length - 8);
    let header = MessageHeaderDecoder::default().wrap(ReadBuf::new(&buf), 0);
    assert_eq!(header.block_length(), SBE_BLOCK_LENGTH);
    assert_eq!(header.template_id(), SBE_TEMPLATE_ID);
    assert_eq!(header.schema_id(), SBE_SCHEMA_ID);
    assert_eq!(header.version(), SBE_SCHEMA_VERSION);
    let mut decoder = PercentPriceBySideFilterDecoder::default().header(header);
    assert_eq!(decoder.acting_block_length, SBE_BLOCK_LENGTH);
    assert_eq!(decoder.acting_version, SBE_SCHEMA_VERSION);
    assert_eq!(decoder.filter_type(), FilterType::PercentPriceBySide);
    assert_eq!(decoder.multiplier_exponent(), -2);
    assert_eq!(decoder.bid_multiplier_up(), -1000000000015838);
    assert_eq!(decoder.bid_multiplier_down(), -1000000000023757);
    assert_eq!(decoder.ask_multiplier_up(), -1000000000031676);
    assert_eq!(decoder.ask_multiplier_down(), -1000000000039595);
    assert_eq!(decoder.avg_price_mins(), -100006);
    assert_eq!(decoder.get_limit(), length);
    assert_eq!(decoder.encoded_length(), length - 8);
}
