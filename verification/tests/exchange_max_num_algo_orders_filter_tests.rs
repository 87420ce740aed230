use spot_sbe::exchange_max_num_algo_orders_filter_codec::{
    ExchangeMaxNumAlgoOrdersFilterDecoder, ExchangeMaxNumAlgoOrdersFilterEncoder,
    SBE_BLOCK_LENGTH, SBE_SCHEMA_ID, SBE_SCHEMA_VERSION, SBE_TEMPLATE_ID,
};
use spot_sbe::{Decoder, Encoder, FilterType, MessageHeaderDecoder, ReadBuf, WriteBuf};

#[test]
#[allow(unused_mut)]
fn exchange_max_num_algo_orders_filter_round_trip() {
    let mut buf = vec![0u8; 4096];
    let encoder = ExchangeMaxNumAlgoOrdersFilterEncoder::default().wrap(WriteBuf::new(&mut buf), 8);
    let mut header = encoder.header(0);
    let mut encoder = header.parent().unwrap();
    assert_eq!(encoder.encoded_length(), SBE_BLOCK_LENGTH as usize);
    encoder.max_num_algo_orders(-1000000000007919);
    let length = encoder.get_limit();
    assert_eq!(encoder.encoded_length(), length - 8);
    let header = MessageHeaderDecoder::default().wrap(ReadBuf::new(&buf), 0);
    assert_eq!(header.block_length(), SBE_BLOCK_LENGTH);
    assert_eq!(header.template_id(), SBE_TEMPLATE_ID);
    assert_eq!(header.schema_id(), SBE_SCHEMA_ID);
    assert_eq!(header.version(), SBE_SCHEMA_VERSION);
    let mut decoder = ExchangeMaxNumAlgoOrdersFilterDecoder::default().header(header);
    assert_eq!(decoder.acting_block_length, SBE_BLOCK_LENGTH);
    assert_eq!(decoder.acting_version, SBE_SCHEMA_VERSION);
    assert_eq!(decoder.filter_type(), FilterType::ExchangeMaxNumAlgoOrders);
    assert_eq!(decoder.max_num_algo_orders(), -1000000000007919);
    assert_eq!(decoder.get_limit(), length);
    assert_eq!(decoder.encoded_length(), length - 8);
}
