use spot_sbe::account_order_rate_limit_response_codec::{
    AccountOrderRateLimitResponseDecoder, AccountOrderRateLimitResponseEncoder, RateLimitsEncoder,
    SBE_BLOCK_LENGTH, SBE_SCHEMA_ID, SBE_SCHEMA_VERSION, SBE_TEMPLATE_ID,
};
use spot_sbe::{
    Decoder, Encoder, MessageHeaderDecoder, RateLimitInterval, RateLimitType, ReadBuf, WriteBuf,
};

#[test]
#[allow(unused_mut)]
fn account_order_rate_limit_response_round_trip() {
    let mut buf = vec![0u8; 4096];
    let encoder = AccountOrderRateLimitResponseEncoder::default().wrap(WriteBuf::new(&mut buf), 8);
    let mut header = encoder.header(0);
    let mut encoder = header.parent().unwrap();
    assert_eq!(encoder.encoded_length(), SBE_BLOCK_LENGTH as usize);
    let mut g1 = encoder.rate_limits_encoder(2, RateLimitsEncoder::default());
    assert_eq!(g1.advance(), Ok(Some(0)));
    g1.rate_limit_type(RateLimitType::RequestWeight);
    g1.interval(RateLimitInterval::Hour);
    g1.interval_num(4);
    g1.rate_limit(-1000000000031676);
    g1.num_orders(-1000000000039595);
    assert_eq!(g1.advance(), Ok(Some(1)));
    g1.rate_limit_type(RateLimitType::RawRequests);
    g1.interval(RateLimitInterval::Day);
    g1.interval_num(9);
    g1.rate_limit(-1000000000071271);
    g1.num_orders(-1000000000079190);
    assert_eq!(g1.advance(), Ok(None));
    let mut encoder = g1.parent().unwrap();
    let length = encoder.get_limit();
    assert_eq!(encoder.encoded_length(), length - 8);
    let header = MessageHeaderDecoder::default().wrap(ReadBuf::new(&buf), 0);
    assert_eq!(header.block_length(), SBE_BLOCK_LENGTH);
    assert_eq!(header.template_id(), SBE_TEMPLATE_ID);
    assert_eq!(header.schema_id(), SBE_SCHEMA_ID);
    assert_eq!(header.version(), SBE_SCHEMA_VERSION);
    let mut decoder = AccountOrderRateLimitResponseDecoder::default().header(header);
    assert_eq!(decoder.acting_block_length, SBE_BLOCK_LENGTH);
    assert_eq!(decoder.acting_version, SBE_SCHEMA_VERSION);
    let mut g1 = decoder.rate_limits_decoder();
    assert_eq!(g1.count(), 2);
    assert_eq!(g1.advance(), Ok(Some(0)));
    assert_eq!(g1.rate_limit_type(), RateLimitType::RequestWeight);
    assert_eq!(g1.interval(), RateLimitInterval::Hour);
    assert_eq!(g1.interval_num(), 4);
    assert_eq!(g1.rate_limit(), -1000000000031676);
    assert_eq!(g1.num_orders(), -1000000000039595);
    assert_eq!(g1.advance(), Ok(Some(1)));
    assert_eq!(g1.rate_limit_type(), RateLimitType::RawRequests);
    assert_eq!(g1.interval(), RateLimitInterval::Day);
    assert_eq!(g1.interval_num(), 9);
    assert_eq!(g1.rate_limit(), -1000000000071271);
    assert_eq!(g1.num_orders(), -1000000000079190);
    assert_eq!(g1.advance(), Ok(None));
    let mut decoder = g1.parent().unwrap();
    assert_eq!(decoder.get_limit(), length);
    assert_eq!(decoder.encoded_length(), length - 8);
}
