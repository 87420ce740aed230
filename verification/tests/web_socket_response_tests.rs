use spot_sbe::web_socket_response_codec::{
    RateLimitsEncoder, SBE_BLOCK_LENGTH, SBE_SCHEMA_ID, SBE_SCHEMA_VERSION, SBE_TEMPLATE_ID,
    WebSocketResponseDecoder, WebSocketResponseEncoder,
};
use spot_sbe::{
    BoolEnum, Decoder, Encoder, MessageHeaderDecoder, RateLimitInterval, RateLimitType, ReadBuf,
    WriteBuf,
};

#[test]
#[allow(unused_mut)]
fn web_socket_response_round_trip() {
    let mut buf = vec![0u8; 4096];
    let encoder = WebSocketResponseEncoder::default().wrap(WriteBuf::new(&mut buf), 8);
    let mut header = encoder.header(0);
    let mut encoder = header.parent().unwrap();
    assert_eq!(encoder.encoded_length(), SBE_BLOCK_LENGTH as usize);
    encoder.sbe_schema_id_version_deprecated(BoolEnum::True);
    encoder.status(40002);
    let mut g1 = encoder.rate_limits_encoder(2, RateLimitsEncoder::default());
    assert_eq!(g1.advance(), Ok(Some(0)));
    g1.rate_limit_type(RateLimitType::RawRequests);
    g1.interval(RateLimitInterval::Second);
    g1.interval_num(6);
    g1.rate_limit(-1000000000047514);
    g1.current(-1000000000055433);
    assert_eq!(g1.advance(), Ok(Some(1)));
    g1.rate_limit_type(RateLimitType::Orders);
    g1.interval(RateLimitInterval::Minute);
    g1.interval_num(11);
    g1.rate_limit(-1000000000087109);
    g1.current(-1000000000095028);
    assert_eq!(g1.advance(), Ok(None));
    let mut encoder = g1.parent().unwrap();
    encoder.id("text-13");
    encoder.result(&[14, 0, 255]);
    let length = encoder.get_limit();
    assert_eq!(encoder.encoded_length(), length - 8);
    let header = MessageHeaderDecoder::default().wrap(ReadBuf::new(&buf), 0);
    assert_eq!(header.block_length(), SBE_BLOCK_LENGTH);
    assert_eq!(header.template_id(), SBE_TEMPLATE_ID);
    assert_eq!(header.schema_id(), SBE_SCHEMA_ID);
    assert_eq!(header.version(), SBE_SCHEMA_VERSION);
    let mut decoder = WebSocketResponseDecoder::default().header(header);
    assert_eq!(decoder.acting_block_length, SBE_BLOCK_LENGTH);
    assert_eq!(decoder.acting_version, SBE_SCHEMA_VERSION);
    assert_eq!(decoder.sbe_schema_id_version_deprecated(), BoolEnum::True);
    assert_eq!(decoder.status(), 40002);
    let mut g1 = decoder.rate_limits_decoder();
    assert_eq!(g1.count(), 2);
    assert_eq!(g1.advance(), Ok(Some(0)));
    assert_eq!(g1.rate_limit_type(), RateLimitType::RawRequests);
    assert_eq!(g1.interval(), RateLimitInterval::Second);
    assert_eq!(g1.interval_num(), 6);
    assert_eq!(g1.rate_limit(), -1000000000047514);
    assert_eq!(g1.current(), -1000000000055433);
    assert_eq!(g1.advance(), Ok(Some(1)));
    assert_eq!(g1.rate_limit_type(), RateLimitType::Orders);
    assert_eq!(g1.interval(), RateLimitInterval::Minute);
    assert_eq!(g1.interval_num(), 11);
    assert_eq!(g1.rate_limit(), -1000000000087109);
    assert_eq!(g1.current(), -1000000000095028);
    assert_eq!(g1.advance(), Ok(None));
    let mut decoder = g1.parent().unwrap();
    let c = decoder.id_decoder();
    assert_eq!(decoder.id_slice(c), b"text-13");
    let c = decoder.result_decoder();
    assert_eq!(decoder.result_slice(c), &[14, 0, 255]);
    assert_eq!(decoder.get_limit(), length);
    assert_eq!(decoder.encoded_length(), length - 8);
}
