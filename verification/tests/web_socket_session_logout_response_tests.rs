use spot_sbe::web_socket_session_logout_response_codec::{
    SBE_BLOCK_LENGTH, SBE_SCHEMA_ID, SBE_SCHEMA_VERSION, SBE_TEMPLATE_ID,
    WebSocketSessionLogoutResponseDecoder, WebSocketSessionLogoutResponseEncoder,
};
use spot_sbe::{BoolEnum, Decoder, Encoder, MessageHeaderDecoder, ReadBuf, WriteBuf};

#[test]
#[allow(unused_mut)]
fn web_socket_session_logout_response_round_trip() {
    let mut buf = vec![0u8; 4096];
    let encoder = WebSocketSessionLogoutResponseEncoder::default().wrap(WriteBuf::new(&mut buf), 8);
    let mut header = encoder.header(0);
    let mut encoder = header.parent().unwrap();
    assert_eq!(encoder.encoded_length(), SBE_BLOCK_LENGTH as usize);
    encoder.authorized_since(-1000000000007919);
    encoder.connected_since(-1000000000015838);
    encoder.return_rate_limits(BoolEnum::True);
    encoder.server_time(-1000000000031676);
    encoder.api_key("text-5");
    let length = encoder.get_limit();
    assert_eq!(encoder.encoded_length(), length - 8);
    let header = MessageHeaderDecoder::default().wrap(ReadBuf::new(&buf), 0);
    assert_eq!(header.block_length(), SBE_BLOCK_LENGTH);
    assert_eq!(header.template_id(), SBE_TEMPLATE_ID);
    assert_eq!(header.schema_id(), SBE_SCHEMA_ID);
    assert_eq!(header.version(), SBE_SCHEMA_VERSION);
    let mut decoder = WebSocketSessionLogoutResponseDecoder::default().header(header);
    assert_eq!(decoder.acting_block_length, SBE_BLOCK_LENGTH);
    assert_eq!(decoder.acting_version, SBE_SCHEMA_VERSION);
    assert_eq!(decoder.authorized_since(), Some(-1000000000007919));
    assert_eq!(decoder.connected_since(), -1000000000015838);
    assert_eq!(decoder.return_rate_limits(), BoolEnum::True);
    assert_eq!(decoder.server_time(), -1000000000031676);
    let c = decoder.api_key_decoder();
    assert_eq!(decoder.api_key_slice(c), b"text-5");
    assert_eq!(decoder.get_limit(), length);
    assert_eq!(decoder.encoded_length(), length - 8);
}

#[test]
fn web_socket_session_logout_response_null_values_are_absent() {
    let mut buf = vec![0u8; 4096];
    let mut encoder =
        WebSocketSessionLogoutResponseEncoder::default().wrap(WriteBuf::new(&mut buf), 8);
    encoder.authorized_since(i64::MIN);
    let decoder =
        WebSocketSessionLogoutResponseDecoder::default().wrap(ReadBuf::new(&buf), 8, SBE_BLOCK_LENGTH, 0);
    assert_eq!(decoder.authorized_since(), None);
    let mut encoder =
        WebSocketSessionLogoutResponseEncoder::default().wrap(WriteBuf::new(&mut buf), 8);
    encoder.authorized_since(i64::MIN + 1);
    let decoder =
        WebSocketSessionLogoutResponseDecoder::default().wrap(ReadBuf::new(&buf), 8, SBE_BLOCK_LENGTH, 0);
    assert_eq!(decoder.authorized_since(), Some(i64::MIN + 1));
}
