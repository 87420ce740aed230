use spot_sbe::message_header_codec::ENCODED_LENGTH;
use spot_sbe::{
    Either, GroupSize16EncodingDecoder, GroupSize16EncodingEncoder, GroupSizeEncodingDecoder,
    GroupSizeEncodingEncoder, MessageData8Decoder, MessageData8Encoder, MessageHeaderDecoder,
    MessageHeaderEncoder, OptionalVarString8Decoder, OptionalVarString8Encoder, ReadBuf, SbeErr,
    SbeResult, VarStringDecoder, VarStringEncoder, Writer,
};
use spot_sbe::depth_response_codec::DepthResponseEncoder;
use spot_sbe::WriteBuf;

#[test]
fn header_is_eight_bytes_of_four_fields() {
    assert_eq!(ENCODED_LENGTH, 8);
    let mut buf = [0u8; 12];
    let encoder = DepthResponseEncoder::default().wrap(WriteBuf::new(&mut buf), 10);
    let mut header = MessageHeaderEncoder::default().wrap(encoder, 2);
    header.block_length(0x0102);
    header.template_id(0x0304);
    header.schema_id(0x0506);
    header.version(0x0708);
    assert!(header.parent().is_ok());
    assert_eq!(buf, [0, 0, 2, 1, 4, 3, 6, 5, 8, 7, 0, 0]);
    let header = MessageHeaderDecoder::default().wrap(ReadBuf::new(&buf), 2);
    assert_eq!(header.block_length(), 0x0102);
    assert_eq!(header.template_id(), 0x0304);
    assert_eq!(header.schema_id(), 0x0506);
    assert_eq!(header.version(), 0x0708);
}

#[test]
fn message_encoder_writes_its_own_header() {
    let mut buf = [0xffu8; 8];
    let encoder = DepthResponseEncoder::default().wrap(WriteBuf::new(&mut buf), 8);
    let mut header = encoder.header(0);
    let _ = header.parent();
    assert_eq!(buf, [10, 0, 200, 0, 1, 0, 0, 0]);
}

#[test]
fn parent_is_handed_out_once() {
    let data = [0u8; 8];
    let mut header = MessageHeaderDecoder::default().wrap(ReadBuf::new(&data), 0);
    assert!(header.parent().is_ok());
    assert_eq!(header.parent().err(), Some(SbeErr::ParentNotSet));
    let mut empty: MessageHeaderDecoder<ReadBuf> = MessageHeaderDecoder::default();
    assert_eq!(empty.parent().err(), Some(SbeErr::ParentNotSet));
}

#[test]
fn group_size_is_block_length_and_count() {
    let mut buf = [0u8; 8];
    let encoder = DepthResponseEncoder::default().wrap(WriteBuf::new(&mut buf), 0);
    let mut size = GroupSizeEncodingEncoder::default().wrap(encoder, 1);
    size.block_length(16);
    size.num_in_group(0x0a0b_0c0d);
    let _ = size.parent();
    assert_eq!(buf, [0, 16, 0, 0x0d, 0x0c, 0x0b, 0x0a, 0]);
    let size = GroupSizeEncodingDecoder::default().wrap(ReadBuf::new(&buf), 1);
    assert_eq!(size.block_length(), 16);
    assert_eq!(size.num_in_group(), 0x0a0b_0c0d);
    assert_eq!(spot_sbe::group_size_encoding_codec::ENCODED_LENGTH, 6);
}

#[test]
fn group_size_16_has_a_two_byte_count() {
    let mut buf = [0u8; 5];
    let encoder = DepthResponseEncoder::default().wrap(WriteBuf::new(&mut buf), 0);
    let mut size = GroupSize16EncodingEncoder::default().wrap(encoder, 0);
    size.block_length(3);
    size.num_in_group(0x0102);
    let _ = size.parent();
    assert_eq!(buf, [3, 0, 2, 1, 0]);
    let size = GroupSize16EncodingDecoder::default().wrap(ReadBuf::new(&buf), 0);
    assert_eq!(size.block_length(), 3);
    assert_eq!(size.num_in_group(), 0x0102);
    assert_eq!(spot_sbe::group_size_16_encoding_codec::ENCODED_LENGTH, 4);
}

#[test]
fn var_string_has_a_two_byte_length() {
    let mut buf = [0u8; 4];
    let encoder = DepthResponseEncoder::default().wrap(WriteBuf::new(&mut buf), 0);
    let mut text = VarStringEncoder::default().wrap(encoder, 1);
    text.length(0x0201);
    text.var_data(b'x');
    let _ = text.parent();
    assert_eq!(buf, [0, 1, 2, b'x']);
    let text = VarStringDecoder::default().wrap(ReadBuf::new(&buf), 1);
    assert_eq!(text.length(), 0x0201);
    assert_eq!(text.var_data(), b'x');
}

#[test]
fn one_byte_lengths() {
    let mut buf = [0u8; 4];
    let encoder = DepthResponseEncoder::default().wrap(WriteBuf::new(&mut buf), 0);
    let mut text = OptionalVarString8Encoder::default().wrap(encoder, 0);
    text.length(7);
    text.var_data(8);
    let encoder = text.parent().unwrap();
    let mut data = MessageData8Encoder::default().wrap(encoder, 2);
    data.length(9);
    data.var_data(10);
    let mut encoder = data.parent().unwrap();
    encoder.get_buf_mut().put_u8_at(3, 11);
    assert_eq!(buf, [7, 8, 9, 11]);
    let text = OptionalVarString8Decoder::default().wrap(ReadBuf::new(&buf), 0);
    assert_eq!((text.length(), text.var_data()), (7, 8));
    let data = MessageData8Decoder::default().wrap(ReadBuf::new(&buf), 2);
    assert_eq!((data.length(), data.var_data()), (9, 11));
}

#[test]
fn results_and_either() {
    let ok: SbeResult<u8> = Ok(1);
    let err: SbeResult<u8> = Err(SbeErr::ParentNotSet);
    assert!(ok.is_ok() && err.is_err());
    assert_eq!(format!("{:?}", SbeErr::ParentNotSet), "ParentNotSet");
    assert_eq!(SbeErr::ParentNotSet.message(), "ParentNotSet");
    let l: Either<u8, bool> = Either::Left(1);
    let r: Either<u8, bool> = Either::Right(true);
    assert!(l < r);
    assert_eq!(l, Either::Left(1));
}

#[test]
fn a_message_decoder_stands_behind_its_header_wherever_that_is() {
    use_header_at(0);
    use_header_at(8);
    use_header_at(13);
}

fn use_header_at(k: usize) {
    let mut buf = vec![0xeeu8; k + 8 + 10 + 7];
    let encoder = DepthResponseEncoder::default().wrap(WriteBuf::new(&mut buf), k + 8);
    let mut header = encoder.header(k);
    let mut encoder = header.parent().unwrap();
    encoder.last_update_id(0x0102_0304_0506_0708);
    encoder.price_exponent(-2);
    encoder.qty_exponent(-3);
    let header = MessageHeaderDecoder::default().wrap(ReadBuf::new(&buf), k);
    assert_eq!(header.offset(), k);
    assert_eq!(header.template_id(), 200);
    let decoder = spot_sbe::DepthResponseDecoder::default().header(header);
    assert_eq!(decoder.acting_block_length(), 10);
    assert_eq!(decoder.acting_version(), 0);
    assert_eq!(decoder.last_update_id(), 0x0102_0304_0506_0708);
    assert_eq!(decoder.price_exponent(), -2);
    assert_eq!(decoder.qty_exponent(), -3);
    assert_eq!(spot_sbe::Decoder::get_limit(&decoder), k + 8 + 10);
    assert_eq!(decoder.encoded_length(), 10);
}

#[test]
fn header_fields_are_read_back_in_whatever_order_they_were_set() {
    let orders = [[0usize, 1, 2, 3], [3, 2, 1, 0], [2, 0, 3, 1], [1, 3, 0, 2]];
    let values = [0xfffeu16, 0x0102, 0x8000, 7];
    for order in orders {
        for o in [0usize, 5] {
            let mut buf = vec![0xa5u8; o + 8 + 2];
            let encoder = DepthResponseEncoder::default().wrap(WriteBuf::new(&mut buf), 0);
            let mut header = MessageHeaderEncoder::default().wrap(encoder, o);
            for field in order {
                match field {
                    0 => header.block_length(values[0]),
                    1 => header.template_id(values[1]),
                    2 => header.schema_id(values[2]),
                    _ => header.version(values[3]),
                }
            }
            // a field that is set twice holds what it was set to last
            header.schema_id(0);
            header.schema_id(values[2]);
            let _ = header.parent();
            let header = MessageHeaderDecoder::default().wrap(ReadBuf::new(&buf), o);
            assert_eq!(header.block_length(), values[0]);
            assert_eq!(header.template_id(), values[1]);
            assert_eq!(header.schema_id(), values[2]);
            assert_eq!(header.version(), values[3]);
            assert_eq!(&buf[o + 8..], &[0xa5, 0xa5]);
            assert_eq!(&buf[..o], &vec![0xa5u8; o][..]);
        }
    }
}
