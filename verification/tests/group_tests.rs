use spot_sbe::account_commission_response_codec::{
    AccountCommissionResponseDecoder, AccountCommissionResponseEncoder,
};
use spot_sbe::depth_response_codec::{
    AsksDecoder, BidsDecoder, BidsEncoder, DepthResponseDecoder, DepthResponseEncoder,
};
use spot_sbe::cancel_open_orders_response_codec::{
    CancelOpenOrdersResponseDecoder, CancelOpenOrdersResponseEncoder, ResponsesEncoder,
};
use spot_sbe::{Decoder, Encoder, ReadBuf, Reader, SbeErr, WriteBuf};

#[test]
fn a_group_is_its_size_and_its_elements() {
    let mut buf = [0u8; 6 + 2 * 16];
    let encoder = DepthResponseEncoder::default().wrap(WriteBuf::new(&mut buf), 0);
    // the limit behind the block of ten bytes is moved to the start of the buffer
    let mut encoder = encoder;
    encoder.set_limit(0);
    let mut bids = encoder.bids_encoder(2, BidsEncoder::default());
    assert_eq!(bids.get_limit(), 6);
    assert_eq!(bids.advance(), Ok(Some(0)));
    bids.price(1);
    bids.qty(2);
    assert_eq!(bids.advance(), Ok(Some(1)));
    bids.price(3);
    bids.qty(4);
    assert_eq!(bids.advance(), Ok(None));
    assert_eq!(bids.get_limit(), 38);
    let _ = bids.parent();
    let mut expected = vec![16u8, 0, 2, 0, 0, 0];
    for v in [1i64, 2, 3, 4] {
        expected.extend_from_slice(&v.to_le_bytes());
    }
    assert_eq!(buf.to_vec(), expected);
    assert_eq!(BidsEncoder::<DepthResponseEncoder>::block_length(), 16);
}

#[test]
fn advance_ends_after_count_elements() {
    let mut buf = vec![0u8; 6 + 5 * 16];
    buf[0] = 16;
    buf[2] = 5;
    let decoder = DepthResponseDecoder::default().wrap(ReadBuf::new(&buf), 0, 0, 0);
    let mut bids = decoder.bids_decoder();
    assert_eq!(bids.count(), 5);
    let mut limits = vec![bids.get_limit()];
    for i in 0..5 {
        assert_eq!(bids.advance(), Ok(Some(i)));
        limits.push(bids.get_limit());
    }
    assert_eq!(limits, vec![6, 22, 38, 54, 70, 86]);
    assert_eq!(bids.advance(), Ok(None));
    assert_eq!(bids.advance(), Ok(None));
    assert_eq!(bids.get_limit(), 86);
}

#[test]
fn elements_lie_one_block_length_apart() {
    // a sender with a longer block: 24 bytes for each element
    let mut buf = vec![0u8; 6 + 3 * 24];
    buf[0] = 24;
    buf[2] = 3;
    for i in 0..3 {
        buf[6 + i * 24] = i as u8 + 1;
        buf[6 + i * 24 + 8] = i as u8 + 11;
    }
    let decoder = DepthResponseDecoder::default().wrap(ReadBuf::new(&buf), 0, 0, 0);
    let mut bids = decoder.bids_decoder();
    for i in 0..3 {
        assert_eq!(bids.advance(), Ok(Some(i)));
        assert_eq!(bids.price(), i as i64 + 1);
        assert_eq!(bids.qty(), i as i64 + 11);
    }
    assert_eq!(bids.advance(), Ok(None));
    let decoder = bids.parent().unwrap();
    assert_eq!(decoder.get_limit(), 6 + 3 * 24);
}

#[test]
fn an_empty_group_has_no_element() {
    let buf = [16u8, 0, 0, 0, 0, 0, 16, 0, 0, 0, 0, 0];
    let decoder = DepthResponseDecoder::default().wrap(ReadBuf::new(&buf), 0, 0, 0);
    let mut bids: BidsDecoder<_> = decoder.bids_decoder();
    assert_eq!(bids.count(), 0);
    assert_eq!(bids.advance(), Ok(None));
    let decoder = bids.parent().unwrap();
    assert_eq!(decoder.get_limit(), 6);
    let mut asks: AsksDecoder<_> = decoder.asks_decoder();
    assert_eq!(asks.advance(), Ok(None));
    assert_eq!(asks.get_limit(), 12);
    assert_eq!(asks.get_buf().len(), 12);
}

#[test]
fn a_group_without_parent_cannot_advance() {
    let buf = [16u8, 0, 1, 0, 0, 0];
    let decoder = DepthResponseDecoder::default().wrap(ReadBuf::new(&buf), 0, 0, 0);
    let mut bids = decoder.bids_decoder();
    assert!(bids.parent().is_ok());
    assert_eq!(bids.advance(), Err(SbeErr::ParentNotSet));
    assert_eq!(bids.parent().err(), Some(SbeErr::ParentNotSet));
    let mut fresh: BidsDecoder<DepthResponseDecoder> = BidsDecoder::default();
    // the count of a decoder that was never placed is zero
    assert_eq!(fresh.advance(), Ok(None));
}

#[test]
fn variable_length_data_follows_each_element() {
    let mut buf = [0u8; 6 + 2 + 3 + 2];
    let encoder = CancelOpenOrdersResponseEncoder::default().wrap(WriteBuf::new(&mut buf), 0);
    let mut responses = encoder.responses_encoder(2, ResponsesEncoder::default());
    assert_eq!(responses.advance(), Ok(Some(0)));
    responses.response(b"abc");
    assert_eq!(responses.advance(), Ok(Some(1)));
    responses.response(b"");
    assert_eq!(responses.advance(), Ok(None));
    let encoder = responses.parent().unwrap();
    assert_eq!(encoder.get_limit(), 13);
    assert_eq!(buf, [0, 0, 2, 0, 0, 0, 3, 0, b'a', b'b', b'c', 0, 0]);
    let decoder = CancelOpenOrdersResponseDecoder::default().wrap(ReadBuf::new(&buf), 0, 0, 0);
    let mut responses = decoder.responses_decoder();
    assert_eq!(responses.advance(), Ok(Some(0)));
    let c = responses.response_decoder();
    assert_eq!(c, (8, 3));
    assert_eq!(responses.response_slice(c), b"abc");
    assert_eq!(responses.advance(), Ok(Some(1)));
    let c = responses.response_decoder();
    assert_eq!(c, (13, 0));
    assert_eq!(responses.response_slice(c), b"");
    assert_eq!(responses.advance(), Ok(None));
}

#[test]
fn a_length_that_the_prefix_cannot_hold_is_cut() {
    let text = "x".repeat(258);
    let mut buf = vec![0u8; 1 + 258];
    let mut encoder = AccountCommissionResponseEncoder::default().wrap(WriteBuf::new(&mut buf), 0);
    encoder.set_limit(0);
    encoder.symbol(&text);
    assert_eq!(encoder.get_limit(), 259);
    assert_eq!(buf[0], 2);
    assert_eq!(&buf[1..], text.as_bytes());
    let mut decoder = AccountCommissionResponseDecoder::default().wrap(ReadBuf::new(&buf), 0, 0, 0);
    assert_eq!(decoder.symbol_decoder(), (1, 2));
}

#[test]
fn the_declared_block_length_says_where_the_groups_begin() {
    // a sender whose block is two bytes longer than the ten that this schema knows
    let mut buf = vec![0u8; 8 + 12 + 6 + 16 + 6];
    buf[0] = 12;
    buf[2] = 200;
    buf[4] = 1;
    buf[6] = 3;
    buf[8] = 42;
    buf[8 + 12] = 16;
    buf[8 + 12 + 2] = 1;
    buf[8 + 12 + 6] = 7;
    buf[8 + 12 + 6 + 16] = 16;
    let header = spot_sbe::MessageHeaderDecoder::default().wrap(ReadBuf::new(&buf), 0);
    let decoder = DepthResponseDecoder::default().header(header);
    assert_eq!(decoder.acting_block_length, 12);
    assert_eq!(decoder.acting_version, 3);
    assert_eq!(decoder.encoded_length(), 12);
    assert_eq!(decoder.last_update_id(), 42);
    let mut bids = decoder.bids_decoder();
    assert_eq!(bids.count(), 1);
    assert_eq!(bids.advance(), Ok(Some(0)));
    assert_eq!(bids.price(), 7);
    let decoder = bids.parent().unwrap();
    let mut asks = decoder.asks_decoder();
    assert_eq!(asks.count(), 0);
    assert_eq!(asks.advance(), Ok(None));
    assert_eq!(asks.parent().unwrap().get_limit(), buf.len());
}
