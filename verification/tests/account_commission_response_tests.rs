use spot_sbe::account_commission_response_codec::{
    AccountCommissionResponseDecoder, AccountCommissionResponseEncoder, SBE_BLOCK_LENGTH,
    SBE_SCHEMA_ID, SBE_SCHEMA_VERSION, SBE_TEMPLATE_ID,
};
use spot_sbe::{BoolEnum, Decoder, Encoder, MessageHeaderDecoder, ReadBuf, WriteBuf};

#[test]
#[allow(unused_mut)]
fn account_commission_response_round_trip() {
    let mut buf = vec![0u8; 4096];
    let encoder = AccountCommissionResponseEncoder::default().wrap(WriteBuf::new(&mut buf), 8);
    let mut header = encoder.header(0);
    let mut encoder = header.parent().unwrap();
    assert_eq!(encoder.encoded_length(), SBE_BLOCK_LENGTH as usize);
    encoder.commission_exponent(-2);
    encoder.discount_exponent(-3);
    encoder.standard_commission_maker(-1000000000023757);
    encoder.standard_commission_taker(-1000000000031676);
    encoder.standard_commission_buyer(-1000000000039595);
    encoder.standard_commission_seller(-1000000000047514);
    encoder.tax_commission_maker(-1000000000055433);
    encoder.tax_commission_taker(-1000000000063352);
    encoder.tax_commission_buyer(-1000000000071271);
    encoder.tax_commission_seller(-1000000000079190);
    encoder.discount_enabled_for_account(BoolEnum::True);
    encoder.discount_enabled_for_symbol(BoolEnum::False);
    encoder.discount(-1000000000102947);
    encoder.symbol("text-14");
    encoder.discount_asset("text-15");
    let length = encoder.get_limit();
    assert_eq!(encoder.encoded_length(), length - 8);
    let header = MessageHeaderDecoder::default().wrap(ReadBuf::new(&buf), 0);
    assert_eq!(header.block_length(), SBE_BLOCK_LENGTH);
    assert_eq!(header.template_id(), SBE_TEMPLATE_ID);
    assert_eq!(header.schema_id(), SBE_SCHEMA_ID);
    assert_eq!(header.version(), SBE_SCHEMA_VERSION);
    let mut decoder = AccountCommissionResponseDecoder::default().header(header);
    assert_eq!(decoder.acting_block_length, SBE_BLOCK_LENGTH);
    assert_eq!(decoder.acting_version, SBE_SCHEMA_VERSION);
    assert_eq!(decoder.commission_exponent(), -2);
    assert_eq!(decoder.discount_exponent(), -3);
    assert_eq!(decoder.standard_commission_maker(), -1000000000023757);
    assert_eq!(decoder.standard_commission_taker(), -1000000000031676);
    assert_eq!(decoder.standard_commission_buyer(), -1000000000039595);
    assert_eq!(decoder.standard_commission_seller(), -1000000000047514);
    assert_eq!(decoder.tax_commission_maker(), -1000000000055433);
    assert_eq!(decoder.tax_commission_taker(), -1000000000063352);
    assert_eq!(decoder.tax_commission_buyer(), -1000000000071271);
    assert_eq!(decoder.tax_commission_seller(), -1000000000079190);
    assert_eq!(decoder.discount_enabled_for_account(), BoolEnum::True);
    assert_eq!(decoder.discount_enabled_for_symbol(), BoolEnum::False);
    assert_eq!(decoder.discount(), -1000000000102947);
    let c = decoder.symbol_decoder();
    assert_eq!(decoder.symbol_slice(c), b"text-14");
    let c = decoder.discount_asset_decoder();
    assert_eq!(decoder.discount_asset_slice(c), b"text-15");
    assert_eq!(decoder.get_limit(), length);
    assert_eq!(decoder.encoded_length(), length - 8);
}
