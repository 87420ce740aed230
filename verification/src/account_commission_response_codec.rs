//! The message `AccountCommissionResponse`, template 405 of schema 1.
use crate::bool_enum::BoolEnum;
use crate::buffer::{ReadBuf, WriteBuf};
use crate::codec::{Decoder, Encoder, Reader, Writer};
use crate::message_header_codec::{MessageHeaderDecoder, MessageHeaderEncoder, write_header};
use crate::wire::{
    laid, lemma_laid, lemma_next_field, lemma_read_spelled, lemma_read_spelled_unsigned,
    lemma_round_trip_64, lemma_round_trip_8, lemma_side_by_side_wider, lemma_u64_value,
    read_i64, read_i8, read_u16, read_u8, u64_of, u64_to_le, u8_of, write_i64, write_i8,
    write_u8, write_var_u8,
};
use vstd::string::StringSliceAdditionalSpecFns;
use vstd::prelude::*;

verus! {

/// The bytes that the fixed block of this message takes.
pub const SBE_BLOCK_LENGTH: u16 = 76;

pub const SBE_TEMPLATE_ID: u16 = 405;

pub const SBE_SCHEMA_ID: u16 = 1;

pub const SBE_SCHEMA_VERSION: u16 = 0;

pub const SBE_SEMANTIC_VERSION: &'static str = "5.2";

#[derive(Debug)]
pub struct AccountCommissionResponseEncoder<'a> {
    buf: WriteBuf<'a>,
    initial_offset: usize,
    offset: usize,
    limit: usize,
}

impl<'a> Default for AccountCommissionResponseEncoder<'a> {
    fn default() -> (r: Self)
        ensures
            r.buf()@.len() == 0,
            r.initial_offset_view() == 0,
            r.offset_view() == 0,
            r.limit_view() == 0,
    {
        Self { buf: WriteBuf::default(), initial_offset: 0, offset: 0, limit: 0 }
    }
}

impl<'a> Writer<'a> for AccountCommissionResponseEncoder<'a> {
    open spec fn buf_ok(&self) -> bool {
        true
    }

    closed spec fn buf(self) -> WriteBuf<'a> {
        self.buf
    }

    closed spec fn with_buf(self, buf: WriteBuf<'a>) -> Self {
        Self { buf, ..self }
    }

    proof fn lemma_with_buf(self) {
    }

    proof fn lemma_resolved(self) {
        self.lemma_buf_resolved();
        self.buf.lemma_resolved();
    }

    fn get_buf_mut(&mut self) -> (r: &mut WriteBuf<'a>) {
        &mut self.buf
    }
}

impl<'a> Encoder<'a> for AccountCommissionResponseEncoder<'a> {
    closed spec fn limit_view(self) -> usize {
        self.limit
    }

    closed spec fn with_limit(self, limit: usize) -> Self {
        Self { limit, ..self }
    }

    proof fn lemma_with_limit(self) {
    }

    fn get_limit(&self) -> (r: usize) {
        self.limit
    }

    fn set_limit(&mut self, limit: usize) {
        self.limit = limit;
    }
}

impl<'a> AccountCommissionResponseEncoder<'a> {
    /// Where nothing writes through this encoder any more, nothing writes
    /// through its buffer.
    proof fn lemma_buf_resolved(self)
        requires
            has_resolved(self),
        ensures
            has_resolved(self.buf),
    {
    }

    pub closed spec fn initial_offset_view(self) -> usize {
        self.initial_offset
    }

    /// Where the fixed block begins.
    pub closed spec fn offset_view(self) -> usize {
        self.offset
    }

    /// This encoder stands where `pre` stood, but for the limit, which is
    /// at `limit` (what the buffer holds may differ).
    pub open spec fn placed_as(self, pre: Self, limit: usize) -> bool {
        &&& self.limit_view() == limit
        &&& self.offset_view() == pre.offset_view()
        &&& self.initial_offset_view() == pre.initial_offset_view()
    }

    /// Exchanging the buffer or the limit leaves the offsets alone.
    pub proof fn lemma_frame(self)
        ensures
            forall|buf: WriteBuf<'a>|
                #![trigger self.with_buf(buf)]
                self.with_buf(buf).offset_view() == self.offset_view() && self.with_buf(
                    buf,
                ).initial_offset_view() == self.initial_offset_view(),
            forall|limit: usize|
                #![trigger self.with_limit(limit)]
                self.with_limit(limit).offset_view() == self.offset_view() && self.with_limit(
                    limit,
                ).initial_offset_view() == self.initial_offset_view(),
    {
    }

    /// Places the encoder over `buf` with its fixed block at `offset`; the
    /// limit stands behind the block.
    pub fn wrap(self, buf: WriteBuf<'a>, offset: usize) -> (r: Self)
        requires
            offset + SBE_BLOCK_LENGTH <= usize::MAX,
        ensures
            r.buf() == buf,
            r.initial_offset_view() == offset,
            r.offset_view() == offset,
            r.limit_view() == offset + SBE_BLOCK_LENGTH,
    {
        let limit = offset + SBE_BLOCK_LENGTH as usize;
        let mut this = self;
        this.buf = buf;
        this.initial_offset = offset;
        this.offset = offset;
        this.limit = limit;
        this
    }

    /// The bytes from the start of the block to the limit.
    pub fn encoded_length(&self) -> (r: usize)
        requires
            self.offset_view() <= self.limit_view(),
        ensures
            r == self.limit_view() - self.offset_view(),
    {
        self.limit - self.offset
    }

    /// Writes the header of this message at `offset` and hands out the
    /// header's encoder, which holds this encoder as its parent.
    pub fn header(self, offset: usize) -> (r: MessageHeaderEncoder<Self>)
        requires
            offset + 8 <= self.buf()@.len(),
        ensures
            r.offset_view() == offset,
            r.parent_view() is Some,
            r.buf()@ == write_header(
                self.buf()@,
                offset as int,
                SBE_BLOCK_LENGTH,
                SBE_TEMPLATE_ID,
                SBE_SCHEMA_ID,
                SBE_SCHEMA_VERSION,
            ),
            r.buf()@.len() == self.buf()@.len(),
            final(r.buf().target())@ == final(self.buf().target())@,
            r.parent_view().unwrap().placed_as(self, self.limit_view()),
            r.parent_view().unwrap() == self.with_buf(r.buf()),
    {
        proof {
            self.buf().lemma_len();
            self.lemma_frame();
        }
        let mut header = MessageHeaderEncoder::default().wrap(self, offset);
        proof {
            header.lemma_frame();
            header.lemma_with_buf();
            self.lemma_with_buf();
        }
        header.block_length(SBE_BLOCK_LENGTH);
        proof {
            header.lemma_frame();
            header.lemma_with_buf();
            header.parent_view().unwrap().lemma_with_buf();
        }
        header.template_id(SBE_TEMPLATE_ID);
        proof {
            header.lemma_frame();
            header.lemma_with_buf();
            header.parent_view().unwrap().lemma_with_buf();
        }
        header.schema_id(SBE_SCHEMA_ID);
        proof {
            header.lemma_frame();
            header.lemma_with_buf();
            header.parent_view().unwrap().lemma_with_buf();
        }
        header.version(SBE_SCHEMA_VERSION);
        header
    }

    /// `commissionExponent`: an `i8` at byte 0 of the block.
    pub fn commission_exponent(&mut self, value: i8)
        requires
            old(self).offset_view() + 1 <= old(self).buf()@.len(),
        ensures
            final(self).buf()@ == write_i8(old(self).buf()@, old(self).offset_view() as int, value),
            final(self).buf()@.len() == old(self).buf()@.len(),
            final(final(self).buf().target())@ == final(old(self).buf().target())@,
            final(self).placed_as(*old(self), old(self).limit_view()),
            *final(self) == old(self).with_buf(final(self).buf()),
    {
        proof {
            self.buf().lemma_len();
            self.lemma_with_buf();
            self.lemma_frame();
            self.lemma_with_limit();
        }
        let offset = self.offset;
        self.get_buf_mut().put_i8_at(offset, value);
    }

    /// `discountExponent`: an `i8` at byte 1 of the block.
    pub fn discount_exponent(&mut self, value: i8)
        requires
            old(self).offset_view() + 2 <= old(self).buf()@.len(),
        ensures
            final(self).buf()@ == write_i8(old(self).buf()@, old(self).offset_view() + 1, value),
            final(self).buf()@.len() == old(self).buf()@.len(),
            final(final(self).buf().target())@ == final(old(self).buf().target())@,
            final(self).placed_as(*old(self), old(self).limit_view()),
            *final(self) == old(self).with_buf(final(self).buf()),
    {
        proof {
            self.buf().lemma_len();
            self.lemma_with_buf();
            self.lemma_frame();
            self.lemma_with_limit();
        }
        let offset = self.offset + 1;
        self.get_buf_mut().put_i8_at(offset, value);
    }

    /// `standardCommissionMaker`: an `i64` at byte 2 of the block.
    pub fn standard_commission_maker(&mut self, value: i64)
        requires
            old(self).offset_view() + 10 <= old(self).buf()@.len(),
        ensures
            final(self).buf()@ == write_i64(old(self).buf()@, old(self).offset_view() + 2, value),
            final(self).buf()@.len() == old(self).buf()@.len(),
            final(final(self).buf().target())@ == final(old(self).buf().target())@,
            final(self).placed_as(*old(self), old(self).limit_view()),
            *final(self) == old(self).with_buf(final(self).buf()),
    {
        proof {
            self.buf().lemma_len();
            self.lemma_with_buf();
            self.lemma_frame();
            self.lemma_with_limit();
        }
        let offset = self.offset + 2;
        self.get_buf_mut().put_i64_at(offset, value);
    }

    /// `standardCommissionTaker`: an `i64` at byte 10 of the block.
    pub fn standard_commission_taker(&mut self, value: i64)
        requires
            old(self).offset_view() + 18 <= old(self).buf()@.len(),
        ensures
            final(self).buf()@ == write_i64(old(self).buf()@, old(self).offset_view() + 10, value),
            final(self).buf()@.len() == old(self).buf()@.len(),
            final(final(self).buf().target())@ == final(old(self).buf().target())@,
            final(self).placed_as(*old(self), old(self).limit_view()),
            *final(self) == old(self).with_buf(final(self).buf()),
    {
        proof {
            self.buf().lemma_len();
            self.lemma_with_buf();
            self.lemma_frame();
            self.lemma_with_limit();
        }
        let offset = self.offset + 10;
        self.get_buf_mut().put_i64_at(offset, value);
    }

    /// `standardCommissionBuyer`: an `i64` at byte 18 of the block.
    pub fn standard_commission_buyer(&mut self, value: i64)
        requires
            old(self).offset_view() + 26 <= old(self).buf()@.len(),
        ensures
            final(self).buf()@ == write_i64(old(self).buf()@, old(self).offset_view() + 18, value),
            final(self).buf()@.len() == old(self).buf()@.len(),
            final(final(self).buf().target())@ == final(old(self).buf().target())@,
            final(self).placed_as(*old(self), old(self).limit_view()),
            *final(self) == old(self).with_buf(final(self).buf()),
    {
        proof {
            self.buf().lemma_len();
            self.lemma_with_buf();
            self.lemma_frame();
            self.lemma_with_limit();
        }
        let offset = self.offset + 18;
        self.get_buf_mut().put_i64_at(offset, value);
    }

    /// `standardCommissionSeller`: an `i64` at byte 26 of the block.
    pub fn standard_commission_seller(&mut self, value: i64)
        requires
            old(self).offset_view() + 34 <= old(self).buf()@.len(),
        ensures
            final(self).buf()@ == write_i64(old(self).buf()@, old(self).offset_view() + 26, value),
            final(self).buf()@.len() == old(self).buf()@.len(),
            final(final(self).buf().target())@ == final(old(self).buf().target())@,
            final(self).placed_as(*old(self), old(self).limit_view()),
            *final(self) == old(self).with_buf(final(self).buf()),
    {
        proof {
            self.buf().lemma_len();
            self.lemma_with_buf();
            self.lemma_frame();
            self.lemma_with_limit();
        }
        let offset = self.offset + 26;
        self.get_buf_mut().put_i64_at(offset, value);
    }

    /// `taxCommissionMaker`: an `i64` at byte 34 of the block.
    pub fn tax_commission_maker(&mut self, value: i64)
        requires
            old(self).offset_view() + 42 <= old(self).buf()@.len(),
        ensures
            final(self).buf()@ == write_i64(old(self).buf()@, old(self).offset_view() + 34, value),
            final(self).buf()@.len() == old(self).buf()@.len(),
            final(final(self).buf().target())@ == final(old(self).buf().target())@,
            final(self).placed_as(*old(self), old(self).limit_view()),
            *final(self) == old(self).with_buf(final(self).buf()),
    {
        proof {
            self.buf().lemma_len();
            self.lemma_with_buf();
            self.lemma_frame();
            self.lemma_with_limit();
        }
        let offset = self.offset + 34;
        self.get_buf_mut().put_i64_at(offset, value);
    }

    /// `taxCommissionTaker`: an `i64` at byte 42 of the block.
    pub fn tax_commission_taker(&mut self, value: i64)
        requires
            old(self).offset_view() + 50 <= old(self).buf()@.len(),
        ensures
            final(self).buf()@ == write_i64(old(self).buf()@, old(self).offset_view() + 42, value),
            final(self).buf()@.len() == old(self).buf()@.len(),
            final(final(self).buf().target())@ == final(old(self).buf().target())@,
            final(self).placed_as(*old(self), old(self).limit_view()),
            *final(self) == old(self).with_buf(final(self).buf()),
    {
        proof {
            self.buf().lemma_len();
            self.lemma_with_buf();
            self.lemma_frame();
            self.lemma_with_limit();
        }
        let offset = self.offset + 42;
        self.get_buf_mut().put_i64_at(offset, value);
    }

    /// `taxCommissionBuyer`: an `i64` at byte 50 of the block.
    pub fn tax_commission_buyer(&mut self, value: i64)
        requires
            old(self).offset_view() + 58 <= old(self).buf()@.len(),
        ensures
            final(self).buf()@ == write_i64(old(self).buf()@, old(self).offset_view() + 50, value),
            final(self).buf()@.len() == old(self).buf()@.len(),
            final(final(self).buf().target())@ == final(old(self).buf().target())@,
            final(self).placed_as(*old(self), old(self).limit_view()),
            *final(self) == old(self).with_buf(final(self).buf()),
    {
        proof {
            self.buf().lemma_len();
            self.lemma_with_buf();
            self.lemma_frame();
            self.lemma_with_limit();
        }
        let offset = self.offset + 50;
        self.get_buf_mut().put_i64_at(offset, value);
    }

    /// `taxCommissionSeller`: an `i64` at byte 58 of the block.
    pub fn tax_commission_seller(&mut self, value: i64)
        requires
            old(self).offset_view() + 66 <= old(self).buf()@.len(),
        ensures
            final(self).buf()@ == write_i64(old(self).buf()@, old(self).offset_view() + 58, value),
            final(self).buf()@.len() == old(self).buf()@.len(),
            final(final(self).buf().target())@ == final(old(self).buf().target())@,
            final(self).placed_as(*old(self), old(self).limit_view()),
            *final(self) == old(self).with_buf(final(self).buf()),
    {
        proof {
            self.buf().lemma_len();
            self.lemma_with_buf();
            self.lemma_frame();
            self.lemma_with_limit();
        }
        let offset = self.offset + 58;
        self.get_buf_mut().put_i64_at(offset, value);
    }

    /// `discountEnabledForAccount`: the code of a `BoolEnum` at byte 66 of the block.
    pub fn discount_enabled_for_account(&mut self, value: BoolEnum)
        requires
            old(self).offset_view() + 67 <= old(self).buf()@.len(),
        ensures
            final(self).buf()@ == write_u8(
                old(self).buf()@,
                old(self).offset_view() + 66,
                value.code_view(),
            ),
            final(self).buf()@.len() == old(self).buf()@.len(),
            final(final(self).buf().target())@ == final(old(self).buf().target())@,
            final(self).placed_as(*old(self), old(self).limit_view()),
            *final(self) == old(self).with_buf(final(self).buf()),
    {
        proof {
            self.buf().lemma_len();
            self.lemma_with_buf();
            self.lemma_frame();
            self.lemma_with_limit();
        }
        let offset = self.offset + 66;
        self.get_buf_mut().put_u8_at(offset, value.code());
    }

    /// `discountEnabledForSymbol`: the code of a `BoolEnum` at byte 67 of the block.
    pub fn discount_enabled_for_symbol(&mut self, value: BoolEnum)
        requires
            old(self).offset_view() + 68 <= old(self).buf()@.len(),
        ensures
            final(self).buf()@ == write_u8(
                old(self).buf()@,
                old(self).offset_view() + 67,
                value.code_view(),
            ),
            final(self).buf()@.len() == old(self).buf()@.len(),
            final(final(self).buf().target())@ == final(old(self).buf().target())@,
            final(self).placed_as(*old(self), old(self).limit_view()),
            *final(self) == old(self).with_buf(final(self).buf()),
    {
        proof {
            self.buf().lemma_len();
            self.lemma_with_buf();
            self.lemma_frame();
            self.lemma_with_limit();
        }
        let offset = self.offset + 67;
        self.get_buf_mut().put_u8_at(offset, value.code());
    }

    /// `discount`: an `i64` at byte 68 of the block.
    pub fn discount(&mut self, value: i64)
        requires
            old(self).offset_view() + 76 <= old(self).buf()@.len(),
        ensures
            final(self).buf()@ == write_i64(old(self).buf()@, old(self).offset_view() + 68, value),
            final(self).buf()@.len() == old(self).buf()@.len(),
            final(final(self).buf().target())@ == final(old(self).buf().target())@,
            final(self).placed_as(*old(self), old(self).limit_view()),
            *final(self) == old(self).with_buf(final(self).buf()),
    {
        proof {
            self.buf().lemma_len();
            self.lemma_with_buf();
            self.lemma_frame();
            self.lemma_with_limit();
        }
        let offset = self.offset + 68;
        self.get_buf_mut().put_i64_at(offset, value);
    }

    /// `symbol`: text behind a `u8` length, appended at the limit.
    /// A length that the prefix cannot hold is cut to its low bits.
    pub fn symbol(&mut self, value: &str)
        requires
            old(self).limit_view() + 1 + value.spec_bytes().len() <= old(self).buf()@.len(),
        ensures
            final(self).buf()@ == write_var_u8(
                old(self).buf()@,
                old(self).limit_view() as int,
                value.spec_bytes(),
            ),
            final(self).buf()@.len() == old(self).buf()@.len(),
            final(final(self).buf().target())@ == final(old(self).buf().target())@,
            final(self).placed_as(
                *old(self),
                (old(self).limit_view() + 1 + value.spec_bytes().len()) as usize,
            ),
            *final(self) == old(self).with_limit(
                (old(self).limit_view() + 1 + value.spec_bytes().len()) as usize,
            ).with_buf(final(self).buf()),
    {
        proof {
            self.buf().lemma_len();
            self.lemma_with_buf();
            self.lemma_with_limit();
            self.lemma_frame();
        }
        let limit = self.get_limit();
        let data_length = value.len();
        self.set_limit(limit + 1 + data_length);
        proof {
            self.lemma_with_buf();
            self.lemma_with_limit();
            self.lemma_frame();
        }
        self.get_buf_mut().put_u8_at(limit, #[verifier::truncate] (data_length as u8));
        proof {
            self.lemma_with_buf();
            self.lemma_with_limit();
            self.lemma_frame();
        }
        self.get_buf_mut().put_slice_at(limit + 1, value.as_bytes());
    }

    /// `discountAsset`: text behind a `u8` length, appended at the limit.
    /// A length that the prefix cannot hold is cut to its low bits.
    pub fn discount_asset(&mut self, value: &str)
        requires
            old(self).limit_view() + 1 + value.spec_bytes().len() <= old(self).buf()@.len(),
        ensures
            final(self).buf()@ == write_var_u8(
                old(self).buf()@,
                old(self).limit_view() as int,
                value.spec_bytes(),
            ),
            final(self).buf()@.len() == old(self).buf()@.len(),
            final(final(self).buf().target())@ == final(old(self).buf().target())@,
            final(self).placed_as(
                *old(self),
                (old(self).limit_view() + 1 + value.spec_bytes().len()) as usize,
            ),
            *final(self) == old(self).with_limit(
                (old(self).limit_view() + 1 + value.spec_bytes().len()) as usize,
            ).with_buf(final(self).buf()),
    {
        proof {
            self.buf().lemma_len();
            self.lemma_with_buf();
            self.lemma_with_limit();
            self.lemma_frame();
        }
        let limit = self.get_limit();
        let data_length = value.len();
        self.set_limit(limit + 1 + data_length);
        proof {
            self.lemma_with_buf();
            self.lemma_with_limit();
            self.lemma_frame();
        }
        self.get_buf_mut().put_u8_at(limit, #[verifier::truncate] (data_length as u8));
        proof {
            self.lemma_with_buf();
            self.lemma_with_limit();
            self.lemma_frame();
        }
        self.get_buf_mut().put_slice_at(limit + 1, value.as_bytes());
    }
}

/// The bytes after every fixed field of the block at `base` was set
/// once, in the order of the fields: what the setters make of `s`.
#[verifier::opaque]
pub open spec fn block_written(
    s: Seq<u8>,
    base: int,
    commission_exponent: i8,
    discount_exponent: i8,
    standard_commission_maker: i64,
    standard_commission_taker: i64,
    standard_commission_buyer: i64,
    standard_commission_seller: i64,
    tax_commission_maker: i64,
    tax_commission_taker: i64,
    tax_commission_buyer: i64,
    tax_commission_seller: i64,
    discount_enabled_for_account: BoolEnum,
    discount_enabled_for_symbol: BoolEnum,
    discount: i64,
) -> Seq<u8> {
    let s = write_i8(s, base, commission_exponent);
    let s = write_i8(s, base + 1, discount_exponent);
    let s = write_i64(s, base + 2, standard_commission_maker);
    let s = write_i64(s, base + 10, standard_commission_taker);
    let s = write_i64(s, base + 18, standard_commission_buyer);
    let s = write_i64(s, base + 26, standard_commission_seller);
    let s = write_i64(s, base + 34, tax_commission_maker);
    let s = write_i64(s, base + 42, tax_commission_taker);
    let s = write_i64(s, base + 50, tax_commission_buyer);
    let s = write_i64(s, base + 58, tax_commission_seller);
    let s = write_u8(s, base + 66, discount_enabled_for_account.code_view());
    let s = write_u8(s, base + 67, discount_enabled_for_symbol.code_view());
    let s = write_i64(s, base + 68, discount);
    s
}

/// Every fixed field of the block is read as it was set: the fields
/// lie side by side within the block, and the length is as it was.
pub proof fn lemma_block_round_trip(
    s: Seq<u8>,
    base: int,
    commission_exponent: i8,
    discount_exponent: i8,
    standard_commission_maker: i64,
    standard_commission_taker: i64,
    standard_commission_buyer: i64,
    standard_commission_seller: i64,
    tax_commission_maker: i64,
    tax_commission_taker: i64,
    tax_commission_buyer: i64,
    tax_commission_seller: i64,
    discount_enabled_for_account: BoolEnum,
    discount_enabled_for_symbol: BoolEnum,
    discount: i64,
)
    requires
        0 <= base,
        base + SBE_BLOCK_LENGTH <= s.len(),
    ensures
        ({
            let t = block_written(
                s,
                base,
                commission_exponent,
                discount_exponent,
                standard_commission_maker,
                standard_commission_taker,
                standard_commission_buyer,
                standard_commission_seller,
                tax_commission_maker,
                tax_commission_taker,
                tax_commission_buyer,
                tax_commission_seller,
                discount_enabled_for_account,
                discount_enabled_for_symbol,
                discount,
            );
            &&& t.len() == s.len()
            &&& read_i8(t, base) == commission_exponent
            &&& read_i8(t, base + 1) == discount_exponent
            &&& read_i64(t, base + 2) == standard_commission_maker
            &&& read_i64(t, base + 10) == standard_commission_taker
            &&& read_i64(t, base + 18) == standard_commission_buyer
            &&& read_i64(t, base + 26) == standard_commission_seller
            &&& read_i64(t, base + 34) == tax_commission_maker
            &&& read_i64(t, base + 42) == tax_commission_taker
            &&& read_i64(t, base + 50) == tax_commission_buyer
            &&& read_i64(t, base + 58) == tax_commission_seller
            &&& BoolEnum::of_code(read_u8(t, base + 66)) == discount_enabled_for_account
            &&& BoolEnum::of_code(read_u8(t, base + 67)) == discount_enabled_for_symbol
            &&& read_i64(t, base + 68) == discount
        }),
{
    reveal(block_written);
    let b1 = seq![u8_of(commission_exponent)];
    let b2 = seq![u8_of(discount_exponent)];
    let b3 = u64_to_le(u64_of(standard_commission_maker));
    lemma_u64_value(u64_of(standard_commission_maker));
    let b4 = u64_to_le(u64_of(standard_commission_taker));
    lemma_u64_value(u64_of(standard_commission_taker));
    let b5 = u64_to_le(u64_of(standard_commission_buyer));
    lemma_u64_value(u64_of(standard_commission_buyer));
    let b6 = u64_to_le(u64_of(standard_commission_seller));
    lemma_u64_value(u64_of(standard_commission_seller));
    let b7 = u64_to_le(u64_of(tax_commission_maker));
    lemma_u64_value(u64_of(tax_commission_maker));
    let b8 = u64_to_le(u64_of(tax_commission_taker));
    lemma_u64_value(u64_of(tax_commission_taker));
    let b9 = u64_to_le(u64_of(tax_commission_buyer));
    lemma_u64_value(u64_of(tax_commission_buyer));
    let b10 = u64_to_le(u64_of(tax_commission_seller));
    lemma_u64_value(u64_of(tax_commission_seller));
    let b11 = seq![discount_enabled_for_account.code_view()];
    let b12 = seq![discount_enabled_for_symbol.code_view()];
    let b13 = u64_to_le(u64_of(discount));
    lemma_u64_value(u64_of(discount));
    let fields = |k: int|
        if k == 0 {
            (0int, b1)
        } else if k == 1 {
            (1int, b2)
        } else if k == 2 {
            (2int, b3)
        } else if k == 3 {
            (10int, b4)
        } else if k == 4 {
            (18int, b5)
        } else if k == 5 {
            (26int, b6)
        } else if k == 6 {
            (34int, b7)
        } else if k == 7 {
            (42int, b8)
        } else if k == 8 {
            (50int, b9)
        } else if k == 9 {
            (58int, b10)
        } else if k == 10 {
            (66int, b11)
        } else if k == 11 {
            (67int, b12)
        } else if k == 12 {
            (68int, b13)
        } else {
            (0int, Seq::<u8>::empty())
        };
    lemma_next_field(s, base, fields, 0, 0, 1);
    lemma_next_field(s, base, fields, 1, 1, 2);
    lemma_next_field(s, base, fields, 2, 2, 10);
    lemma_next_field(s, base, fields, 3, 10, 18);
    lemma_next_field(s, base, fields, 4, 18, 26);
    lemma_next_field(s, base, fields, 5, 26, 34);
    lemma_next_field(s, base, fields, 6, 34, 42);
    lemma_next_field(s, base, fields, 7, 42, 50);
    lemma_next_field(s, base, fields, 8, 50, 58);
    lemma_next_field(s, base, fields, 9, 58, 66);
    lemma_next_field(s, base, fields, 10, 66, 67);
    lemma_next_field(s, base, fields, 11, 67, 68);
    lemma_next_field(s, base, fields, 12, 68, 76);
    lemma_side_by_side_wider(fields, 13, 76, SBE_BLOCK_LENGTH as int);
    let t = laid(s, base, fields, 13);
    lemma_laid(s, base, fields, 13, SBE_BLOCK_LENGTH as int, 0);
    lemma_read_spelled(t, base, commission_exponent, 0, 0, 0);
    lemma_laid(s, base, fields, 13, SBE_BLOCK_LENGTH as int, 1);
    lemma_read_spelled(t, base + 1, discount_exponent, 0, 0, 0);
    lemma_laid(s, base, fields, 13, SBE_BLOCK_LENGTH as int, 2);
    lemma_read_spelled(t, base + 2, 0, 0, 0, standard_commission_maker);
    lemma_laid(s, base, fields, 13, SBE_BLOCK_LENGTH as int, 3);
    lemma_read_spelled(t, base + 10, 0, 0, 0, standard_commission_taker);
    lemma_laid(s, base, fields, 13, SBE_BLOCK_LENGTH as int, 4);
    lemma_read_spelled(t, base + 18, 0, 0, 0, standard_commission_buyer);
    lemma_laid(s, base, fields, 13, SBE_BLOCK_LENGTH as int, 5);
    lemma_read_spelled(t, base + 26, 0, 0, 0, standard_commission_seller);
    lemma_laid(s, base, fields, 13, SBE_BLOCK_LENGTH as int, 6);
    lemma_read_spelled(t, base + 34, 0, 0, 0, tax_commission_maker);
    lemma_laid(s, base, fields, 13, SBE_BLOCK_LENGTH as int, 7);
    lemma_read_spelled(t, base + 42, 0, 0, 0, tax_commission_taker);
    lemma_laid(s, base, fields, 13, SBE_BLOCK_LENGTH as int, 8);
    lemma_read_spelled(t, base + 50, 0, 0, 0, tax_commission_buyer);
    lemma_laid(s, base, fields, 13, SBE_BLOCK_LENGTH as int, 9);
    lemma_read_spelled(t, base + 58, 0, 0, 0, tax_commission_seller);
    lemma_laid(s, base, fields, 13, SBE_BLOCK_LENGTH as int, 10);
    lemma_read_spelled_unsigned(t, base + 66, discount_enabled_for_account.code_view(), 0, 0, 0);
    BoolEnum::lemma_codes(0, discount_enabled_for_account);
    lemma_laid(s, base, fields, 13, SBE_BLOCK_LENGTH as int, 11);
    lemma_read_spelled_unsigned(t, base + 67, discount_enabled_for_symbol.code_view(), 0, 0, 0);
    BoolEnum::lemma_codes(0, discount_enabled_for_symbol);
    lemma_laid(s, base, fields, 13, SBE_BLOCK_LENGTH as int, 12);
    lemma_read_spelled(t, base + 68, 0, 0, 0, discount);
}

/// The block written with what is read from it is as it was, where each code in
/// it is one that the schema declares, or the null code.
pub proof fn lemma_block_written_back(s: Seq<u8>, base: int)
    requires
        0 <= base,
        base + SBE_BLOCK_LENGTH <= s.len(),
        BoolEnum::declared(read_u8(s, base + 66)) || read_u8(s, base + 66) == 255,
        BoolEnum::declared(read_u8(s, base + 67)) || read_u8(s, base + 67) == 255,
    ensures
        block_written(
            s,
            base,
            read_i8(s, base),
            read_i8(s, base + 1),
            read_i64(s, base + 2),
            read_i64(s, base + 10),
            read_i64(s, base + 18),
            read_i64(s, base + 26),
            read_i64(s, base + 34),
            read_i64(s, base + 42),
            read_i64(s, base + 50),
            read_i64(s, base + 58),
            BoolEnum::of_code(read_u8(s, base + 66)),
            BoolEnum::of_code(read_u8(s, base + 67)),
            read_i64(s, base + 68),
        ) == s,
{
    reveal(block_written);
    lemma_round_trip_8(s, base, 0, 0);
    lemma_round_trip_8(s, base + 1, 0, 0);
    lemma_round_trip_64(s, base + 2, 0, 0);
    lemma_round_trip_64(s, base + 10, 0, 0);
    lemma_round_trip_64(s, base + 18, 0, 0);
    lemma_round_trip_64(s, base + 26, 0, 0);
    lemma_round_trip_64(s, base + 34, 0, 0);
    lemma_round_trip_64(s, base + 42, 0, 0);
    lemma_round_trip_64(s, base + 50, 0, 0);
    lemma_round_trip_64(s, base + 58, 0, 0);
    lemma_round_trip_8(s, base + 66, 0, 0);
    BoolEnum::lemma_codes(read_u8(s, base + 66), BoolEnum::NullVal);
    lemma_round_trip_8(s, base + 67, 0, 0);
    BoolEnum::lemma_codes(read_u8(s, base + 67), BoolEnum::NullVal);
    lemma_round_trip_64(s, base + 68, 0, 0);
}

#[derive(Clone, Copy, Debug)]
pub struct AccountCommissionResponseDecoder<'a> {
    buf: ReadBuf<'a>,
    initial_offset: usize,
    offset: usize,
    limit: usize,
    pub acting_block_length: u16,
    pub acting_version: u16,
}

impl<'a> Default for AccountCommissionResponseDecoder<'a> {
    fn default() -> (r: Self)
        ensures
            r.buf()@.len() == 0,
            r.initial_offset_view() == 0,
            r.offset_view() == 0,
            r.limit_view() == 0,
            r.acting_block_length_view() == 0,
            r.acting_version_view() == 0,
    {
        Self {
            buf: ReadBuf::default(),
            initial_offset: 0,
            offset: 0,
            limit: 0,
            acting_block_length: 0,
            acting_version: 0,
        }
    }
}

impl<'a> Reader<'a> for AccountCommissionResponseDecoder<'a> {
    open spec fn buf_ok(&self) -> bool {
        true
    }

    closed spec fn buf(self) -> ReadBuf<'a> {
        self.buf
    }

    fn get_buf(&self) -> (r: &ReadBuf<'a>) {
        &self.buf
    }
}

impl<'a> Decoder<'a> for AccountCommissionResponseDecoder<'a> {
    closed spec fn limit_view(self) -> usize {
        self.limit
    }

    closed spec fn with_limit(self, limit: usize) -> Self {
        Self { limit, ..self }
    }

    proof fn lemma_with_limit(self) {
    }

    fn get_limit(&self) -> (r: usize) {
        self.limit
    }

    fn set_limit(&mut self, limit: usize) {
        self.limit = limit;
    }
}

impl<'a> AccountCommissionResponseDecoder<'a> {
    pub closed spec fn initial_offset_view(self) -> usize {
        self.initial_offset
    }

    /// Where the fixed block begins.
    pub closed spec fn offset_view(self) -> usize {
        self.offset
    }

    /// The block length that the sender declared.
    pub closed spec fn acting_block_length_view(self) -> u16 {
        self.acting_block_length
    }

    /// The schema version that the sender declared.
    pub closed spec fn acting_version_view(self) -> u16 {
        self.acting_version
    }

    /// This decoder stands where `pre` stood, but for the limit, which is
    /// at `limit`.
    pub open spec fn placed_as(self, pre: Self, limit: usize) -> bool {
        &&& self.limit_view() == limit
        &&& self.buf() == pre.buf()
        &&& self.offset_view() == pre.offset_view()
        &&& self.initial_offset_view() == pre.initial_offset_view()
        &&& self.acting_block_length_view() == pre.acting_block_length_view()
        &&& self.acting_version_view() == pre.acting_version_view()
    }

    /// Moving the limit leaves all else alone.
    pub proof fn lemma_frame(self)
        ensures
            forall|limit: usize|
                #![trigger self.with_limit(limit)]
                {
                    let w = self.with_limit(limit);
                    &&& w.offset_view() == self.offset_view()
                    &&& w.initial_offset_view() == self.initial_offset_view()
                    &&& w.acting_block_length_view() == self.acting_block_length_view()
                    &&& w.acting_version_view() == self.acting_version_view()
                },
    {
    }

    /// Places the decoder over `buf` with its fixed block at `offset`; the
    /// limit stands behind the block, whose length the sender declared.
    pub fn wrap(
        self,
        buf: ReadBuf<'a>,
        offset: usize,
        acting_block_length: u16,
        acting_version: u16,
    ) -> (r: Self)
        requires
            offset + acting_block_length <= usize::MAX,
        ensures
            r.buf() == buf,
            r.initial_offset_view() == offset,
            r.offset_view() == offset,
            r.limit_view() == offset + acting_block_length,
            r.acting_block_length_view() == acting_block_length,
            r.acting_version_view() == acting_version,
    {
        let limit = offset + acting_block_length as usize;
        let mut this = self;
        this.buf = buf;
        this.initial_offset = offset;
        this.offset = offset;
        this.limit = limit;
        this.acting_block_length = acting_block_length;
        this.acting_version = acting_version;
        this
    }

    /// The bytes from the start of the block to the limit.
    pub fn encoded_length(&self) -> (r: usize)
        requires
            self.offset_view() <= self.limit_view(),
        ensures
            r == self.limit_view() - self.offset_view(),
    {
        self.limit - self.offset
    }

    /// The block length that the sender declared.
    pub fn acting_block_length(&self) -> (r: u16)
        ensures
            r == self.acting_block_length_view(),
    {
        self.acting_block_length
    }

    /// The schema version that the sender declared.
    pub fn acting_version(&self) -> (r: u16)
        ensures
            r == self.acting_version_view(),
    {
        self.acting_version
    }

    /// Takes over from a header that announces this message: the decoder
    /// stands behind the header, on the header's buffer, with the block
    /// length and version that the header declares.
    pub fn header(self, header: MessageHeaderDecoder<ReadBuf<'a>>) -> (r: Self)
        requires
            header.buf_ok(),
            header.offset_view() + 8 <= header.buf()@.len(),
            read_u16(header.buf()@, header.offset_view() + 2) == SBE_TEMPLATE_ID,
            header.offset_view() + 8 + read_u16(header.buf()@, header.offset_view() as int)
                <= usize::MAX,
        ensures
            r.buf() == header.buf(),
            r.initial_offset_view() == header.offset_view() + 8,
            r.offset_view() == header.offset_view() + 8,
            r.acting_block_length_view() == read_u16(header.buf()@, header.offset_view() as int),
            r.acting_version_view() == read_u16(header.buf()@, header.offset_view() + 6),
            r.limit_view() == header.offset_view() + 8 + r.acting_block_length_view(),
    {
        let mut header = header;
        proof {
            header.buf().lemma_len();
        }
        let acting_block_length = header.block_length();
        let acting_version = header.version();
        let offset = header.offset() + crate::message_header_codec::ENCODED_LENGTH;
        self.wrap(header.parent().unwrap(), offset, acting_block_length, acting_version)
    }

    /// `commissionExponent`: an `i8` at byte 0 of the block.
    pub fn commission_exponent(&self) -> (r: i8)
        requires
            self.offset_view() + 1 <= self.buf()@.len(),
        ensures
            r == read_i8(self.buf()@, self.offset_view() as int),
    {
        proof {
            self.buf().lemma_len();
        }
        self.get_buf().get_i8_at(self.offset)
    }

    /// `discountExponent`: an `i8` at byte 1 of the block.
    pub fn discount_exponent(&self) -> (r: i8)
        requires
            self.offset_view() + 2 <= self.buf()@.len(),
        ensures
            r == read_i8(self.buf()@, self.offset_view() + 1),
    {
        proof {
            self.buf().lemma_len();
        }
        self.get_buf().get_i8_at(self.offset + 1)
    }

    /// `standardCommissionMaker`: an `i64` at byte 2 of the block.
    pub fn standard_commission_maker(&self) -> (r: i64)
        requires
            self.offset_view() + 10 <= self.buf()@.len(),
        ensures
            r == read_i64(self.buf()@, self.offset_view() + 2),
    {
        proof {
            self.buf().lemma_len();
        }
        self.get_buf().get_i64_at(self.offset + 2)
    }

    /// `standardCommissionTaker`: an `i64` at byte 10 of the block.
    pub fn standard_commission_taker(&self) -> (r: i64)
        requires
            self.offset_view() + 18 <= self.buf()@.len(),
        ensures
            r == read_i64(self.buf()@, self.offset_view() + 10),
    {
        proof {
            self.buf().lemma_len();
        }
        self.get_buf().get_i64_at(self.offset + 10)
    }

    /// `standardCommissionBuyer`: an `i64` at byte 18 of the block.
    pub fn standard_commission_buyer(&self) -> (r: i64)
        requires
            self.offset_view() + 26 <= self.buf()@.len(),
        ensures
            r == read_i64(self.buf()@, self.offset_view() + 18),
    {
        proof {
            self.buf().lemma_len();
        }
        self.get_buf().get_i64_at(self.offset + 18)
    }

    /// `standardCommissionSeller`: an `i64` at byte 26 of the block.
    pub fn standard_commission_seller(&self) -> (r: i64)
        requires
            self.offset_view() + 34 <= self.buf()@.len(),
        ensures
            r == read_i64(self.buf()@, self.offset_view() + 26),
    {
        proof {
            self.buf().lemma_len();
        }
        self.get_buf().get_i64_at(self.offset + 26)
    }

    /// `taxCommissionMaker`: an `i64` at byte 34 of the block.
    pub fn tax_commission_maker(&self) -> (r: i64)
        requires
            self.offset_view() + 42 <= self.buf()@.len(),
        ensures
            r == read_i64(self.buf()@, self.offset_view() + 34),
    {
        proof {
            self.buf().lemma_len();
        }
        self.get_buf().get_i64_at(self.offset + 34)
    }

    /// `taxCommissionTaker`: an `i64` at byte 42 of the block.
    pub fn tax_commission_taker(&self) -> (r: i64)
        requires
            self.offset_view() + 50 <= self.buf()@.len(),
        ensures
            r == read_i64(self.buf()@, self.offset_view() + 42),
    {
        proof {
            self.buf().lemma_len();
        }
        self.get_buf().get_i64_at(self.offset + 42)
    }

    /// `taxCommissionBuyer`: an `i64` at byte 50 of the block.
    pub fn tax_commission_buyer(&self) -> (r: i64)
        requires
            self.offset_view() + 58 <= self.buf()@.len(),
        ensures
            r == read_i64(self.buf()@, self.offset_view() + 50),
    {
        proof {
            self.buf().lemma_len();
        }
        self.get_buf().get_i64_at(self.offset + 50)
    }

    /// `taxCommissionSeller`: an `i64` at byte 58 of the block.
    pub fn tax_commission_seller(&self) -> (r: i64)
        requires
            self.offset_view() + 66 <= self.buf()@.len(),
        ensures
            r == read_i64(self.buf()@, self.offset_view() + 58),
    {
        proof {
            self.buf().lemma_len();
        }
        self.get_buf().get_i64_at(self.offset + 58)
    }

    /// `discountEnabledForAccount`: the code of a `BoolEnum` at byte 66 of the block.
    pub fn discount_enabled_for_account(&self) -> (r: BoolEnum)
        requires
            self.offset_view() + 67 <= self.buf()@.len(),
        ensures
            r == BoolEnum::of_code(read_u8(self.buf()@, self.offset_view() + 66)),
    {
        proof {
            self.buf().lemma_len();
        }
        BoolEnum::from(self.get_buf().get_u8_at(self.offset + 66))
    }

    /// `discountEnabledForSymbol`: the code of a `BoolEnum` at byte 67 of the block.
    pub fn discount_enabled_for_symbol(&self) -> (r: BoolEnum)
        requires
            self.offset_view() + 68 <= self.buf()@.len(),
        ensures
            r == BoolEnum::of_code(read_u8(self.buf()@, self.offset_view() + 67)),
    {
        proof {
            self.buf().lemma_len();
        }
        BoolEnum::from(self.get_buf().get_u8_at(self.offset + 67))
    }

    /// `discount`: an `i64` at byte 68 of the block.
    pub fn discount(&self) -> (r: i64)
        requires
            self.offset_view() + 76 <= self.buf()@.len(),
        ensures
            r == read_i64(self.buf()@, self.offset_view() + 68),
    {
        proof {
            self.buf().lemma_len();
        }
        self.get_buf().get_i64_at(self.offset + 68)
    }

    /// `symbol`: where its bytes begin and how many they are, by the `u8`
    /// length at the limit. The limit moves behind them.
    pub fn symbol_decoder(&mut self) -> (r: (usize, usize))
        requires
            old(self).limit_view() + 1 <= old(self).buf()@.len(),
            old(self).limit_view() + 1 + read_u8(old(self).buf()@, old(self).limit_view() as int)
                <= usize::MAX,
        ensures
            r.0 == old(self).limit_view() + 1,
            r.1 == read_u8(old(self).buf()@, old(self).limit_view() as int),
            final(self).placed_as(*old(self), (r.0 + r.1) as usize),
            *final(self) == old(self).with_limit((r.0 + r.1) as usize),
    {
        proof {
            self.buf().lemma_len();
            self.lemma_with_limit();
            self.lemma_frame();
        }
        let offset = self.get_limit();
        let data_length = self.get_buf().get_u8_at(offset) as usize;
        self.set_limit(offset + 1 + data_length);
        (offset + 1, data_length)
    }

    /// The bytes of `symbol` at the coordinates that `symbol_decoder` gave.
    pub fn symbol_slice(&'a self, coordinates: (usize, usize)) -> (r: &'a [u8])
        requires
            coordinates.0 + coordinates.1 <= self.limit_view(),
            coordinates.0 + coordinates.1 <= self.buf()@.len(),
        ensures
            r@ == self.buf()@.subrange(coordinates.0 as int, coordinates.0 + coordinates.1),
    {
        self.get_buf().get_slice_at(coordinates.0, coordinates.1)
    }

    /// `discountAsset`: where its bytes begin and how many they are, by the `u8`
    /// length at the limit. The limit moves behind them.
    pub fn discount_asset_decoder(&mut self) -> (r: (usize, usize))
        requires
            old(self).limit_view() + 1 <= old(self).buf()@.len(),
            old(self).limit_view() + 1 + read_u8(old(self).buf()@, old(self).limit_view() as int)
                <= usize::MAX,
        ensures
            r.0 == old(self).limit_view() + 1,
            r.1 == read_u8(old(self).buf()@, old(self).limit_view() as int),
            final(self).placed_as(*old(self), (r.0 + r.1) as usize),
            *final(self) == old(self).with_limit((r.0 + r.1) as usize),
    {
        proof {
            self.buf().lemma_len();
            self.lemma_with_limit();
            self.lemma_frame();
        }
        let offset = self.get_limit();
        let data_length = self.get_buf().get_u8_at(offset) as usize;
        self.set_limit(offset + 1 + data_length);
        (offset + 1, data_length)
    }

    /// The bytes of `discountAsset` at the coordinates that `discount_asset_decoder` gave.
    pub fn discount_asset_slice(&'a self, coordinates: (usize, usize)) -> (r: &'a [u8])
        requires
            coordinates.0 + coordinates.1 <= self.limit_view(),
            coordinates.0 + coordinates.1 <= self.buf()@.len(),
        ensures
            r@ == self.buf()@.subrange(coordinates.0 as int, coordinates.0 + coordinates.1),
    {
        self.get_buf().get_slice_at(coordinates.0, coordinates.1)
    }
}

} // verus!
