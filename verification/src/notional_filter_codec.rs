//! The message `NotionalFilter`, template 6 of schema 1.
use crate::bool_enum::BoolEnum;
use crate::buffer::{ReadBuf, WriteBuf};
use crate::codec::{Decoder, Encoder, Reader, Writer};
use crate::filter_type::FilterType;
use crate::message_header_codec::{MessageHeaderDecoder, MessageHeaderEncoder, write_header};
use crate::wire::{
    laid, lemma_laid, lemma_next_field, lemma_read_spelled, lemma_read_spelled_unsigned,
    lemma_round_trip_32, lemma_round_trip_64, lemma_round_trip_8, lemma_side_by_side_wider,
    lemma_u32_value, lemma_u64_value, read_i32, read_i64, read_i8, read_u16, read_u8, u32_of,
    u32_to_le, u64_of, u64_to_le, u8_of, write_i32, write_i64, write_i8, write_u8,
};
use vstd::prelude::*;

verus! {

/// The bytes that the fixed block of this message takes.
pub const SBE_BLOCK_LENGTH: u16 = 23;

pub const SBE_TEMPLATE_ID: u16 = 6;

pub const SBE_SCHEMA_ID: u16 = 1;

pub const SBE_SCHEMA_VERSION: u16 = 0;

pub const SBE_SEMANTIC_VERSION: &'static str = "5.2";

#[derive(Debug)]
pub struct NotionalFilterEncoder<'a> {
    buf: WriteBuf<'a>,
    initial_offset: usize,
    offset: usize,
    limit: usize,
}

impl<'a> Default for NotionalFilterEncoder<'a> {
    fn default() -> (r: Self)
        ensures
            r.buf()@.len() == 0,
            r.initial_offset_view() == 0,
            r.offset_view() == 0,
            r.limit_view() == 0,
    {
        Self { buf: WriteBuf::default(), initial_offset: 0, offset: 0, limit: 0 }
    }
}

impl<'a> Writer<'a> for NotionalFilterEncoder<'a> {
    open spec fn buf_ok(&self) -> bool {
        true
    }

    closed spec fn buf(self) -> WriteBuf<'a> {
        self.buf
    }

    closed spec fn with_buf(self, buf: WriteBuf<'a>) -> Self {
        Self { buf, ..self }
    }

    proof fn lemma_with_buf(self) {
    }

    proof fn lemma_resolved(self) {
        self.lemma_buf_resolved();
        self.buf.lemma_resolved();
    }

    fn get_buf_mut(&mut self) -> (r: &mut WriteBuf<'a>) {
        &mut self.buf
    }
}

impl<'a> Encoder<'a> for NotionalFilterEncoder<'a> {
    closed spec fn limit_view(self) -> usize {
        self.limit
    }

    closed spec fn with_limit(self, limit: usize) -> Self {
        Self { limit, ..self }
    }

    proof fn lemma_with_limit(self) {
    }

    fn get_limit(&self) -> (r: usize) {
        self.limit
    }

    fn set_limit(&mut self, limit: usize) {
        self.limit = limit;
    }
}

impl<'a> NotionalFilterEncoder<'a> {
    /// Where nothing writes through this encoder any more, nothing writes
    /// through its buffer.
    proof fn lemma_buf_resolved(self)
        requires
            has_resolved(self),
        ensures
            has_resolved(self.buf),
    {
    }

    pub closed spec fn initial_offset_view(self) -> usize {
        self.initial_offset
    }

    /// Where the fixed block begins.
    pub closed spec fn offset_view(self) -> usize {
        self.offset
    }

    /// This encoder stands where `pre` stood, but for the limit, which is
    /// at `limit` (what the buffer holds may differ).
    pub open spec fn placed_as(self, pre: Self, limit: usize) -> bool {
        &&& self.limit_view() == limit
        &&& self.offset_view() == pre.offset_view()
        &&& self.initial_offset_view() == pre.initial_offset_view()
    }

    /// Exchanging the buffer or the limit leaves the offsets alone.
    pub proof fn lemma_frame(self)
        ensures
            forall|buf: WriteBuf<'a>|
                #![trigger self.with_buf(buf)]
                self.with_buf(buf).offset_view() == self.offset_view() && self.with_buf(
                    buf,
                ).initial_offset_view() == self.initial_offset_view(),
            forall|limit: usize|
                #![trigger self.with_limit(limit)]
                self.with_limit(limit).offset_view() == self.offset_view() && self.with_limit(
                    limit,
                ).initial_offset_view() == self.initial_offset_view(),
    {
    }

    /// Places the encoder over `buf` with its fixed block at `offset`; the
    /// limit stands behind the block.
    pub fn wrap(self, buf: WriteBuf<'a>, offset: usize) -> (r: Self)
        requires
            offset + SBE_BLOCK_LENGTH <= usize::MAX,
        ensures
            r.buf() == buf,
            r.initial_offset_view() == offset,
            r.offset_view() == offset,
            r.limit_view() == offset + SBE_BLOCK_LENGTH,
    {
        let limit = offset + SBE_BLOCK_LENGTH as usize;
        let mut this = self;
        this.buf = buf;
        this.initial_offset = offset;
        this.offset = offset;
        this.limit = limit;
        this
    }

    /// The bytes from the start of the block to the limit.
    pub fn encoded_length(&self) -> (r: usize)
        requires
            self.offset_view() <= self.limit_view(),
        ensures
            r == self.limit_view() - self.offset_view(),
    {
        self.limit - self.offset
    }

    /// Writes the header of this message at `offset` and hands out the
    /// header's encoder, which holds this encoder as its parent.
    pub fn header(self, offset: usize) -> (r: MessageHeaderEncoder<Self>)
        requires
            offset + 8 <= self.buf()@.len(),
        ensures
            r.offset_view() == offset,
            r.parent_view() is Some,
            r.buf()@ == write_header(
                self.buf()@,
                offset as int,
                SBE_BLOCK_LENGTH,
                SBE_TEMPLATE_ID,
                SBE_SCHEMA_ID,
                SBE_SCHEMA_VERSION,
            ),
            r.buf()@.len() == self.buf()@.len(),
            final(r.buf().target())@ == final(self.buf().target())@,
            r.parent_view().unwrap().placed_as(self, self.limit_view()),
            r.parent_view().unwrap() == self.with_buf(r.buf()),
    {
        proof {
            self.buf().lemma_len();
            self.lemma_frame();
        }
        let mut header = MessageHeaderEncoder::default().wrap(self, offset);
        proof {
            header.lemma_frame();
            header.lemma_with_buf();
            self.lemma_with_buf();
        }
        header.block_length(SBE_BLOCK_LENGTH);
        proof {
            header.lemma_frame();
            header.lemma_with_buf();
            header.parent_view().unwrap().lemma_with_buf();
        }
        header.template_id(SBE_TEMPLATE_ID);
        proof {
            header.lemma_frame();
            header.lemma_with_buf();
            header.parent_view().unwrap().lemma_with_buf();
        }
        header.schema_id(SBE_SCHEMA_ID);
        proof {
            header.lemma_frame();
            header.lemma_with_buf();
            header.parent_view().unwrap().lemma_with_buf();
        }
        header.version(SBE_SCHEMA_VERSION);
        header
    }

    /// `priceExponent`: an `i8` at byte 0 of the block.
    pub fn price_exponent(&mut self, value: i8)
        requires
            old(self).offset_view() + 1 <= old(self).buf()@.len(),
        ensures
            final(self).buf()@ == write_i8(old(self).buf()@, old(self).offset_view() as int, value),
            final(self).buf()@.len() == old(self).buf()@.len(),
            final(final(self).buf().target())@ == final(old(self).buf().target())@,
            final(self).placed_as(*old(self), old(self).limit_view()),
            *final(self) == old(self).with_buf(final(self).buf()),
    {
        proof {
            self.buf().lemma_len();
            self.lemma_with_buf();
            self.lemma_frame();
            self.lemma_with_limit();
        }
        let offset = self.offset;
        self.get_buf_mut().put_i8_at(offset, value);
    }

    /// `minNotional`: an `i64` at byte 1 of the block.
    pub fn min_notional(&mut self, value: i64)
        requires
            old(self).offset_view() + 9 <= old(self).buf()@.len(),
        ensures
            final(self).buf()@ == write_i64(old(self).buf()@, old(self).offset_view() + 1, value),
            final(self).buf()@.len() == old(self).buf()@.len(),
            final(final(self).buf().target())@ == final(old(self).buf().target())@,
            final(self).placed_as(*old(self), old(self).limit_view()),
            *final(self) == old(self).with_buf(final(self).buf()),
    {
        proof {
            self.buf().lemma_len();
            self.lemma_with_buf();
            self.lemma_frame();
            self.lemma_with_limit();
        }
        let offset = self.offset + 1;
        self.get_buf_mut().put_i64_at(offset, value);
    }

    /// `applyMinToMarket`: the code of a `BoolEnum` at byte 9 of the block.
    pub fn apply_min_to_market(&mut self, value: BoolEnum)
        requires
            old(self).offset_view() + 10 <= old(self).buf()@.len(),
        ensures
            final(self).buf()@ == write_u8(
                old(self).buf()@,
                old(self).offset_view() + 9,
                value.code_view(),
            ),
            final(self).buf()@.len() == old(self).buf()@.len(),
            final(final(self).buf().target())@ == final(old(self).buf().target())@,
            final(self).placed_as(*old(self), old(self).limit_view()),
            *final(self) == old(self).with_buf(final(self).buf()),
    {
        proof {
            self.buf().lemma_len();
            self.lemma_with_buf();
            self.lemma_frame();
            self.lemma_with_limit();
        }
        let offset = self.offset + 9;
        self.get_buf_mut().put_u8_at(offset, value.code());
    }

    /// `maxNotional`: an `i64` at byte 10 of the block.
    pub fn max_notional(&mut self, value: i64)
        requires
            old(self).offset_view() + 18 <= old(self).buf()@.len(),
        ensures
            final(self).buf()@ == write_i64(old(self).buf()@, old(self).offset_view() + 10, value),
            final(self).buf()@.len() == old(self).buf()@.len(),
            final(final(self).buf().target())@ == final(old(self).buf().target())@,
            final(self).placed_as(*old(self), old(self).limit_view()),
            *final(self) == old(self).with_buf(final(self).buf()),
    {
        proof {
            self.buf().lemma_len();
            self.lemma_with_buf();
            self.lemma_frame();
            self.lemma_with_limit();
        }
        let offset = self.offset + 10;
        self.get_buf_mut().put_i64_at(offset, value);
    }

    /// `applyMaxToMarket`: the code of a `BoolEnum` at byte 18 of the block.
    pub fn apply_max_to_market(&mut self, value: BoolEnum)
        requires
            old(self).offset_view() + 19 <= old(self).buf()@.len(),
        ensures
            final(self).buf()@ == write_u8(
                old(self).buf()@,
                old(self).offset_view() + 18,
                value.code_view(),
            ),
            final(self).buf()@.len() == old(self).buf()@.len(),
            final(final(self).buf().target())@ == final(old(self).buf().target())@,
            final(self).placed_as(*old(self), old(self).limit_view()),
            *final(self) == old(self).with_buf(final(self).buf()),
    {
        proof {
            self.buf().lemma_len();
            self.lemma_with_buf();
            self.lemma_frame();
            self.lemma_with_limit();
        }
        let offset = self.offset + 18;
        self.get_buf_mut().put_u8_at(offset, value.code());
    }

    /// `avgPriceMins`: an `i32` at byte 19 of the block.
    pub fn avg_price_mins(&mut self, value: i32)
        requires
            old(self).offset_view() + 23 <= old(self).buf()@.len(),
        ensures
            final(self).buf()@ == write_i32(old(self).buf()@, old(self).offset_view() + 19, value),
            final(self).buf()@.len() == old(self).buf()@.len(),
            final(final(self).buf().target())@ == final(old(self).buf().target())@,
            final(self).placed_as(*old(self), old(self).limit_view()),
            *final(self) == old(self).with_buf(final(self).buf()),
    {
        proof {
            self.buf().lemma_len();
            self.lemma_with_buf();
            self.lemma_frame();
            self.lemma_with_limit();
        }
        let offset = self.offset + 19;
        self.get_buf_mut().put_i32_at(offset, value);
    }
}

/// The bytes after every fixed field of the block at `base` was set
/// once, in the order of the fields: what the setters make of `s`.
#[verifier::opaque]
pub open spec fn block_written(
    s: Seq<u8>,
    base: int,
    price_exponent: i8,
    min_notional: i64,
    apply_min_to_market: BoolEnum,
    max_notional: i64,
    apply_max_to_market: BoolEnum,
    avg_price_mins: i32,
) -> Seq<u8> {
    let s = write_i8(s, base, price_exponent);
    let s = write_i64(s, base + 1, min_notional);
    let s = write_u8(s, base + 9, apply_min_to_market.code_view());
    let s = write_i64(s, base + 10, max_notional);
    let s = write_u8(s, base + 18, apply_max_to_market.code_view());
    let s = write_i32(s, base + 19, avg_price_mins);
    s
}

/// Every fixed field of the block is read as it was set: the fields
/// lie side by side within the block, and the length is as it was.
pub proof fn lemma_block_round_trip(
    s: Seq<u8>,
    base: int,
    price_exponent: i8,
    min_notional: i64,
    apply_min_to_market: BoolEnum,
    max_notional: i64,
    apply_max_to_market: BoolEnum,
    avg_price_mins: i32,
)
    requires
        0 <= base,
        base + SBE_BLOCK_LENGTH <= s.len(),
    ensures
        ({
            let t = block_written(
                s,
                base,
                price_exponent,
                min_notional,
                apply_min_to_market,
                max_notional,
                apply_max_to_market,
                avg_price_mins,
            );
            &&& t.len() == s.len()
            &&& read_i8(t, base) == price_exponent
            &&& read_i64(t, base + 1) == min_notional
            &&& BoolEnum::of_code(read_u8(t, base + 9)) == apply_min_to_market
            &&& read_i64(t, base + 10) == max_notional
            &&& BoolEnum::of_code(read_u8(t, base + 18)) == apply_max_to_market
            &&& read_i32(t, base + 19) == avg_price_mins
        }),
{
    reveal(block_written);
    let b1 = seq![u8_of(price_exponent)];
    let b2 = u64_to_le(u64_of(min_notional));
    lemma_u64_value(u64_of(min_notional));
    let b3 = seq![apply_min_to_market.code_view()];
    let b4 = u64_to_le(u64_of(max_notional));
    lemma_u64_value(u64_of(max_notional));
    let b5 = seq![apply_max_to_market.code_view()];
    let b6 = u32_to_le(u32_of(avg_price_mins));
    lemma_u32_value(u32_of(avg_price_mins));
    let fields = |k: int|
        if k == 0 {
            (0int, b1)
        } else if k == 1 {
            (1int, b2)
        } else if k == 2 {
            (9int, b3)
        } else if k == 3 {
            (10int, b4)
        } else if k == 4 {
            (18int, b5)
        } else if k == 5 {
            (19int, b6)
        } else {
            (0int, Seq::<u8>::empty())
        };
    lemma_next_field(s, base, fields, 0, 0, 1);
    lemma_next_field(s, base, fields, 1, 1, 9);
    lemma_next_field(s, base, fields, 2, 9, 10);
    lemma_next_field(s, base, fields, 3, 10, 18);
    lemma_next_field(s, base, fields, 4, 18, 19);
    lemma_next_field(s, base, fields, 5, 19, 23);
    lemma_side_by_side_wider(fields, 6, 23, SBE_BLOCK_LENGTH as int);
    let t = laid(s, base, fields, 6);
    lemma_laid(s, base, fields, 6, SBE_BLOCK_LENGTH as int, 0);
    lemma_read_spelled(t, base, price_exponent, 0, 0, 0);
    lemma_laid(s, base, fields, 6, SBE_BLOCK_LENGTH as int, 1);
    lemma_read_spelled(t, base + 1, 0, 0, 0, min_notional);
    lemma_laid(s, base, fields, 6, SBE_BLOCK_LENGTH as int, 2);
    lemma_read_spelled_unsigned(t, base + 9, apply_min_to_market.code_view(), 0, 0, 0);
    BoolEnum::lemma_codes(0, apply_min_to_market);
    lemma_laid(s, base, fields, 6, SBE_BLOCK_LENGTH as int, 3);
    lemma_read_spelled(t, base + 10, 0, 0, 0, max_notional);
    lemma_laid(s, base, fields, 6, SBE_BLOCK_LENGTH as int, 4);
    lemma_read_spelled_unsigned(t, base + 18, apply_max_to_market.code_view(), 0, 0, 0);
    BoolEnum::lemma_codes(0, apply_max_to_market);
    lemma_laid(s, base, fields, 6, SBE_BLOCK_LENGTH as int, 5);
    lemma_read_spelled(t, base + 19, 0, 0, avg_price_mins, 0);
}

/// The block written with what is read from it is as it was, where each code in
/// it is one that the schema declares, or the null code.
pub proof fn lemma_block_written_back(s: Seq<u8>, base: int)
    requires
        0 <= base,
        base + SBE_BLOCK_LENGTH <= s.len(),
        BoolEnum::declared(read_u8(s, base + 9)) || read_u8(s, base + 9) == 255,
        BoolEnum::declared(read_u8(s, base + 18)) || read_u8(s, base + 18) == 255,
    ensures
        block_written(
            s,
            base,
            read_i8(s, base),
            read_i64(s, base + 1),
            BoolEnum::of_code(read_u8(s, base + 9)),
            read_i64(s, base + 10),
            BoolEnum::of_code(read_u8(s, base + 18)),
            read_i32(s, base + 19),
        ) == s,
{
    reveal(block_written);
    lemma_round_trip_8(s, base, 0, 0);
    lemma_round_trip_64(s, base + 1, 0, 0);
    lemma_round_trip_8(s, base + 9, 0, 0);
    BoolEnum::lemma_codes(read_u8(s, base + 9), BoolEnum::NullVal);
    lemma_round_trip_64(s, base + 10, 0, 0);
    lemma_round_trip_8(s, base + 18, 0, 0);
    BoolEnum::lemma_codes(read_u8(s, base + 18), BoolEnum::NullVal);
    lemma_round_trip_32(s, base + 19, 0, 0);
}

#[derive(Clone, Copy, Debug)]
pub struct NotionalFilterDecoder<'a> {
    buf: ReadBuf<'a>,
    initial_offset: usize,
    offset: usize,
    limit: usize,
    pub acting_block_length: u16,
    pub acting_version: u16,
}

impl<'a> Default for NotionalFilterDecoder<'a> {
    fn default() -> (r: Self)
        ensures
            r.buf()@.len() == 0,
            r.initial_offset_view() == 0,
            r.offset_view() == 0,
            r.limit_view() == 0,
            r.acting_block_length_view() == 0,
            r.acting_version_view() == 0,
    {
        Self {
            buf: ReadBuf::default(),
            initial_offset: 0,
            offset: 0,
            limit: 0,
            acting_block_length: 0,
            acting_version: 0,
        }
    }
}

impl<'a> Reader<'a> for NotionalFilterDecoder<'a> {
    open spec fn buf_ok(&self) -> bool {
        true
    }

    closed spec fn buf(self) -> ReadBuf<'a> {
        self.buf
    }

    fn get_buf(&self) -> (r: &ReadBuf<'a>) {
        &self.buf
    }
}

impl<'a> Decoder<'a> for NotionalFilterDecoder<'a> {
    closed spec fn limit_view(self) -> usize {
        self.limit
    }

    closed spec fn with_limit(self, limit: usize) -> Self {
        Self { limit, ..self }
    }

    proof fn lemma_with_limit(self) {
    }

    fn get_limit(&self) -> (r: usize) {
        self.limit
    }

    fn set_limit(&mut self, limit: usize) {
        self.limit = limit;
    }
}

impl<'a> NotionalFilterDecoder<'a> {
    pub closed spec fn initial_offset_view(self) -> usize {
        self.initial_offset
    }

    /// Where the fixed block begins.
    pub closed spec fn offset_view(self) -> usize {
        self.offset
    }

    /// The block length that the sender declared.
    pub closed spec fn acting_block_length_view(self) -> u16 {
        self.acting_block_length
    }

    /// The schema version that the sender declared.
    pub closed spec fn acting_version_view(self) -> u16 {
        self.acting_version
    }

    /// This decoder stands where `pre` stood, but for the limit, which is
    /// at `limit`.
    pub open spec fn placed_as(self, pre: Self, limit: usize) -> bool {
        &&& self.limit_view() == limit
        &&& self.buf() == pre.buf()
        &&& self.offset_view() == pre.offset_view()
        &&& self.initial_offset_view() == pre.initial_offset_view()
        &&& self.acting_block_length_view() == pre.acting_block_length_view()
        &&& self.acting_version_view() == pre.acting_version_view()
    }

    /// Moving the limit leaves all else alone.
    pub proof fn lemma_frame(self)
        ensures
            forall|limit: usize|
                #![trigger self.with_limit(limit)]
                {
                    let w = self.with_limit(limit);
                    &&& w.offset_view() == self.offset_view()
                    &&& w.initial_offset_view() == self.initial_offset_view()
                    &&& w.acting_block_length_view() == self.acting_block_length_view()
                    &&& w.acting_version_view() == self.acting_version_view()
                },
    {
    }

    /// Places the decoder over `buf` with its fixed block at `offset`; the
    /// limit stands behind the block, whose length the sender declared.
    pub fn wrap(
        self,
        buf: ReadBuf<'a>,
        offset: usize,
        acting_block_length: u16,
        acting_version: u16,
    ) -> (r: Self)
        requires
            offset + acting_block_length <= usize::MAX,
        ensures
            r.buf() == buf,
            r.initial_offset_view() == offset,
            r.offset_view() == offset,
            r.limit_view() == offset + acting_block_length,
            r.acting_block_length_view() == acting_block_length,
            r.acting_version_view() == acting_version,
    {
        let limit = offset + acting_block_length as usize;
        let mut this = self;
        this.buf = buf;
        this.initial_offset = offset;
        this.offset = offset;
        this.limit = limit;
        this.acting_block_length = acting_block_length;
        this.acting_version = acting_version;
        this
    }

    /// The bytes from the start of the block to the limit.
    pub fn encoded_length(&self) -> (r: usize)
        requires
            self.offset_view() <= self.limit_view(),
        ensures
            r == self.limit_view() - self.offset_view(),
    {
        self.limit - self.offset
    }

    /// The block length that the sender declared.
    pub fn acting_block_length(&self) -> (r: u16)
        ensures
            r == self.acting_block_length_view(),
    {
        self.acting_block_length
    }

    /// The schema version that the sender declared.
    pub fn acting_version(&self) -> (r: u16)
        ensures
            r == self.acting_version_view(),
    {
        self.acting_version
    }

    /// Takes over from a header that announces this message: the decoder
    /// stands behind the header, on the header's buffer, with the block
    /// length and version that the header declares.
    pub fn header(self, header: MessageHeaderDecoder<ReadBuf<'a>>) -> (r: Self)
        requires
            header.buf_ok(),
            header.offset_view() + 8 <= header.buf()@.len(),
            read_u16(header.buf()@, header.offset_view() + 2) == SBE_TEMPLATE_ID,
            header.offset_view() + 8 + read_u16(header.buf()@, header.offset_view() as int)
                <= usize::MAX,
        ensures
            r.buf() == header.buf(),
            r.initial_offset_view() == header.offset_view() + 8,
            r.offset_view() == header.offset_view() + 8,
            r.acting_block_length_view() == read_u16(header.buf()@, header.offset_view() as int),
            r.acting_version_view() == read_u16(header.buf()@, header.offset_view() + 6),
            r.limit_view() == header.offset_view() + 8 + r.acting_block_length_view(),
    {
        let mut header = header;
        proof {
            header.buf().lemma_len();
        }
        let acting_block_length = header.block_length();
        let acting_version = header.version();
        let offset = header.offset() + crate::message_header_codec::ENCODED_LENGTH;
        self.wrap(header.parent().unwrap(), offset, acting_block_length, acting_version)
    }

    /// `filterType`: the same in every message of this kind, and not on the wire.
    pub fn filter_type(&self) -> (r: FilterType)
        ensures
            r == FilterType::Notional,
    {
        FilterType::Notional
    }

    /// `priceExponent`: an `i8` at byte 0 of the block.
    pub fn price_exponent(&self) -> (r: i8)
        requires
            self.offset_view() + 1 <= self.buf()@.len(),
        ensures
            r == read_i8(self.buf()@, self.offset_view() as int),
    {
        proof {
            self.buf().lemma_len();
        }
        self.get_buf().get_i8_at(self.offset)
    }

    /// `minNotional`: an `i64` at byte 1 of the block.
    pub fn min_notional(&self) -> (r: i64)
        requires
            self.offset_view() + 9 <= self.buf()@.len(),
        ensures
            r == read_i64(self.buf()@, self.offset_view() + 1),
    {
        proof {
            self.buf().lemma_len();
        }
        self.get_buf().get_i64_at(self.offset + 1)
    }

    /// `applyMinToMarket`: the code of a `BoolEnum` at byte 9 of the block.
    pub fn apply_min_to_market(&self) -> (r: BoolEnum)
        requires
            self.offset_view() + 10 <= self.buf()@.len(),
        ensures
            r == BoolEnum::of_code(read_u8(self.buf()@, self.offset_view() + 9)),
    {
        proof {
            self.buf().lemma_len();
        }
        BoolEnum::from(self.get_buf().get_u8_at(self.offset + 9))
    }

    /// `maxNotional`: an `i64` at byte 10 of the block.
    pub fn max_notional(&self) -> (r: i64)
        requires
            self.offset_view() + 18 <= self.buf()@.len(),
        ensures
            r == read_i64(self.buf()@, self.offset_view() + 10),
    {
        proof {
            self.buf().lemma_len();
        }
        self.get_buf().get_i64_at(self.offset + 10)
    }

    /// `applyMaxToMarket`: the code of a `BoolEnum` at byte 18 of the block.
    pub fn apply_max_to_market(&self) -> (r: BoolEnum)
        requires
            self.offset_view() + 19 <= self.buf()@.len(),
        ensures
            r == BoolEnum::of_code(read_u8(self.buf()@, self.offset_view() + 18)),
    {
        proof {
            self.buf().lemma_len();
        }
        BoolEnum::from(self.get_buf().get_u8_at(self.offset + 18))
    }

    /// `avgPriceMins`: an `i32` at byte 19 of the block.
    pub fn avg_price_mins(&self) -> (r: i32)
        requires
            self.offset_view() + 23 <= self.buf()@.len(),
        ensures
            r == read_i32(self.buf()@, self.offset_view() + 19),
    {
        proof {
            self.buf().lemma_len();
        }
        self.get_buf().get_i32_at(self.offset + 19)
    }
}

} // verus!
