//! The message `ErrorResponse`, template 100 of schema 1.
use crate::buffer::{ReadBuf, WriteBuf};
use crate::codec::{Decoder, Encoder, Reader, Writer};
use crate::message_header_codec::{MessageHeaderDecoder, MessageHeaderEncoder, write_header};
use crate::wire::{
    absent_if, laid, lemma_laid, lemma_next_field, lemma_read_spelled, lemma_round_trip_16,
    lemma_round_trip_64, lemma_side_by_side_wider, lemma_u16_value, lemma_u64_value, read_i16,
    read_i64, read_u16, read_u32, u16_of, u16_to_le, u64_of, u64_to_le, write_i16, write_i64,
    write_var_u16, write_var_u32,
};
use vstd::string::StringSliceAdditionalSpecFns;
use vstd::prelude::*;

verus! {

/// The bytes that the fixed block of this message takes.
pub const SBE_BLOCK_LENGTH: u16 = 18;

pub const SBE_TEMPLATE_ID: u16 = 100;

pub const SBE_SCHEMA_ID: u16 = 1;

pub const SBE_SCHEMA_VERSION: u16 = 0;

pub const SBE_SEMANTIC_VERSION: &'static str = "5.2";

#[derive(Debug)]
pub struct ErrorResponseEncoder<'a> {
    buf: WriteBuf<'a>,
    initial_offset: usize,
    offset: usize,
    limit: usize,
}

impl<'a> Default for ErrorResponseEncoder<'a> {
    fn default() -> (r: Self)
        ensures
            r.buf()@.len() == 0,
            r.initial_offset_view() == 0,
            r.offset_view() == 0,
            r.limit_view() == 0,
    {
        Self { buf: WriteBuf::default(), initial_offset: 0, offset: 0, limit: 0 }
    }
}

impl<'a> Writer<'a> for ErrorResponseEncoder<'a> {
    open spec fn buf_ok(&self) -> bool {
        true
    }

    closed spec fn buf(self) -> WriteBuf<'a> {
        self.buf
    }

    closed spec fn with_buf(self, buf: WriteBuf<'a>) -> Self {
        Self { buf, ..self }
    }

    proof fn lemma_with_buf(self) {
    }

    proof fn lemma_resolved(self) {
        self.lemma_buf_resolved();
        self.buf.lemma_resolved();
    }

    fn get_buf_mut(&mut self) -> (r: &mut WriteBuf<'a>) {
        &mut self.buf
    }
}

impl<'a> Encoder<'a> for ErrorResponseEncoder<'a> {
    closed spec fn limit_view(self) -> usize {
        self.limit
    }

    closed spec fn with_limit(self, limit: usize) -> Self {
        Self { limit, ..self }
    }

    proof fn lemma_with_limit(self) {
    }

    fn get_limit(&self) -> (r: usize) {
        self.limit
    }

    fn set_limit(&mut self, limit: usize) {
        self.limit = limit;
    }
}

impl<'a> ErrorResponseEncoder<'a> {
    /// Where nothing writes through this encoder any more, nothing writes
    /// through its buffer.
    proof fn lemma_buf_resolved(self)
        requires
            has_resolved(self),
        ensures
            has_resolved(self.buf),
    {
    }

    pub closed spec fn initial_offset_view(self) -> usize {
        self.initial_offset
    }

    /// Where the fixed block begins.
    pub closed spec fn offset_view(self) -> usize {
        self.offset
    }

    /// This encoder stands where `pre` stood, but for the limit, which is
    /// at `limit` (what the buffer holds may differ).
    pub open spec fn placed_as(self, pre: Self, limit: usize) -> bool {
        &&& self.limit_view() == limit
        &&& self.offset_view() == pre.offset_view()
        &&& self.initial_offset_view() == pre.initial_offset_view()
    }

    /// Exchanging the buffer or the limit leaves the offsets alone.
    pub proof fn lemma_frame(self)
        ensures
            forall|buf: WriteBuf<'a>|
                #![trigger self.with_buf(buf)]
                self.with_buf(buf).offset_view() == self.offset_view() && self.with_buf(
                    buf,
                ).initial_offset_view() == self.initial_offset_view(),
            forall|limit: usize|
                #![trigger self.with_limit(limit)]
                self.with_limit(limit).offset_view() == self.offset_view() && self.with_limit(
                    limit,
                ).initial_offset_view() == self.initial_offset_view(),
    {
    }

    /// Places the encoder over `buf` with its fixed block at `offset`; the
    /// limit stands behind the block.
    pub fn wrap(self, buf: WriteBuf<'a>, offset: usize) -> (r: Self)
        requires
            offset + SBE_BLOCK_LENGTH <= usize::MAX,
        ensures
            r.buf() == buf,
            r.initial_offset_view() == offset,
            r.offset_view() == offset,
            r.limit_view() == offset + SBE_BLOCK_LENGTH,
    {
        let limit = offset + SBE_BLOCK_LENGTH as usize;
        let mut this = self;
        this.buf = buf;
        this.initial_offset = offset;
        this.offset = offset;
        this.limit = limit;
        this
    }

    /// The bytes from the start of the block to the limit.
    pub fn encoded_length(&self) -> (r: usize)
        requires
            self.offset_view() <= self.limit_view(),
        ensures
            r == self.limit_view() - self.offset_view(),
    {
        self.limit - self.offset
    }

    /// Writes the header of this message at `offset` and hands out the
    /// header's encoder, which holds this encoder as its parent.
    pub fn header(self, offset: usize) -> (r: MessageHeaderEncoder<Self>)
        requires
            offset + 8 <= self.buf()@.len(),
        ensures
            r.offset_view() == offset,
            r.parent_view() is Some,
            r.buf()@ == write_header(
                self.buf()@,
                offset as int,
                SBE_BLOCK_LENGTH,
                SBE_TEMPLATE_ID,
                SBE_SCHEMA_ID,
                SBE_SCHEMA_VERSION,
            ),
            r.buf()@.len() == self.buf()@.len(),
            final(r.buf().target())@ == final(self.buf().target())@,
            r.parent_view().unwrap().placed_as(self, self.limit_view()),
            r.parent_view().unwrap() == self.with_buf(r.buf()),
    {
        proof {
            self.buf().lemma_len();
            self.lemma_frame();
        }
        let mut header = MessageHeaderEncoder::default().wrap(self, offset);
        proof {
            header.lemma_frame();
            header.lemma_with_buf();
            self.lemma_with_buf();
        }
        header.block_length(SBE_BLOCK_LENGTH);
        proof {
            header.lemma_frame();
            header.lemma_with_buf();
            header.parent_view().unwrap().lemma_with_buf();
        }
        header.template_id(SBE_TEMPLATE_ID);
        proof {
            header.lemma_frame();
            header.lemma_with_buf();
            header.parent_view().unwrap().lemma_with_buf();
        }
        header.schema_id(SBE_SCHEMA_ID);
        proof {
            header.lemma_frame();
            header.lemma_with_buf();
            header.parent_view().unwrap().lemma_with_buf();
        }
        header.version(SBE_SCHEMA_VERSION);
        header
    }

    /// `code`: an `i16` at byte 0 of the block.
    pub fn code(&mut self, value: i16)
        requires
            old(self).offset_view() + 2 <= old(self).buf()@.len(),
        ensures
            final(self).buf()@ == write_i16(
                old(self).buf()@,
                old(self).offset_view() as int,
                value,
            ),
            final(self).buf()@.len() == old(self).buf()@.len(),
            final(final(self).buf().target())@ == final(old(self).buf().target())@,
            final(self).placed_as(*old(self), old(self).limit_view()),
            *final(self) == old(self).with_buf(final(self).buf()),
    {
        proof {
            self.buf().lemma_len();
            self.lemma_with_buf();
            self.lemma_frame();
            self.lemma_with_limit();
        }
        let offset = self.offset;
        self.get_buf_mut().put_i16_at(offset, value);
    }

    /// `serverTime`: an `i64` at byte 2 of the block.
    pub fn server_time(&mut self, value: i64)
        requires
            old(self).offset_view() + 10 <= old(self).buf()@.len(),
        ensures
            final(self).buf()@ == write_i64(old(self).buf()@, old(self).offset_view() + 2, value),
            final(self).buf()@.len() == old(self).buf()@.len(),
            final(final(self).buf().target())@ == final(old(self).buf().target())@,
            final(self).placed_as(*old(self), old(self).limit_view()),
            *final(self) == old(self).with_buf(final(self).buf()),
    {
        proof {
            self.buf().lemma_len();
            self.lemma_with_buf();
            self.lemma_frame();
            self.lemma_with_limit();
        }
        let offset = self.offset + 2;
        self.get_buf_mut().put_i64_at(offset, value);
    }

    /// `retryAfter`: an `i64` at byte 10 of the block.
    pub fn retry_after(&mut self, value: i64)
        requires
            old(self).offset_view() + 18 <= old(self).buf()@.len(),
        ensures
            final(self).buf()@ == write_i64(old(self).buf()@, old(self).offset_view() + 10, value),
            final(self).buf()@.len() == old(self).buf()@.len(),
            final(final(self).buf().target())@ == final(old(self).buf().target())@,
            final(self).placed_as(*old(self), old(self).limit_view()),
            *final(self) == old(self).with_buf(final(self).buf()),
    {
        proof {
            self.buf().lemma_len();
            self.lemma_with_buf();
            self.lemma_frame();
            self.lemma_with_limit();
        }
        let offset = self.offset + 10;
        self.get_buf_mut().put_i64_at(offset, value);
    }

    /// `msg`: text behind a `u16` length, appended at the limit.
    /// A length that the prefix cannot hold is cut to its low bits.
    pub fn msg(&mut self, value: &str)
        requires
            old(self).limit_view() + 2 + value.spec_bytes().len() <= old(self).buf()@.len(),
        ensures
            final(self).buf()@ == write_var_u16(
                old(self).buf()@,
                old(self).limit_view() as int,
                value.spec_bytes(),
            ),
            final(self).buf()@.len() == old(self).buf()@.len(),
            final(final(self).buf().target())@ == final(old(self).buf().target())@,
            final(self).placed_as(
                *old(self),
                (old(self).limit_view() + 2 + value.spec_bytes().len()) as usize,
            ),
            *final(self) == old(self).with_limit(
                (old(self).limit_view() + 2 + value.spec_bytes().len()) as usize,
            ).with_buf(final(self).buf()),
    {
        proof {
            self.buf().lemma_len();
            self.lemma_with_buf();
            self.lemma_with_limit();
            self.lemma_frame();
        }
        let limit = self.get_limit();
        let data_length = value.len();
        self.set_limit(limit + 2 + data_length);
        proof {
            self.lemma_with_buf();
            self.lemma_with_limit();
            self.lemma_frame();
        }
        self.get_buf_mut().put_u16_at(limit, #[verifier::truncate] (data_length as u16));
        proof {
            self.lemma_with_buf();
            self.lemma_with_limit();
            self.lemma_frame();
        }
        self.get_buf_mut().put_slice_at(limit + 2, value.as_bytes());
    }

    /// `data`: bytes behind a `u32` length, appended at the limit.
    /// A length that the prefix cannot hold is cut to its low bits.
    pub fn data(&mut self, value: &[u8])
        requires
            old(self).limit_view() + 4 + value@.len() <= old(self).buf()@.len(),
        ensures
            final(self).buf()@ == write_var_u32(
                old(self).buf()@,
                old(self).limit_view() as int,
                value@,
            ),
            final(self).buf()@.len() == old(self).buf()@.len(),
            final(final(self).buf().target())@ == final(old(self).buf().target())@,
            final(self).placed_as(
                *old(self),
                (old(self).limit_view() + 4 + value@.len()) as usize,
            ),
            *final(self) == old(self).with_limit(
                (old(self).limit_view() + 4 + value@.len()) as usize,
            ).with_buf(final(self).buf()),
    {
        proof {
            self.buf().lemma_len();
            self.lemma_with_buf();
            self.lemma_with_limit();
            self.lemma_frame();
        }
        let limit = self.get_limit();
        let data_length = value.len();
        self.set_limit(limit + 4 + data_length);
        proof {
            self.lemma_with_buf();
            self.lemma_with_limit();
            self.lemma_frame();
        }
        self.get_buf_mut().put_u32_at(limit, #[verifier::truncate] (data_length as u32));
        proof {
            self.lemma_with_buf();
            self.lemma_with_limit();
            self.lemma_frame();
        }
        self.get_buf_mut().put_slice_at(limit + 4, value);
    }
}

/// The bytes after every fixed field of the block at `base` was set
/// once, in the order of the fields: what the setters make of `s`.
#[verifier::opaque]
pub open spec fn block_written(
    s: Seq<u8>,
    base: int,
    code: i16,
    server_time: i64,
    retry_after: i64,
) -> Seq<u8> {
    let s = write_i16(s, base, code);
    let s = write_i64(s, base + 2, server_time);
    let s = write_i64(s, base + 10, retry_after);
    s
}

/// Every fixed field of the block is read as it was set: the fields
/// lie side by side within the block, and the length is as it was.
pub proof fn lemma_block_round_trip(
    s: Seq<u8>,
    base: int,
    code: i16,
    server_time: i64,
    retry_after: i64,
)
    requires
        0 <= base,
        base + SBE_BLOCK_LENGTH <= s.len(),
    ensures
        ({
            let t = block_written(s, base, code, server_time, retry_after);
            &&& t.len() == s.len()
            &&& read_i16(t, base) == code
            &&& read_i64(t, base + 2) == server_time
            &&& read_i64(t, base + 10) == retry_after
        }),
{
    reveal(block_written);
    let b1 = u16_to_le(u16_of(code));
    lemma_u16_value(u16_of(code));
    let b2 = u64_to_le(u64_of(server_time));
    lemma_u64_value(u64_of(server_time));
    let b3 = u64_to_le(u64_of(retry_after));
    lemma_u64_value(u64_of(retry_after));
    let fields = |k: int|
        if k == 0 {
            (0int, b1)
        } else if k == 1 {
            (2int, b2)
        } else if k == 2 {
            (10int, b3)
        } else {
            (0int, Seq::<u8>::empty())
        };
    lemma_next_field(s, base, fields, 0, 0, 2);
    lemma_next_field(s, base, fields, 1, 2, 10);
    lemma_next_field(s, base, fields, 2, 10, 18);
    lemma_side_by_side_wider(fields, 3, 18, SBE_BLOCK_LENGTH as int);
    let t = laid(s, base, fields, 3);
    lemma_laid(s, base, fields, 3, SBE_BLOCK_LENGTH as int, 0);
    lemma_read_spelled(t, base, 0, code, 0, 0);
    lemma_laid(s, base, fields, 3, SBE_BLOCK_LENGTH as int, 1);
    lemma_read_spelled(t, base + 2, 0, 0, 0, server_time);
    lemma_laid(s, base, fields, 3, SBE_BLOCK_LENGTH as int, 2);
    lemma_read_spelled(t, base + 10, 0, 0, 0, retry_after);
}

/// The block written with what is read from it is as it was.
pub proof fn lemma_block_written_back(s: Seq<u8>, base: int)
    requires
        0 <= base,
        base + SBE_BLOCK_LENGTH <= s.len(),

    ensures
        block_written(
            s,
            base,
            read_i16(s, base),
            read_i64(s, base + 2),
            read_i64(s, base + 10),
        ) == s,
{
    reveal(block_written);
    lemma_round_trip_16(s, base, 0, 0);
    lemma_round_trip_64(s, base + 2, 0, 0);
    lemma_round_trip_64(s, base + 10, 0, 0);
}

#[derive(Clone, Copy, Debug)]
pub struct ErrorResponseDecoder<'a> {
    buf: ReadBuf<'a>,
    initial_offset: usize,
    offset: usize,
    limit: usize,
    pub acting_block_length: u16,
    pub acting_version: u16,
}

impl<'a> Default for ErrorResponseDecoder<'a> {
    fn default() -> (r: Self)
        ensures
            r.buf()@.len() == 0,
            r.initial_offset_view() == 0,
            r.offset_view() == 0,
            r.limit_view() == 0,
            r.acting_block_length_view() == 0,
            r.acting_version_view() == 0,
    {
        Self {
            buf: ReadBuf::default(),
            initial_offset: 0,
            offset: 0,
            limit: 0,
            acting_block_length: 0,
            acting_version: 0,
        }
    }
}

impl<'a> Reader<'a> for ErrorResponseDecoder<'a> {
    open spec fn buf_ok(&self) -> bool {
        true
    }

    closed spec fn buf(self) -> ReadBuf<'a> {
        self.buf
    }

    fn get_buf(&self) -> (r: &ReadBuf<'a>) {
        &self.buf
    }
}

impl<'a> Decoder<'a> for ErrorResponseDecoder<'a> {
    closed spec fn limit_view(self) -> usize {
        self.limit
    }

    closed spec fn with_limit(self, limit: usize) -> Self {
        Self { limit, ..self }
    }

    proof fn lemma_with_limit(self) {
    }

    fn get_limit(&self) -> (r: usize) {
        self.limit
    }

    fn set_limit(&mut self, limit: usize) {
        self.limit = limit;
    }
}

impl<'a> ErrorResponseDecoder<'a> {
    pub closed spec fn initial_offset_view(self) -> usize {
        self.initial_offset
    }

    /// Where the fixed block begins.
    pub closed spec fn offset_view(self) -> usize {
        self.offset
    }

    /// The block length that the sender declared.
    pub closed spec fn acting_block_length_view(self) -> u16 {
        self.acting_block_length
    }

    /// The schema version that the sender declared.
    pub closed spec fn acting_version_view(self) -> u16 {
        self.acting_version
    }

    /// This decoder stands where `pre` stood, but for the limit, which is
    /// at `limit`.
    pub open spec fn placed_as(self, pre: Self, limit: usize) -> bool {
        &&& self.limit_view() == limit
        &&& self.buf() == pre.buf()
        &&& self.offset_view() == pre.offset_view()
        &&& self.initial_offset_view() == pre.initial_offset_view()
        &&& self.acting_block_length_view() == pre.acting_block_length_view()
        &&& self.acting_version_view() == pre.acting_version_view()
    }

    /// Moving the limit leaves all else alone.
    pub proof fn lemma_frame(self)
        ensures
            forall|limit: usize|
                #![trigger self.with_limit(limit)]
                {
                    let w = self.with_limit(limit);
                    &&& w.offset_view() == self.offset_view()
                    &&& w.initial_offset_view() == self.initial_offset_view()
                    &&& w.acting_block_length_view() == self.acting_block_length_view()
                    &&& w.acting_version_view() == self.acting_version_view()
                },
    {
    }

    /// Places the decoder over `buf` with its fixed block at `offset`; the
    /// limit stands behind the block, whose length the sender declared.
    pub fn wrap(
        self,
        buf: ReadBuf<'a>,
        offset: usize,
        acting_block_length: u16,
        acting_version: u16,
    ) -> (r: Self)
        requires
            offset + acting_block_length <= usize::MAX,
        ensures
            r.buf() == buf,
            r.initial_offset_view() == offset,
            r.offset_view() == offset,
            r.limit_view() == offset + acting_block_length,
            r.acting_block_length_view() == acting_block_length,
            r.acting_version_view() == acting_version,
    {
        let limit = offset + acting_block_length as usize;
        let mut this = self;
        this.buf = buf;
        this.initial_offset = offset;
        this.offset = offset;
        this.limit = limit;
        this.acting_block_length = acting_block_length;
        this.acting_version = acting_version;
        this
    }

    /// The bytes from the start of the block to the limit.
    pub fn encoded_length(&self) -> (r: usize)
        requires
            self.offset_view() <= self.limit_view(),
        ensures
            r == self.limit_view() - self.offset_view(),
    {
        self.limit - self.offset
    }

    /// The block length that the sender declared.
    pub fn acting_block_length(&self) -> (r: u16)
        ensures
            r == self.acting_block_length_view(),
    {
        self.acting_block_length
    }

    /// The schema version that the sender declared.
    pub fn acting_version(&self) -> (r: u16)
        ensures
            r == self.acting_version_view(),
    {
        self.acting_version
    }

    /// Takes over from a header that announces this message: the decoder
    /// stands behind the header, on the header's buffer, with the block
    /// length and version that the header declares.
    pub fn header(self, header: MessageHeaderDecoder<ReadBuf<'a>>) -> (r: Self)
        requires
            header.buf_ok(),
            header.offset_view() + 8 <= header.buf()@.len(),
            read_u16(header.buf()@, header.offset_view() + 2) == SBE_TEMPLATE_ID,
            header.offset_view() + 8 + read_u16(header.buf()@, header.offset_view() as int)
                <= usize::MAX,
        ensures
            r.buf() == header.buf(),
            r.initial_offset_view() == header.offset_view() + 8,
            r.offset_view() == header.offset_view() + 8,
            r.acting_block_length_view() == read_u16(header.buf()@, header.offset_view() as int),
            r.acting_version_view() == read_u16(header.buf()@, header.offset_view() + 6),
            r.limit_view() == header.offset_view() + 8 + r.acting_block_length_view(),
    {
        let mut header = header;
        proof {
            header.buf().lemma_len();
        }
        let acting_block_length = header.block_length();
        let acting_version = header.version();
        let offset = header.offset() + crate::message_header_codec::ENCODED_LENGTH;
        self.wrap(header.parent().unwrap(), offset, acting_block_length, acting_version)
    }

    /// `code`: an `i16` at byte 0 of the block.
    pub fn code(&self) -> (r: i16)
        requires
            self.offset_view() + 2 <= self.buf()@.len(),
        ensures
            r == read_i16(self.buf()@, self.offset_view() as int),
    {
        proof {
            self.buf().lemma_len();
        }
        self.get_buf().get_i16_at(self.offset)
    }

    /// `serverTime`: an `i64` at byte 2 of the block.
    /// The least value of the type stands for an absent field.
    pub fn server_time(&self) -> (r: Option<i64>)
        requires
            self.offset_view() + 10 <= self.buf()@.len(),
        ensures
            r == absent_if(read_i64(self.buf()@, self.offset_view() + 2), i64::MIN),
    {
        proof {
            self.buf().lemma_len();
        }
        let value = self.get_buf().get_i64_at(self.offset + 2);
        if value == i64::MIN {
            None
        } else {
            Some(value)
        }
    }

    /// `retryAfter`: an `i64` at byte 10 of the block.
    /// The least value of the type stands for an absent field.
    pub fn retry_after(&self) -> (r: Option<i64>)
        requires
            self.offset_view() + 18 <= self.buf()@.len(),
        ensures
            r == absent_if(read_i64(self.buf()@, self.offset_view() + 10), i64::MIN),
    {
        proof {
            self.buf().lemma_len();
        }
        let value = self.get_buf().get_i64_at(self.offset + 10);
        if value == i64::MIN {
            None
        } else {
            Some(value)
        }
    }

    /// `msg`: where its bytes begin and how many they are, by the `u16`
    /// length at the limit. The limit moves behind them.
    pub fn msg_decoder(&mut self) -> (r: (usize, usize))
        requires
            old(self).limit_view() + 2 <= old(self).buf()@.len(),
            old(self).limit_view() + 2 + read_u16(old(self).buf()@, old(self).limit_view() as int)
                <= usize::MAX,
        ensures
            r.0 == old(self).limit_view() + 2,
            r.1 == read_u16(old(self).buf()@, old(self).limit_view() as int),
            final(self).placed_as(*old(self), (r.0 + r.1) as usize),
            *final(self) == old(self).with_limit((r.0 + r.1) as usize),
    {
        proof {
            self.buf().lemma_len();
            self.lemma_with_limit();
            self.lemma_frame();
        }
        let offset = self.get_limit();
        let data_length = self.get_buf().get_u16_at(offset) as usize;
        self.set_limit(offset + 2 + data_length);
        (offset + 2, data_length)
    }

    /// The bytes of `msg` at the coordinates that `msg_decoder` gave.
    pub fn msg_slice(&'a self, coordinates: (usize, usize)) -> (r: &'a [u8])
        requires
            coordinates.0 + coordinates.1 <= self.limit_view(),
            coordinates.0 + coordinates.1 <= self.buf()@.len(),
        ensures
            r@ == self.buf()@.subrange(coordinates.0 as int, coordinates.0 + coordinates.1),
    {
        self.get_buf().get_slice_at(coordinates.0, coordinates.1)
    }

    /// `data`: where its bytes begin and how many they are, by the `u32`
    /// length at the limit. The limit moves behind them.
    pub fn data_decoder(&mut self) -> (r: (usize, usize))
        requires
            old(self).limit_view() + 4 <= old(self).buf()@.len(),
            old(self).limit_view() + 4 + read_u32(old(self).buf()@, old(self).limit_view() as int)
                <= usize::MAX,
        ensures
            r.0 == old(self).limit_view() + 4,
            r.1 == read_u32(old(self).buf()@, old(self).limit_view() as int),
            final(self).placed_as(*old(self), (r.0 + r.1) as usize),
            *final(self) == old(self).with_limit((r.0 + r.1) as usize),
    {
        proof {
            self.buf().lemma_len();
            self.lemma_with_limit();
            self.lemma_frame();
        }
        let offset = self.get_limit();
        let data_length = self.get_buf().get_u32_at(offset) as usize;
        self.set_limit(offset + 4 + data_length);
        (offset + 4, data_length)
    }

    /// The bytes of `data` at the coordinates that `data_decoder` gave.
    pub fn data_slice(&'a self, coordinates: (usize, usize)) -> (r: &'a [u8])
        requires
            coordinates.0 + coordinates.1 <= self.limit_view(),
            coordinates.0 + coordinates.1 <= self.buf()@.len(),
        ensures
            r@ == self.buf()@.subrange(coordinates.0 as int, coordinates.0 + coordinates.1),
    {
        self.get_buf().get_slice_at(coordinates.0, coordinates.1)
    }
}

} // verus!
