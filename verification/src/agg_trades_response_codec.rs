//! The message `AggTradesResponse`, template 202 of schema 1.
use crate::bool_enum::BoolEnum;
use crate::buffer::{ReadBuf, WriteBuf};
use crate::codec::{Decoder, Encoder, Reader, SbeErr, SbeResult, Writer};
use crate::group::{Cursor, advance_result, has_next, step};
use crate::message_header_codec::{MessageHeaderDecoder, MessageHeaderEncoder, write_header};
use crate::wire::{
    laid, lemma_group_size_round_trip, lemma_laid, lemma_laid_apart, lemma_next_field,
    lemma_read_spelled, lemma_read_spelled_unsigned, lemma_round_trip_64, lemma_round_trip_8,
    lemma_side_by_side_wider, lemma_u64_value, read_i64, read_i8, read_u16, read_u32, read_u8,
    u64_of, u64_to_le, u8_of, write_group_size, write_i64, write_i8, write_u8,
};
use vstd::prelude::*;

verus! {

/// The bytes that the fixed block of this message takes.
pub const SBE_BLOCK_LENGTH: u16 = 2;

pub const SBE_TEMPLATE_ID: u16 = 202;

pub const SBE_SCHEMA_ID: u16 = 1;

pub const SBE_SCHEMA_VERSION: u16 = 0;

pub const SBE_SEMANTIC_VERSION: &'static str = "5.2";

#[derive(Debug)]
pub struct AggTradesResponseEncoder<'a> {
    buf: WriteBuf<'a>,
    initial_offset: usize,
    offset: usize,
    limit: usize,
}

impl<'a> Default for AggTradesResponseEncoder<'a> {
    fn default() -> (r: Self)
        ensures
            r.buf()@.len() == 0,
            r.initial_offset_view() == 0,
            r.offset_view() == 0,
            r.limit_view() == 0,
    {
        Self { buf: WriteBuf::default(), initial_offset: 0, offset: 0, limit: 0 }
    }
}

impl<'a> Writer<'a> for AggTradesResponseEncoder<'a> {
    open spec fn buf_ok(&self) -> bool {
        true
    }

    closed spec fn buf(self) -> WriteBuf<'a> {
        self.buf
    }

    closed spec fn with_buf(self, buf: WriteBuf<'a>) -> Self {
        Self { buf, ..self }
    }

    proof fn lemma_with_buf(self) {
    }

    proof fn lemma_resolved(self) {
        self.lemma_buf_resolved();
        self.buf.lemma_resolved();
    }

    fn get_buf_mut(&mut self) -> (r: &mut WriteBuf<'a>) {
        &mut self.buf
    }
}

impl<'a> Encoder<'a> for AggTradesResponseEncoder<'a> {
    closed spec fn limit_view(self) -> usize {
        self.limit
    }

    closed spec fn with_limit(self, limit: usize) -> Self {
        Self { limit, ..self }
    }

    proof fn lemma_with_limit(self) {
    }

    fn get_limit(&self) -> (r: usize) {
        self.limit
    }

    fn set_limit(&mut self, limit: usize) {
        self.limit = limit;
    }
}

impl<'a> AggTradesResponseEncoder<'a> {
    /// Where nothing writes through this encoder any more, nothing writes
    /// through its buffer.
    proof fn lemma_buf_resolved(self)
        requires
            has_resolved(self),
        ensures
            has_resolved(self.buf),
    {
    }

    pub closed spec fn initial_offset_view(self) -> usize {
        self.initial_offset
    }

    /// Where the fixed block begins.
    pub closed spec fn offset_view(self) -> usize {
        self.offset
    }

    /// This encoder stands where `pre` stood, but for the limit, which is
    /// at `limit` (what the buffer holds may differ).
    pub open spec fn placed_as(self, pre: Self, limit: usize) -> bool {
        &&& self.limit_view() == limit
        &&& self.offset_view() == pre.offset_view()
        &&& self.initial_offset_view() == pre.initial_offset_view()
    }

    /// Exchanging the buffer or the limit leaves the offsets alone.
    pub proof fn lemma_frame(self)
        ensures
            forall|buf: WriteBuf<'a>|
                #![trigger self.with_buf(buf)]
                self.with_buf(buf).offset_view() == self.offset_view() && self.with_buf(
                    buf,
                ).initial_offset_view() == self.initial_offset_view(),
            forall|limit: usize|
                #![trigger self.with_limit(limit)]
                self.with_limit(limit).offset_view() == self.offset_view() && self.with_limit(
                    limit,
                ).initial_offset_view() == self.initial_offset_view(),
    {
    }

    /// Places the encoder over `buf` with its fixed block at `offset`; the
    /// limit stands behind the block.
    pub fn wrap(self, buf: WriteBuf<'a>, offset: usize) -> (r: Self)
        requires
            offset + SBE_BLOCK_LENGTH <= usize::MAX,
        ensures
            r.buf() == buf,
            r.initial_offset_view() == offset,
            r.offset_view() == offset,
            r.limit_view() == offset + SBE_BLOCK_LENGTH,
    {
        let limit = offset + SBE_BLOCK_LENGTH as usize;
        let mut this = self;
        this.buf = buf;
        this.initial_offset = offset;
        this.offset = offset;
        this.limit = limit;
        this
    }

    /// The bytes from the start of the block to the limit.
    pub fn encoded_length(&self) -> (r: usize)
        requires
            self.offset_view() <= self.limit_view(),
        ensures
            r == self.limit_view() - self.offset_view(),
    {
        self.limit - self.offset
    }

    /// Writes the header of this message at `offset` and hands out the
    /// header's encoder, which holds this encoder as its parent.
    pub fn header(self, offset: usize) -> (r: MessageHeaderEncoder<Self>)
        requires
            offset + 8 <= self.buf()@.len(),
        ensures
            r.offset_view() == offset,
            r.parent_view() is Some,
            r.buf()@ == write_header(
                self.buf()@,
                offset as int,
                SBE_BLOCK_LENGTH,
                SBE_TEMPLATE_ID,
                SBE_SCHEMA_ID,
                SBE_SCHEMA_VERSION,
            ),
            r.buf()@.len() == self.buf()@.len(),
            final(r.buf().target())@ == final(self.buf().target())@,
            r.parent_view().unwrap().placed_as(self, self.limit_view()),
            r.parent_view().unwrap() == self.with_buf(r.buf()),
    {
        proof {
            self.buf().lemma_len();
            self.lemma_frame();
        }
        let mut header = MessageHeaderEncoder::default().wrap(self, offset);
        proof {
            header.lemma_frame();
            header.lemma_with_buf();
            self.lemma_with_buf();
        }
        header.block_length(SBE_BLOCK_LENGTH);
        proof {
            header.lemma_frame();
            header.lemma_with_buf();
            header.parent_view().unwrap().lemma_with_buf();
        }
        header.template_id(SBE_TEMPLATE_ID);
        proof {
            header.lemma_frame();
            header.lemma_with_buf();
            header.parent_view().unwrap().lemma_with_buf();
        }
        header.schema_id(SBE_SCHEMA_ID);
        proof {
            header.lemma_frame();
            header.lemma_with_buf();
            header.parent_view().unwrap().lemma_with_buf();
        }
        header.version(SBE_SCHEMA_VERSION);
        header
    }

    /// `priceExponent`: an `i8` at byte 0 of the block.
    pub fn price_exponent(&mut self, value: i8)
        requires
            old(self).offset_view() + 1 <= old(self).buf()@.len(),
        ensures
            final(self).buf()@ == write_i8(old(self).buf()@, old(self).offset_view() as int, value),
            final(self).buf()@.len() == old(self).buf()@.len(),
            final(final(self).buf().target())@ == final(old(self).buf().target())@,
            final(self).placed_as(*old(self), old(self).limit_view()),
            *final(self) == old(self).with_buf(final(self).buf()),
    {
        proof {
            self.buf().lemma_len();
            self.lemma_with_buf();
            self.lemma_frame();
            self.lemma_with_limit();
        }
        let offset = self.offset;
        self.get_buf_mut().put_i8_at(offset, value);
    }

    /// `qtyExponent`: an `i8` at byte 1 of the block.
    pub fn qty_exponent(&mut self, value: i8)
        requires
            old(self).offset_view() + 2 <= old(self).buf()@.len(),
        ensures
            final(self).buf()@ == write_i8(old(self).buf()@, old(self).offset_view() + 1, value),
            final(self).buf()@.len() == old(self).buf()@.len(),
            final(final(self).buf().target())@ == final(old(self).buf().target())@,
            final(self).placed_as(*old(self), old(self).limit_view()),
            *final(self) == old(self).with_buf(final(self).buf()),
    {
        proof {
            self.buf().lemma_len();
            self.lemma_with_buf();
            self.lemma_frame();
            self.lemma_with_limit();
        }
        let offset = self.offset + 1;
        self.get_buf_mut().put_i8_at(offset, value);
    }

    /// Opens the group `aggTrades` for `count` elements: writes its size
    /// prefix at the limit and moves the limit behind it.
    pub fn agg_trades_encoder(
        self,
        count: u32,
        agg_trades_encoder: AggTradesEncoder<Self>,
    ) -> (r: AggTradesEncoder<Self>)
        requires
            self.limit_view() + 6 <= self.buf()@.len(),
        ensures
            r.opened(self, count),
            final(r.buf().target())@ == final(self.buf().target())@,
    {
        agg_trades_encoder.wrap(self, count)
    }
}

/// The bytes after every fixed field of the block at `base` was set
/// once, in the order of the fields: what the setters make of `s`.
#[verifier::opaque]
pub open spec fn block_written(
    s: Seq<u8>,
    base: int,
    price_exponent: i8,
    qty_exponent: i8,
) -> Seq<u8> {
    let s = write_i8(s, base, price_exponent);
    let s = write_i8(s, base + 1, qty_exponent);
    s
}

/// Every fixed field of the block is read as it was set: the fields
/// lie side by side within the block, and the length is as it was.
pub proof fn lemma_block_round_trip(
    s: Seq<u8>,
    base: int,
    price_exponent: i8,
    qty_exponent: i8,
)
    requires
        0 <= base,
        base + SBE_BLOCK_LENGTH <= s.len(),
    ensures
        ({
            let t = block_written(s, base, price_exponent, qty_exponent);
            &&& t.len() == s.len()
            &&& read_i8(t, base) == price_exponent
            &&& read_i8(t, base + 1) == qty_exponent
        }),
{
    reveal(block_written);
    let b1 = seq![u8_of(price_exponent)];
    let b2 = seq![u8_of(qty_exponent)];
    let fields = |k: int|
        if k == 0 {
            (0int, b1)
        } else if k == 1 {
            (1int, b2)
        } else {
            (0int, Seq::<u8>::empty())
        };
    lemma_next_field(s, base, fields, 0, 0, 1);
    lemma_next_field(s, base, fields, 1, 1, 2);
    lemma_side_by_side_wider(fields, 2, 2, SBE_BLOCK_LENGTH as int);
    let t = laid(s, base, fields, 2);
    lemma_laid(s, base, fields, 2, SBE_BLOCK_LENGTH as int, 0);
    lemma_read_spelled(t, base, price_exponent, 0, 0, 0);
    lemma_laid(s, base, fields, 2, SBE_BLOCK_LENGTH as int, 1);
    lemma_read_spelled(t, base + 1, qty_exponent, 0, 0, 0);
}

/// The block written with what is read from it is as it was.
pub proof fn lemma_block_written_back(s: Seq<u8>, base: int)
    requires
        0 <= base,
        base + SBE_BLOCK_LENGTH <= s.len(),

    ensures
        block_written(s, base, read_i8(s, base), read_i8(s, base + 1)) == s,
{
    reveal(block_written);
    lemma_round_trip_8(s, base, 0, 0);
    lemma_round_trip_8(s, base + 1, 0, 0);
}

#[derive(Debug)]
pub struct AggTradesEncoder<P> {
    parent: Option<P>,
    count: u32,
    index: usize,
    offset: usize,
    initial_limit: usize,
}

impl<P> Default for AggTradesEncoder<P> {
    fn default() -> (r: Self)
        ensures
            r.parent_view() is None,
            r.count_view() == 0,
            r.index_view() == 0,
            r.offset_view() == 0,
            r.initial_limit_view() == 0,
    {
        Self { parent: None, count: 0, index: 0, offset: 0, initial_limit: 0 }
    }
}

impl<P> AggTradesEncoder<P> {
    /// Where nothing writes through this codec any more, nothing writes
    /// through its parent.
    proof fn lemma_parent_resolved(self)
        requires
            has_resolved(self),
            self.parent is Some,
        ensures
            has_resolved(self.parent->0),
    {
    }

    pub closed spec fn parent_view(self) -> Option<P> {
        self.parent
    }

    pub closed spec fn count_view(self) -> u32 {
        self.count
    }

    pub closed spec fn index_view(self) -> usize {
        self.index
    }

    pub closed spec fn offset_view(self) -> usize {
        self.offset
    }

    pub closed spec fn initial_limit_view(self) -> usize {
        self.initial_limit
    }

    /// This codec over another parent, all else kept.
    pub closed spec fn with_parent(self, parent: Option<P>) -> Self {
        Self { parent, ..self }
    }

    /// This codec at another element, all else kept.
    pub closed spec fn with_position(self, index: usize, offset: usize) -> Self {
        Self { index, offset, ..self }
    }

    /// What the exchanges above keep and what they put.
    pub proof fn lemma_frame(self)
        ensures
            forall|parent: Option<P>|
                #![trigger self.with_parent(parent)]
                {
                    let w = self.with_parent(parent);
                    &&& w.parent_view() == parent
                    &&& w.count_view() == self.count_view()
                    &&& w.index_view() == self.index_view()
                    &&& w.offset_view() == self.offset_view()
                    &&& w.initial_limit_view() == self.initial_limit_view()
                },
            forall|first: Option<P>, second: Option<P>|
                #![trigger self.with_parent(first).with_parent(second)]
                self.with_parent(first).with_parent(second) == self.with_parent(second),
            self.with_parent(self.parent_view()) == self,
            forall|index: usize, offset: usize|
                #![trigger self.with_position(index, offset)]
                {
                    let w = self.with_position(index, offset);
                    &&& w.parent_view() == self.parent_view()
                    &&& w.index_view() == index
                    &&& w.offset_view() == offset
                    &&& w.count_view() == self.count_view()
                    &&& w.initial_limit_view() == self.initial_limit_view()
                },
            forall|parent: Option<P>, index: usize, offset: usize|
                #![trigger self.with_parent(parent).with_position(index, offset)]
                self.with_parent(parent).with_position(index, offset) == self.with_position(
                    index,
                    offset,
                ).with_parent(parent),
    {
    }
}

impl<'a, P> Writer<'a> for AggTradesEncoder<P> where P: Writer<'a> + Default {
    open spec fn buf_ok(&self) -> bool {
        self.parent_view() is Some && self.parent_view().unwrap().buf_ok()
    }

    open spec fn buf(self) -> WriteBuf<'a> {
        self.parent_view().unwrap().buf()
    }

    open spec fn with_buf(self, buf: WriteBuf<'a>) -> Self {
        self.with_parent(Some(self.parent_view().unwrap().with_buf(buf)))
    }

    proof fn lemma_with_buf(self) {
        self.parent_view().unwrap().lemma_with_buf();
        self.lemma_frame();
    }

    proof fn lemma_resolved(self) {
        self.lemma_parent_resolved();
        self.parent_view().unwrap().lemma_resolved();
    }

    fn get_buf_mut(&mut self) -> (r: &mut WriteBuf<'a>) {
        if let Some(parent) = self.parent.as_mut() {
            parent.get_buf_mut()
        } else {
            vstd::pervasive::unreached()
        }
    }
}

impl<'a, P> Encoder<'a> for AggTradesEncoder<P> where P: Encoder<'a> + Default {
    open spec fn limit_view(self) -> usize {
        self.parent_view().unwrap().limit_view()
    }

    open spec fn with_limit(self, limit: usize) -> Self {
        self.with_parent(Some(self.parent_view().unwrap().with_limit(limit)))
    }

    proof fn lemma_with_limit(self) {
        self.parent_view().unwrap().lemma_with_buf();
        self.parent_view().unwrap().lemma_with_limit();
        self.lemma_frame();
    }

    fn get_limit(&self) -> (r: usize) {
        self.parent.as_ref().expect("parent missing").get_limit()
    }

    fn set_limit(&mut self, limit: usize) {
        self.parent.as_mut().expect("parent missing").set_limit(limit);
    }
}

impl<'a, P> AggTradesEncoder<P> where P: Encoder<'a> + Default {
    /// This codec stands where `pre` stood, but for the limit, which is at
    /// `limit` (what the buffer holds may differ).
    pub open spec fn placed_as(self, pre: Self, limit: usize) -> bool {
        &&& self.buf_ok()
        &&& self.limit_view() == limit
        &&& self.count_view() == pre.count_view()
        &&& self.index_view() == pre.index_view()
        &&& self.offset_view() == pre.offset_view()
        &&& self.initial_limit_view() == pre.initial_limit_view()
    }

    /// The bytes that one element's fixed fields take.
    pub open spec fn block_length_view() -> u16 {
        50
    }

    /// Where the walk over the elements stands.
    pub open spec fn cursor(self) -> Cursor {
        Cursor {
            count: self.count_view() as u32,
            index: self.index_view(),
            offset: self.offset_view(),
            block_length: Self::block_length_view() as usize,
            limit: self.limit_view(),
        }
    }

    /// What `wrap` makes of `parent` and `count`: the size prefix is
    /// written at the parent's limit, the limit stands behind it, and the
    /// codec stands before the first element.
    pub open spec fn opened(self, parent: P, count: u32) -> bool {
        &&& self.count_view() == count
        &&& self.index_view() == usize::MAX
        &&& self.offset_view() == usize::MAX
        &&& self.initial_limit_view() == parent.limit_view()
        &&& self.buf_ok()
        &&& self.limit_view() == parent.limit_view() + 6
        &&& self.buf()@ == write_group_size(
            parent.buf()@,
            parent.limit_view() as int,
            Self::block_length_view(),
            count,
        )
        &&& self.buf()@.len() == parent.buf()@.len()
        &&& self.parent_view().unwrap() == parent.with_limit(
            (parent.limit_view() + 6) as usize,
        ).with_buf(self.buf())
    }

    /// Opens the group at the parent's limit for `count` elements.
    pub fn wrap(self, parent: P, count: u32) -> (r: Self)
        requires
            parent.buf_ok(),
            parent.limit_view() + 6 <= parent.buf()@.len(),
        ensures
            r.opened(parent, count),
            final(r.buf().target())@ == final(parent.buf().target())@,
    {
        let mut parent = parent;
        proof {
            parent.buf().lemma_len();
            parent.lemma_with_limit();
            parent.lemma_with_buf();
        }
        let initial_limit = parent.get_limit();
        parent.set_limit(initial_limit + 6);
        proof {
            parent.lemma_with_buf();
            parent.lemma_with_limit();
        }
        parent.get_buf_mut().put_u16_at(initial_limit, Self::block_length());
        proof {
            parent.lemma_with_buf();
            parent.lemma_with_limit();
        }
        parent.get_buf_mut().put_u32_at(initial_limit + 2, count);
        proof {
            self.lemma_frame();
        }
        let mut this = self;
        this.parent = Some(parent);
        this.count = count;
        this.index = usize::MAX;
        this.offset = usize::MAX;
        this.initial_limit = initial_limit;
        this
    }

    /// The bytes that one element's fixed fields take.
    pub fn block_length() -> (r: u16)
        ensures
            r == Self::block_length_view(),
    {
        50
    }

    /// Hands the parent back; after that this codec reaches no buffer.
    pub fn parent(&mut self) -> (r: SbeResult<P>)
        ensures
            r == match old(self).parent_view() {
                Some(p) => Ok::<P, SbeErr>(p),
                None => Err::<P, SbeErr>(SbeErr::ParentNotSet),
            },
            *final(self) == old(self).with_parent(None),
    {
        self.parent.take().ok_or(SbeErr::ParentNotSet)
    }

    /// An element is left to move to, and the parent is there to move in.
    pub open spec fn can_advance(self) -> bool {
        has_next(self.cursor()) && self.parent_view() is Some
    }

    /// What `advance` makes of `pre` where it moves: the cursor has taken
    /// one step, and all else is as it was.
    pub open spec fn advanced(self, pre: Self) -> bool {
        &&& self.cursor() == step(pre.cursor())
        &&& self.buf_ok()
        &&& self.buf() == pre.buf()
        &&& self.initial_limit_view() == pre.initial_limit_view()
        &&& self == pre.with_limit(step(pre.cursor()).limit).with_position(
            step(pre.cursor()).index,
            step(pre.cursor()).offset,
        )
    }

    /// Moves to the next element, if one is left: it begins at the limit,
    /// and the limit moves behind its fixed fields.
    pub fn advance(&mut self) -> (r: SbeResult<Option<usize>>)
        requires
            old(self).can_advance() ==> old(self).buf_ok() && old(self).limit_view() + old(
                self,
            ).cursor().block_length <= usize::MAX,
        ensures
            r == advance_result(old(self).cursor(), old(self).parent_view() is Some),
            old(self).can_advance() ==> final(self).advanced(*old(self)),
            !old(self).can_advance() ==> *final(self) == *old(self),
    {
        proof {
            self.lemma_frame();
            if self.parent_view() is Some {
                self.with_limit(step(self.cursor()).limit).lemma_frame();
            }
        }
        let index = self.index.wrapping_add(1);
        if index >= self.count as usize {
            return Ok(None);
        }
        if let Some(parent) = self.parent.as_mut() {
            proof {
                parent.lemma_with_limit();
            }
            self.offset = parent.get_limit();
            parent.set_limit(self.offset + Self::block_length() as usize);
            self.index = index;
            Ok(Some(index))
        } else {
            Err(SbeErr::ParentNotSet)
        }
    }

    /// `aggTradeId`: an `i64` at byte 0 of the block.
    pub fn agg_trade_id(&mut self, value: i64)
        requires
            old(self).buf_ok(),
            old(self).offset_view() + 8 <= old(self).buf()@.len(),
        ensures
            final(self).buf()@ == write_i64(
                old(self).buf()@,
                old(self).offset_view() as int,
                value,
            ),
            final(self).buf()@.len() == old(self).buf()@.len(),
            final(final(self).buf().target())@ == final(old(self).buf().target())@,
            final(self).placed_as(*old(self), old(self).limit_view()),
            *final(self) == old(self).with_buf(final(self).buf()),
    {
        proof {
            self.buf().lemma_len();
            self.lemma_with_buf();
            self.lemma_frame();
            self.lemma_with_limit();
        }
        let offset = self.offset;
        self.get_buf_mut().put_i64_at(offset, value);
    }

    /// `price`: an `i64` at byte 8 of the block.
    pub fn price(&mut self, value: i64)
        requires
            old(self).buf_ok(),
            old(self).offset_view() + 16 <= old(self).buf()@.len(),
        ensures
            final(self).buf()@ == write_i64(old(self).buf()@, old(self).offset_view() + 8, value),
            final(self).buf()@.len() == old(self).buf()@.len(),
            final(final(self).buf().target())@ == final(old(self).buf().target())@,
            final(self).placed_as(*old(self), old(self).limit_view()),
            *final(self) == old(self).with_buf(final(self).buf()),
    {
        proof {
            self.buf().lemma_len();
            self.lemma_with_buf();
            self.lemma_frame();
            self.lemma_with_limit();
        }
        let offset = self.offset + 8;
        self.get_buf_mut().put_i64_at(offset, value);
    }

    /// `qty`: an `i64` at byte 16 of the block.
    pub fn qty(&mut self, value: i64)
        requires
            old(self).buf_ok(),
            old(self).offset_view() + 24 <= old(self).buf()@.len(),
        ensures
            final(self).buf()@ == write_i64(old(self).buf()@, old(self).offset_view() + 16, value),
            final(self).buf()@.len() == old(self).buf()@.len(),
            final(final(self).buf().target())@ == final(old(self).buf().target())@,
            final(self).placed_as(*old(self), old(self).limit_view()),
            *final(self) == old(self).with_buf(final(self).buf()),
    {
        proof {
            self.buf().lemma_len();
            self.lemma_with_buf();
            self.lemma_frame();
            self.lemma_with_limit();
        }
        let offset = self.offset + 16;
        self.get_buf_mut().put_i64_at(offset, value);
    }

    /// `firstTradeId`: an `i64` at byte 24 of the block.
    pub fn first_trade_id(&mut self, value: i64)
        requires
            old(self).buf_ok(),
            old(self).offset_view() + 32 <= old(self).buf()@.len(),
        ensures
            final(self).buf()@ == write_i64(old(self).buf()@, old(self).offset_view() + 24, value),
            final(self).buf()@.len() == old(self).buf()@.len(),
            final(final(self).buf().target())@ == final(old(self).buf().target())@,
            final(self).placed_as(*old(self), old(self).limit_view()),
            *final(self) == old(self).with_buf(final(self).buf()),
    {
        proof {
            self.buf().lemma_len();
            self.lemma_with_buf();
            self.lemma_frame();
            self.lemma_with_limit();
        }
        let offset = self.offset + 24;
        self.get_buf_mut().put_i64_at(offset, value);
    }

    /// `lastTradeId`: an `i64` at byte 32 of the block.
    pub fn last_trade_id(&mut self, value: i64)
        requires
            old(self).buf_ok(),
            old(self).offset_view() + 40 <= old(self).buf()@.len(),
        ensures
            final(self).buf()@ == write_i64(old(self).buf()@, old(self).offset_view() + 32, value),
            final(self).buf()@.len() == old(self).buf()@.len(),
            final(final(self).buf().target())@ == final(old(self).buf().target())@,
            final(self).placed_as(*old(self), old(self).limit_view()),
            *final(self) == old(self).with_buf(final(self).buf()),
    {
        proof {
            self.buf().lemma_len();
            self.lemma_with_buf();
            self.lemma_frame();
            self.lemma_with_limit();
        }
        let offset = self.offset + 32;
        self.get_buf_mut().put_i64_at(offset, value);
    }

    /// `time`: an `i64` at byte 40 of the block.
    pub fn time(&mut self, value: i64)
        requires
            old(self).buf_ok(),
            old(self).offset_view() + 48 <= old(self).buf()@.len(),
        ensures
            final(self).buf()@ == write_i64(old(self).buf()@, old(self).offset_view() + 40, value),
            final(self).buf()@.len() == old(self).buf()@.len(),
            final(final(self).buf().target())@ == final(old(self).buf().target())@,
            final(self).placed_as(*old(self), old(self).limit_view()),
            *final(self) == old(self).with_buf(final(self).buf()),
    {
        proof {
            self.buf().lemma_len();
            self.lemma_with_buf();
            self.lemma_frame();
            self.lemma_with_limit();
        }
        let offset = self.offset + 40;
        self.get_buf_mut().put_i64_at(offset, value);
    }

    /// `isBuyerMaker`: the code of a `BoolEnum` at byte 48 of the block.
    pub fn is_buyer_maker(&mut self, value: BoolEnum)
        requires
            old(self).buf_ok(),
            old(self).offset_view() + 49 <= old(self).buf()@.len(),
        ensures
            final(self).buf()@ == write_u8(
                old(self).buf()@,
                old(self).offset_view() + 48,
                value.code_view(),
            ),
            final(self).buf()@.len() == old(self).buf()@.len(),
            final(final(self).buf().target())@ == final(old(self).buf().target())@,
            final(self).placed_as(*old(self), old(self).limit_view()),
            *final(self) == old(self).with_buf(final(self).buf()),
    {
        proof {
            self.buf().lemma_len();
            self.lemma_with_buf();
            self.lemma_frame();
            self.lemma_with_limit();
        }
        let offset = self.offset + 48;
        self.get_buf_mut().put_u8_at(offset, value.code());
    }

    /// `isBestMatch`: the code of a `BoolEnum` at byte 49 of the block.
    pub fn is_best_match(&mut self, value: BoolEnum)
        requires
            old(self).buf_ok(),
            old(self).offset_view() + 50 <= old(self).buf()@.len(),
        ensures
            final(self).buf()@ == write_u8(
                old(self).buf()@,
                old(self).offset_view() + 49,
                value.code_view(),
            ),
            final(self).buf()@.len() == old(self).buf()@.len(),
            final(final(self).buf().target())@ == final(old(self).buf().target())@,
            final(self).placed_as(*old(self), old(self).limit_view()),
            *final(self) == old(self).with_buf(final(self).buf()),
    {
        proof {
            self.buf().lemma_len();
            self.lemma_with_buf();
            self.lemma_frame();
            self.lemma_with_limit();
        }
        let offset = self.offset + 49;
        self.get_buf_mut().put_u8_at(offset, value.code());
    }
}

/// The bytes after every fixed field of an element of `aggTrades` at `base` was set
/// once, in the order of the fields: what the setters make of `s`.
#[verifier::opaque]
pub open spec fn agg_trades_block_written(
    s: Seq<u8>,
    base: int,
    agg_trade_id: i64,
    price: i64,
    qty: i64,
    first_trade_id: i64,
    last_trade_id: i64,
    time: i64,
    is_buyer_maker: BoolEnum,
    is_best_match: BoolEnum,
) -> Seq<u8> {
    let s = write_i64(s, base, agg_trade_id);
    let s = write_i64(s, base + 8, price);
    let s = write_i64(s, base + 16, qty);
    let s = write_i64(s, base + 24, first_trade_id);
    let s = write_i64(s, base + 32, last_trade_id);
    let s = write_i64(s, base + 40, time);
    let s = write_u8(s, base + 48, is_buyer_maker.code_view());
    let s = write_u8(s, base + 49, is_best_match.code_view());
    s
}

/// Every fixed field of an element of `aggTrades` is read as it was set: the fields
/// lie side by side within the block, and the length is as it was.
pub proof fn lemma_agg_trades_block_round_trip(
    s: Seq<u8>,
    base: int,
    agg_trade_id: i64,
    price: i64,
    qty: i64,
    first_trade_id: i64,
    last_trade_id: i64,
    time: i64,
    is_buyer_maker: BoolEnum,
    is_best_match: BoolEnum,
)
    requires
        0 <= base,
        base + 50 <= s.len(),
    ensures
        ({
            let t = agg_trades_block_written(
                s,
                base,
                agg_trade_id,
                price,
                qty,
                first_trade_id,
                last_trade_id,
                time,
                is_buyer_maker,
                is_best_match,
            );
            &&& t.len() == s.len()
            &&& read_i64(t, base) == agg_trade_id
            &&& read_i64(t, base + 8) == price
            &&& read_i64(t, base + 16) == qty
            &&& read_i64(t, base + 24) == first_trade_id
            &&& read_i64(t, base + 32) == last_trade_id
            &&& read_i64(t, base + 40) == time
            &&& BoolEnum::of_code(read_u8(t, base + 48)) == is_buyer_maker
            &&& BoolEnum::of_code(read_u8(t, base + 49)) == is_best_match
        }),
{
    reveal(agg_trades_block_written);
    let b1 = u64_to_le(u64_of(agg_trade_id));
    lemma_u64_value(u64_of(agg_trade_id));
    let b2 = u64_to_le(u64_of(price));
    lemma_u64_value(u64_of(price));
    let b3 = u64_to_le(u64_of(qty));
    lemma_u64_value(u64_of(qty));
    let b4 = u64_to_le(u64_of(first_trade_id));
    lemma_u64_value(u64_of(first_trade_id));
    let b5 = u64_to_le(u64_of(last_trade_id));
    lemma_u64_value(u64_of(last_trade_id));
    let b6 = u64_to_le(u64_of(time));
    lemma_u64_value(u64_of(time));
    let b7 = seq![is_buyer_maker.code_view()];
    let b8 = seq![is_best_match.code_view()];
    let fields = |k: int|
        if k == 0 {
            (0int, b1)
        } else if k == 1 {
            (8int, b2)
        } else if k == 2 {
            (16int, b3)
        } else if k == 3 {
            (24int, b4)
        } else if k == 4 {
            (32int, b5)
        } else if k == 5 {
            (40int, b6)
        } else if k == 6 {
            (48int, b7)
        } else if k == 7 {
            (49int, b8)
        } else {
            (0int, Seq::<u8>::empty())
        };
    lemma_next_field(s, base, fields, 0, 0, 8);
    lemma_next_field(s, base, fields, 1, 8, 16);
    lemma_next_field(s, base, fields, 2, 16, 24);
    lemma_next_field(s, base, fields, 3, 24, 32);
    lemma_next_field(s, base, fields, 4, 32, 40);
    lemma_next_field(s, base, fields, 5, 40, 48);
    lemma_next_field(s, base, fields, 6, 48, 49);
    lemma_next_field(s, base, fields, 7, 49, 50);
    lemma_side_by_side_wider(fields, 8, 50, 50);
    let t = laid(s, base, fields, 8);
    lemma_laid(s, base, fields, 8, 50, 0);
    lemma_read_spelled(t, base, 0, 0, 0, agg_trade_id);
    lemma_laid(s, base, fields, 8, 50, 1);
    lemma_read_spelled(t, base + 8, 0, 0, 0, price);
    lemma_laid(s, base, fields, 8, 50, 2);
    lemma_read_spelled(t, base + 16, 0, 0, 0, qty);
    lemma_laid(s, base, fields, 8, 50, 3);
    lemma_read_spelled(t, base + 24, 0, 0, 0, first_trade_id);
    lemma_laid(s, base, fields, 8, 50, 4);
    lemma_read_spelled(t, base + 32, 0, 0, 0, last_trade_id);
    lemma_laid(s, base, fields, 8, 50, 5);
    lemma_read_spelled(t, base + 40, 0, 0, 0, time);
    lemma_laid(s, base, fields, 8, 50, 6);
    lemma_read_spelled_unsigned(t, base + 48, is_buyer_maker.code_view(), 0, 0, 0);
    BoolEnum::lemma_codes(0, is_buyer_maker);
    lemma_laid(s, base, fields, 8, 50, 7);
    lemma_read_spelled_unsigned(t, base + 49, is_best_match.code_view(), 0, 0, 0);
    BoolEnum::lemma_codes(0, is_best_match);
}

/// An element of `aggTrades` written with what is read from it is as it was, where each code in
/// it is one that the schema declares, or the null code.
pub proof fn lemma_agg_trades_block_written_back(s: Seq<u8>, base: int)
    requires
        0 <= base,
        base + 50 <= s.len(),
        BoolEnum::declared(read_u8(s, base + 48)) || read_u8(s, base + 48) == 255,
        BoolEnum::declared(read_u8(s, base + 49)) || read_u8(s, base + 49) == 255,
    ensures
        agg_trades_block_written(
            s,
            base,
            read_i64(s, base),
            read_i64(s, base + 8),
            read_i64(s, base + 16),
            read_i64(s, base + 24),
            read_i64(s, base + 32),
            read_i64(s, base + 40),
            BoolEnum::of_code(read_u8(s, base + 48)),
            BoolEnum::of_code(read_u8(s, base + 49)),
        ) == s,
{
    reveal(agg_trades_block_written);
    lemma_round_trip_64(s, base, 0, 0);
    lemma_round_trip_64(s, base + 8, 0, 0);
    lemma_round_trip_64(s, base + 16, 0, 0);
    lemma_round_trip_64(s, base + 24, 0, 0);
    lemma_round_trip_64(s, base + 32, 0, 0);
    lemma_round_trip_64(s, base + 40, 0, 0);
    lemma_round_trip_8(s, base + 48, 0, 0);
    BoolEnum::lemma_codes(read_u8(s, base + 48), BoolEnum::NullVal);
    lemma_round_trip_8(s, base + 49, 0, 0);
    BoolEnum::lemma_codes(read_u8(s, base + 49), BoolEnum::NullVal);
}

/// One more element of `aggTrades`: an encoder that has written `i`
/// elements from `start` on, whatever its parent is, has written
/// `i + 1` of them once `advance` and each setter were called.
/// `moved` is the encoder after `advance`, and `set` the encoder after
/// each of the setters, in the order of the fields.
pub proof fn lemma_agg_trades_element_written<'a, P: Encoder<'a> + Default>(
    s: Seq<u8>,
    start: int,
    agg_trade_id: Seq<i64>,
    price: Seq<i64>,
    qty: Seq<i64>,
    first_trade_id: Seq<i64>,
    last_trade_id: Seq<i64>,
    time: Seq<i64>,
    is_buyer_maker: Seq<BoolEnum>,
    is_best_match: Seq<BoolEnum>,
    i: nat,
    before: AggTradesEncoder<P>,
    moved: AggTradesEncoder<P>,
    set: Seq<AggTradesEncoder<P>>,
)
    requires
        before.buf()@ == agg_trades_elements_written(
            s,
            start,
            agg_trade_id,
            price,
            qty,
            first_trade_id,
            last_trade_id,
            time,
            is_buyer_maker,
            is_best_match,
            i,
        ),
        before.limit_view() == start + i * 50,
        before.limit_view() + 50 <= usize::MAX,
        before.can_advance(),
        moved.advanced(before),
        set.len() == 8,
        set[0].buf()@ == write_i64(
            moved.buf()@,
            moved.offset_view() as int,
            agg_trade_id[i as int],
        ),
        set[0].placed_as(moved, moved.limit_view()),
        set[1].buf()@ == write_i64(
            set[0].buf()@,
            set[0].offset_view() + 8,
            price[i as int],
        ),
        set[1].placed_as(set[0], set[0].limit_view()),
        set[2].buf()@ == write_i64(
            set[1].buf()@,
            set[1].offset_view() + 16,
            qty[i as int],
        ),
        set[2].placed_as(set[1], set[1].limit_view()),
        set[3].buf()@ == write_i64(
            set[2].buf()@,
            set[2].offset_view() + 24,
            first_trade_id[i as int],
        ),
        set[3].placed_as(set[2], set[2].limit_view()),
        set[4].buf()@ == write_i64(
            set[3].buf()@,
            set[3].offset_view() + 32,
            last_trade_id[i as int],
        ),
        set[4].placed_as(set[3], set[3].limit_view()),
        set[5].buf()@ == write_i64(
            set[4].buf()@,
            set[4].offset_view() + 40,
            time[i as int],
        ),
        set[5].placed_as(set[4], set[4].limit_view()),
        set[6].buf()@ == write_u8(
            set[5].buf()@,
            set[5].offset_view() + 48,
            is_buyer_maker[i as int].code_view(),
        ),
        set[6].placed_as(set[5], set[5].limit_view()),
        set[7].buf()@ == write_u8(
            set[6].buf()@,
            set[6].offset_view() + 49,
            is_best_match[i as int].code_view(),
        ),
        set[7].placed_as(set[6], set[6].limit_view()),
    ensures
        set[7].buf()@ == agg_trades_elements_written(
            s,
            start,
            agg_trade_id,
            price,
            qty,
            first_trade_id,
            last_trade_id,
            time,
            is_buyer_maker,
            is_best_match,
            i + 1,
        ),
        set[7].limit_view() == start + (i + 1) * 50,
        set[7].placed_as(moved, moved.limit_view()),
{
    reveal(agg_trades_block_written);
}

/// The bytes before an element of `aggTrades` and behind it stay as they
/// were when its fields are set.
pub proof fn lemma_agg_trades_block_apart(
    s: Seq<u8>,
    base: int,
    agg_trade_id: i64,
    price: i64,
    qty: i64,
    first_trade_id: i64,
    last_trade_id: i64,
    time: i64,
    is_buyer_maker: BoolEnum,
    is_best_match: BoolEnum,
    j: int,
    w: int,
)
    requires
        0 <= base,
        base + 50 <= s.len(),
        0 <= j,
        0 <= w,
        j + w <= s.len(),
        j + w <= base || base + 50 <= j,
    ensures
        ({
            let t = agg_trades_block_written(
                s,
                base,
                agg_trade_id,
                price,
                qty,
                first_trade_id,
                last_trade_id,
                time,
                is_buyer_maker,
                is_best_match,
            );
            &&& t.len() == s.len()
            &&& t.subrange(j, j + w) == s.subrange(j, j + w)
            &&& w >= 1 ==> t[j] == s[j]
        }),
{
    reveal(agg_trades_block_written);
    let b1 = u64_to_le(u64_of(agg_trade_id));
    lemma_u64_value(u64_of(agg_trade_id));
    let b2 = u64_to_le(u64_of(price));
    lemma_u64_value(u64_of(price));
    let b3 = u64_to_le(u64_of(qty));
    lemma_u64_value(u64_of(qty));
    let b4 = u64_to_le(u64_of(first_trade_id));
    lemma_u64_value(u64_of(first_trade_id));
    let b5 = u64_to_le(u64_of(last_trade_id));
    lemma_u64_value(u64_of(last_trade_id));
    let b6 = u64_to_le(u64_of(time));
    lemma_u64_value(u64_of(time));
    let b7 = seq![is_buyer_maker.code_view()];
    let b8 = seq![is_best_match.code_view()];
    let fields = |k: int|
        if k == 0 {
            (0int, b1)
        } else if k == 1 {
            (8int, b2)
        } else if k == 2 {
            (16int, b3)
        } else if k == 3 {
            (24int, b4)
        } else if k == 4 {
            (32int, b5)
        } else if k == 5 {
            (40int, b6)
        } else if k == 6 {
            (48int, b7)
        } else if k == 7 {
            (49int, b8)
        } else {
            (0int, Seq::<u8>::empty())
        };
    lemma_next_field(s, base, fields, 0, 0, 8);
    lemma_next_field(s, base, fields, 1, 8, 16);
    lemma_next_field(s, base, fields, 2, 16, 24);
    lemma_next_field(s, base, fields, 3, 24, 32);
    lemma_next_field(s, base, fields, 4, 32, 40);
    lemma_next_field(s, base, fields, 5, 40, 48);
    lemma_next_field(s, base, fields, 6, 48, 49);
    lemma_next_field(s, base, fields, 7, 49, 50);
    lemma_side_by_side_wider(fields, 8, 50, 50);
    lemma_laid_apart(s, base, fields, 8, 50, j, w);
}

/// The first `n` elements of `aggTrades`, written one behind the other
/// from `start` on: what `advance` and the setters, each called once
/// for each element, make of `s`. Element `i` takes its fields from
/// place `i` of the sequences.
pub open spec fn agg_trades_elements_written(
    s: Seq<u8>,
    start: int,
    agg_trade_id: Seq<i64>,
    price: Seq<i64>,
    qty: Seq<i64>,
    first_trade_id: Seq<i64>,
    last_trade_id: Seq<i64>,
    time: Seq<i64>,
    is_buyer_maker: Seq<BoolEnum>,
    is_best_match: Seq<BoolEnum>,
    n: nat,
) -> Seq<u8>
    decreases n,
{
    if n == 0 {
        s
    } else {
        agg_trades_block_written(
            agg_trades_elements_written(
                s,
                start,
                agg_trade_id,
                price,
                qty,
                first_trade_id,
                last_trade_id,
                time,
                is_buyer_maker,
                is_best_match,
                (n - 1) as nat,
            ),
            start + (n - 1) * 50,
            agg_trade_id[n - 1],
            price[n - 1],
            qty[n - 1],
            first_trade_id[n - 1],
            last_trade_id[n - 1],
            time[n - 1],
            is_buyer_maker[n - 1],
            is_best_match[n - 1],
        )
    }
}

/// The elements of `aggTrades` leave what lies before them and behind
/// them as it was.
pub proof fn lemma_agg_trades_elements_apart(
    s: Seq<u8>,
    start: int,
    agg_trade_id: Seq<i64>,
    price: Seq<i64>,
    qty: Seq<i64>,
    first_trade_id: Seq<i64>,
    last_trade_id: Seq<i64>,
    time: Seq<i64>,
    is_buyer_maker: Seq<BoolEnum>,
    is_best_match: Seq<BoolEnum>,
    n: nat,
    j: int,
    w: int,
)
    requires
        0 <= start,
        start + n * 50 <= s.len(),
        0 <= j,
        0 <= w,
        j + w <= s.len(),
        j + w <= start || start + n * 50 <= j,
    ensures
        ({
            let t = agg_trades_elements_written(
                s,
                start,
                agg_trade_id,
                price,
                qty,
                first_trade_id,
                last_trade_id,
                time,
                is_buyer_maker,
                is_best_match,
                n,
            );
            &&& t.len() == s.len()
            &&& t.subrange(j, j + w) == s.subrange(j, j + w)
            &&& w >= 1 ==> t[j] == s[j]
        }),
    decreases n,
{
    if n > 0 {
        let m = (n - 1) as nat;
        let u = agg_trades_elements_written(
            s,
            start,
            agg_trade_id,
            price,
            qty,
            first_trade_id,
            last_trade_id,
            time,
            is_buyer_maker,
            is_best_match,
            m,
        );
        lemma_agg_trades_elements_apart(
            s,
            start,
            agg_trade_id,
            price,
            qty,
            first_trade_id,
            last_trade_id,
            time,
            is_buyer_maker,
            is_best_match,
            m,
            j,
            w,
        );
        lemma_agg_trades_block_apart(
            u,
            start + m * 50,
            agg_trade_id[m as int],
            price[m as int],
            qty[m as int],
            first_trade_id[m as int],
            last_trade_id[m as int],
            time[m as int],
            is_buyer_maker[m as int],
            is_best_match[m as int],
            j,
            w,
        );
    }
}

/// Every element of `aggTrades` is read as it was written: element `i`
/// begins `i` blocks behind `start`, and its fields are those at place
/// `i` of the sequences.
pub proof fn lemma_agg_trades_elements_round_trip(
    s: Seq<u8>,
    start: int,
    agg_trade_id: Seq<i64>,
    price: Seq<i64>,
    qty: Seq<i64>,
    first_trade_id: Seq<i64>,
    last_trade_id: Seq<i64>,
    time: Seq<i64>,
    is_buyer_maker: Seq<BoolEnum>,
    is_best_match: Seq<BoolEnum>,
    n: nat,
    i: int,
)
    requires
        0 <= start,
        start + n * 50 <= s.len(),
        0 <= i < n,
    ensures
        ({
            let t = agg_trades_elements_written(
                s,
                start,
                agg_trade_id,
                price,
                qty,
                first_trade_id,
                last_trade_id,
                time,
                is_buyer_maker,
                is_best_match,
                n,
            );
            &&& t.len() == s.len()
            &&& read_i64(t, start + i * 50) == agg_trade_id[i]
            &&& read_i64(t, start + i * 50 + 8) == price[i]
            &&& read_i64(t, start + i * 50 + 16) == qty[i]
            &&& read_i64(t, start + i * 50 + 24) == first_trade_id[i]
            &&& read_i64(t, start + i * 50 + 32) == last_trade_id[i]
            &&& read_i64(t, start + i * 50 + 40) == time[i]
            &&& BoolEnum::of_code(read_u8(t, start + i * 50 + 48)) == is_buyer_maker[i]
            &&& BoolEnum::of_code(read_u8(t, start + i * 50 + 49)) == is_best_match[i]
        }),
    decreases n,
{
    let m = (n - 1) as nat;
    let u = agg_trades_elements_written(
        s,
        start,
        agg_trade_id,
        price,
        qty,
        first_trade_id,
        last_trade_id,
        time,
        is_buyer_maker,
        is_best_match,
        m,
    );
    let base = start + m * 50;
    lemma_agg_trades_elements_apart(
        s,
        start,
        agg_trade_id,
        price,
        qty,
        first_trade_id,
        last_trade_id,
        time,
        is_buyer_maker,
        is_best_match,
        m,
        0,
        0,
    );
    if i == m {
        lemma_agg_trades_block_round_trip(
            u,
            base,
            agg_trade_id[i],
            price[i],
            qty[i],
            first_trade_id[i],
            last_trade_id[i],
            time[i],
            is_buyer_maker[i],
            is_best_match[i],
        );
    } else {
        lemma_agg_trades_elements_round_trip(
            s,
            start,
            agg_trade_id,
            price,
            qty,
            first_trade_id,
            last_trade_id,
            time,
            is_buyer_maker,
            is_best_match,
            m,
            i,
        );
        lemma_agg_trades_block_apart(
            u,
            base,
            agg_trade_id[m as int],
            price[m as int],
            qty[m as int],
            first_trade_id[m as int],
            last_trade_id[m as int],
            time[m as int],
            is_buyer_maker[m as int],
            is_best_match[m as int],
            start + i * 50,
            8,
        );
        lemma_agg_trades_block_apart(
            u,
            base,
            agg_trade_id[m as int],
            price[m as int],
            qty[m as int],
            first_trade_id[m as int],
            last_trade_id[m as int],
            time[m as int],
            is_buyer_maker[m as int],
            is_best_match[m as int],
            start + i * 50 + 8,
            8,
        );
        lemma_agg_trades_block_apart(
            u,
            base,
            agg_trade_id[m as int],
            price[m as int],
            qty[m as int],
            first_trade_id[m as int],
            last_trade_id[m as int],
            time[m as int],
            is_buyer_maker[m as int],
            is_best_match[m as int],
            start + i * 50 + 16,
            8,
        );
        lemma_agg_trades_block_apart(
            u,
            base,
            agg_trade_id[m as int],
            price[m as int],
            qty[m as int],
            first_trade_id[m as int],
            last_trade_id[m as int],
            time[m as int],
            is_buyer_maker[m as int],
            is_best_match[m as int],
            start + i * 50 + 24,
            8,
        );
        lemma_agg_trades_block_apart(
            u,
            base,
            agg_trade_id[m as int],
            price[m as int],
            qty[m as int],
            first_trade_id[m as int],
            last_trade_id[m as int],
            time[m as int],
            is_buyer_maker[m as int],
            is_best_match[m as int],
            start + i * 50 + 32,
            8,
        );
        lemma_agg_trades_block_apart(
            u,
            base,
            agg_trade_id[m as int],
            price[m as int],
            qty[m as int],
            first_trade_id[m as int],
            last_trade_id[m as int],
            time[m as int],
            is_buyer_maker[m as int],
            is_best_match[m as int],
            start + i * 50 + 40,
            8,
        );
        lemma_agg_trades_block_apart(
            u,
            base,
            agg_trade_id[m as int],
            price[m as int],
            qty[m as int],
            first_trade_id[m as int],
            last_trade_id[m as int],
            time[m as int],
            is_buyer_maker[m as int],
            is_best_match[m as int],
            start + i * 50 + 48,
            1,
        );
        lemma_agg_trades_block_apart(
            u,
            base,
            agg_trade_id[m as int],
            price[m as int],
            qty[m as int],
            first_trade_id[m as int],
            last_trade_id[m as int],
            time[m as int],
            is_buyer_maker[m as int],
            is_best_match[m as int],
            start + i * 50 + 49,
            1,
        );
    }
}

/// The group `aggTrades` of `n` elements, written at `limit`: the size
/// prefix, and behind it the elements. This is what `wrap` with the
/// count `n`, and then `advance` and the setters for each element, make
/// of `s`.
pub open spec fn agg_trades_group_written(
    s: Seq<u8>,
    limit: int,
    agg_trade_id: Seq<i64>,
    price: Seq<i64>,
    qty: Seq<i64>,
    first_trade_id: Seq<i64>,
    last_trade_id: Seq<i64>,
    time: Seq<i64>,
    is_buyer_maker: Seq<BoolEnum>,
    is_best_match: Seq<BoolEnum>,
    n: nat,
) -> Seq<u8> {
    agg_trades_elements_written(
        write_group_size(s, limit, 50, n as u32),
        limit + 6,
        agg_trade_id,
        price,
        qty,
        first_trade_id,
        last_trade_id,
        time,
        is_buyer_maker,
        is_best_match,
        n,
    )
}

/// A group is read as it was written: the block length and the count
/// of the size prefix, and every element.
pub proof fn lemma_agg_trades_group_round_trip(
    s: Seq<u8>,
    limit: int,
    agg_trade_id: Seq<i64>,
    price: Seq<i64>,
    qty: Seq<i64>,
    first_trade_id: Seq<i64>,
    last_trade_id: Seq<i64>,
    time: Seq<i64>,
    is_buyer_maker: Seq<BoolEnum>,
    is_best_match: Seq<BoolEnum>,
    n: nat,
    i: int,
)
    requires
        0 <= limit,
        limit + 6 + n * 50 <= s.len(),
        n <= u32::MAX,
    ensures
        ({
            let t = agg_trades_group_written(
                s,
                limit,
                agg_trade_id,
                price,
                qty,
                first_trade_id,
                last_trade_id,
                time,
                is_buyer_maker,
                is_best_match,
                n,
            );
            &&& t.len() == s.len()
            &&& read_u16(t, limit) == 50
            &&& read_u32(t, limit + 2) == n
            &&& 0 <= i < n ==> {
                &&& read_i64(t, limit + 6 + i * 50) == agg_trade_id[i]
                &&& read_i64(t, limit + 6 + i * 50 + 8) == price[i]
                &&& read_i64(t, limit + 6 + i * 50 + 16) == qty[i]
                &&& read_i64(t, limit + 6 + i * 50 + 24) == first_trade_id[i]
                &&& read_i64(t, limit + 6 + i * 50 + 32) == last_trade_id[i]
                &&& read_i64(t, limit + 6 + i * 50 + 40) == time[i]
                &&& BoolEnum::of_code(read_u8(t, limit + 6 + i * 50 + 48)) == is_buyer_maker[i]
                &&& BoolEnum::of_code(read_u8(t, limit + 6 + i * 50 + 49)) == is_best_match[i]
            }
        }),
{
    let p = write_group_size(s, limit, 50, n as u32);
    lemma_group_size_round_trip(s, limit, 50, n as u32, 0);
    lemma_agg_trades_elements_apart(p, limit + 6, agg_trade_id, price, qty, first_trade_id, last_trade_id, time, is_buyer_maker, is_best_match, n, limit, 2);
    lemma_agg_trades_elements_apart(p, limit + 6, agg_trade_id, price, qty, first_trade_id, last_trade_id, time, is_buyer_maker, is_best_match, n, limit + 2, 4);
    if 0 <= i < n {
        lemma_agg_trades_elements_round_trip(p, limit + 6, agg_trade_id, price, qty, first_trade_id, last_trade_id, time, is_buyer_maker, is_best_match, n, i);
    }
}

#[derive(Clone, Copy, Debug)]
pub struct AggTradesResponseDecoder<'a> {
    buf: ReadBuf<'a>,
    initial_offset: usize,
    offset: usize,
    limit: usize,
    pub acting_block_length: u16,
    pub acting_version: u16,
}

impl<'a> Default for AggTradesResponseDecoder<'a> {
    fn default() -> (r: Self)
        ensures
            r.buf()@.len() == 0,
            r.initial_offset_view() == 0,
            r.offset_view() == 0,
            r.limit_view() == 0,
            r.acting_block_length_view() == 0,
            r.acting_version_view() == 0,
    {
        Self {
            buf: ReadBuf::default(),
            initial_offset: 0,
            offset: 0,
            limit: 0,
            acting_block_length: 0,
            acting_version: 0,
        }
    }
}

impl<'a> Reader<'a> for AggTradesResponseDecoder<'a> {
    open spec fn buf_ok(&self) -> bool {
        true
    }

    closed spec fn buf(self) -> ReadBuf<'a> {
        self.buf
    }

    fn get_buf(&self) -> (r: &ReadBuf<'a>) {
        &self.buf
    }
}

impl<'a> Decoder<'a> for AggTradesResponseDecoder<'a> {
    closed spec fn limit_view(self) -> usize {
        self.limit
    }

    closed spec fn with_limit(self, limit: usize) -> Self {
        Self { limit, ..self }
    }

    proof fn lemma_with_limit(self) {
    }

    fn get_limit(&self) -> (r: usize) {
        self.limit
    }

    fn set_limit(&mut self, limit: usize) {
        self.limit = limit;
    }
}

impl<'a> AggTradesResponseDecoder<'a> {
    pub closed spec fn initial_offset_view(self) -> usize {
        self.initial_offset
    }

    /// Where the fixed block begins.
    pub closed spec fn offset_view(self) -> usize {
        self.offset
    }

    /// The block length that the sender declared.
    pub closed spec fn acting_block_length_view(self) -> u16 {
        self.acting_block_length
    }

    /// The schema version that the sender declared.
    pub closed spec fn acting_version_view(self) -> u16 {
        self.acting_version
    }

    /// This decoder stands where `pre` stood, but for the limit, which is
    /// at `limit`.
    pub open spec fn placed_as(self, pre: Self, limit: usize) -> bool {
        &&& self.limit_view() == limit
        &&& self.buf() == pre.buf()
        &&& self.offset_view() == pre.offset_view()
        &&& self.initial_offset_view() == pre.initial_offset_view()
        &&& self.acting_block_length_view() == pre.acting_block_length_view()
        &&& self.acting_version_view() == pre.acting_version_view()
    }

    /// Moving the limit leaves all else alone.
    pub proof fn lemma_frame(self)
        ensures
            forall|limit: usize|
                #![trigger self.with_limit(limit)]
                {
                    let w = self.with_limit(limit);
                    &&& w.offset_view() == self.offset_view()
                    &&& w.initial_offset_view() == self.initial_offset_view()
                    &&& w.acting_block_length_view() == self.acting_block_length_view()
                    &&& w.acting_version_view() == self.acting_version_view()
                },
    {
    }

    /// Places the decoder over `buf` with its fixed block at `offset`; the
    /// limit stands behind the block, whose length the sender declared.
    pub fn wrap(
        self,
        buf: ReadBuf<'a>,
        offset: usize,
        acting_block_length: u16,
        acting_version: u16,
    ) -> (r: Self)
        requires
            offset + acting_block_length <= usize::MAX,
        ensures
            r.buf() == buf,
            r.initial_offset_view() == offset,
            r.offset_view() == offset,
            r.limit_view() == offset + acting_block_length,
            r.acting_block_length_view() == acting_block_length,
            r.acting_version_view() == acting_version,
    {
        let limit = offset + acting_block_length as usize;
        let mut this = self;
        this.buf = buf;
        this.initial_offset = offset;
        this.offset = offset;
        this.limit = limit;
        this.acting_block_length = acting_block_length;
        this.acting_version = acting_version;
        this
    }

    /// The bytes from the start of the block to the limit.
    pub fn encoded_length(&self) -> (r: usize)
        requires
            self.offset_view() <= self.limit_view(),
        ensures
            r == self.limit_view() - self.offset_view(),
    {
        self.limit - self.offset
    }

    /// The block length that the sender declared.
    pub fn acting_block_length(&self) -> (r: u16)
        ensures
            r == self.acting_block_length_view(),
    {
        self.acting_block_length
    }

    /// The schema version that the sender declared.
    pub fn acting_version(&self) -> (r: u16)
        ensures
            r == self.acting_version_view(),
    {
        self.acting_version
    }

    /// Takes over from a header that announces this message: the decoder
    /// stands behind the header, on the header's buffer, with the block
    /// length and version that the header declares.
    pub fn header(self, header: MessageHeaderDecoder<ReadBuf<'a>>) -> (r: Self)
        requires
            header.buf_ok(),
            header.offset_view() + 8 <= header.buf()@.len(),
            read_u16(header.buf()@, header.offset_view() + 2) == SBE_TEMPLATE_ID,
            header.offset_view() + 8 + read_u16(header.buf()@, header.offset_view() as int)
                <= usize::MAX,
        ensures
            r.buf() == header.buf(),
            r.initial_offset_view() == header.offset_view() + 8,
            r.offset_view() == header.offset_view() + 8,
            r.acting_block_length_view() == read_u16(header.buf()@, header.offset_view() as int),
            r.acting_version_view() == read_u16(header.buf()@, header.offset_view() + 6),
            r.limit_view() == header.offset_view() + 8 + r.acting_block_length_view(),
    {
        let mut header = header;
        proof {
            header.buf().lemma_len();
        }
        let acting_block_length = header.block_length();
        let acting_version = header.version();
        let offset = header.offset() + crate::message_header_codec::ENCODED_LENGTH;
        self.wrap(header.parent().unwrap(), offset, acting_block_length, acting_version)
    }

    /// `priceExponent`: an `i8` at byte 0 of the block.
    pub fn price_exponent(&self) -> (r: i8)
        requires
            self.offset_view() + 1 <= self.buf()@.len(),
        ensures
            r == read_i8(self.buf()@, self.offset_view() as int),
    {
        proof {
            self.buf().lemma_len();
        }
        self.get_buf().get_i8_at(self.offset)
    }

    /// `qtyExponent`: an `i8` at byte 1 of the block.
    pub fn qty_exponent(&self) -> (r: i8)
        requires
            self.offset_view() + 2 <= self.buf()@.len(),
        ensures
            r == read_i8(self.buf()@, self.offset_view() + 1),
    {
        proof {
            self.buf().lemma_len();
        }
        self.get_buf().get_i8_at(self.offset + 1)
    }

    /// Opens the group `aggTrades`: reads its size prefix at the limit and
    /// moves the limit behind it.
    pub fn agg_trades_decoder(self) -> (r: AggTradesDecoder<Self>)
        requires
            self.limit_view() + 6 <= self.buf()@.len(),
        ensures
            r.opened(self),
    {
        AggTradesDecoder::default().wrap(self)
    }
}

#[derive(Debug)]
pub struct AggTradesDecoder<P> {
    parent: Option<P>,
    block_length: usize,
    count: u32,
    index: usize,
    offset: usize,
}

impl<P> Default for AggTradesDecoder<P> {
    fn default() -> (r: Self)
        ensures
            r.parent_view() is None,
            r.block_length_view() == 0,
            r.count_view() == 0,
            r.index_view() == 0,
            r.offset_view() == 0,
    {
        Self { parent: None, block_length: 0, count: 0, index: 0, offset: 0 }
    }
}

impl<P> AggTradesDecoder<P> {
    pub closed spec fn parent_view(self) -> Option<P> {
        self.parent
    }

    pub closed spec fn block_length_view(self) -> usize {
        self.block_length
    }

    pub closed spec fn count_view(self) -> u32 {
        self.count
    }

    pub closed spec fn index_view(self) -> usize {
        self.index
    }

    pub closed spec fn offset_view(self) -> usize {
        self.offset
    }

    /// This codec over another parent, all else kept.
    pub closed spec fn with_parent(self, parent: Option<P>) -> Self {
        Self { parent, ..self }
    }

    /// This codec at another element, all else kept.
    pub closed spec fn with_position(self, index: usize, offset: usize) -> Self {
        Self { index, offset, ..self }
    }

    /// What the exchanges above keep and what they put.
    pub proof fn lemma_frame(self)
        ensures
            forall|parent: Option<P>|
                #![trigger self.with_parent(parent)]
                {
                    let w = self.with_parent(parent);
                    &&& w.parent_view() == parent
                    &&& w.block_length_view() == self.block_length_view()
                    &&& w.count_view() == self.count_view()
                    &&& w.index_view() == self.index_view()
                    &&& w.offset_view() == self.offset_view()
                },
            forall|first: Option<P>, second: Option<P>|
                #![trigger self.with_parent(first).with_parent(second)]
                self.with_parent(first).with_parent(second) == self.with_parent(second),
            self.with_parent(self.parent_view()) == self,
            forall|index: usize, offset: usize|
                #![trigger self.with_position(index, offset)]
                {
                    let w = self.with_position(index, offset);
                    &&& w.parent_view() == self.parent_view()
                    &&& w.index_view() == index
                    &&& w.offset_view() == offset
                    &&& w.block_length_view() == self.block_length_view()
                    &&& w.count_view() == self.count_view()
                },
            forall|parent: Option<P>, index: usize, offset: usize|
                #![trigger self.with_parent(parent).with_position(index, offset)]
                self.with_parent(parent).with_position(index, offset) == self.with_position(
                    index,
                    offset,
                ).with_parent(parent),
    {
    }
}

impl<'a, P> Reader<'a> for AggTradesDecoder<P> where P: Reader<'a> + Default {
    open spec fn buf_ok(&self) -> bool {
        self.parent_view() is Some && self.parent_view().unwrap().buf_ok()
    }

    open spec fn buf(self) -> ReadBuf<'a> {
        self.parent_view().unwrap().buf()
    }

    fn get_buf(&self) -> (r: &ReadBuf<'a>) {
        self.parent.as_ref().expect("parent missing").get_buf()
    }
}

impl<'a, P> Decoder<'a> for AggTradesDecoder<P> where P: Decoder<'a> + Default {
    open spec fn limit_view(self) -> usize {
        self.parent_view().unwrap().limit_view()
    }

    open spec fn with_limit(self, limit: usize) -> Self {
        self.with_parent(Some(self.parent_view().unwrap().with_limit(limit)))
    }

    proof fn lemma_with_limit(self) {
        self.parent_view().unwrap().lemma_with_limit();
        self.lemma_frame();
    }

    fn get_limit(&self) -> (r: usize) {
        self.parent.as_ref().expect("parent missing").get_limit()
    }

    fn set_limit(&mut self, limit: usize) {
        self.parent.as_mut().expect("parent missing").set_limit(limit);
    }
}

impl<'a, P> AggTradesDecoder<P> where P: Decoder<'a> + Default {
    /// This codec stands where `pre` stood, but for the limit, which is at
    /// `limit`.
    pub open spec fn placed_as(self, pre: Self, limit: usize) -> bool {
        &&& self.buf_ok()
        &&& self.limit_view() == limit
        &&& self.block_length_view() == pre.block_length_view()
        &&& self.count_view() == pre.count_view()
        &&& self.index_view() == pre.index_view()
        &&& self.offset_view() == pre.offset_view()
        &&& self.buf() == pre.buf()
    }

    /// Where the walk over the elements stands.
    pub open spec fn cursor(self) -> Cursor {
        Cursor {
            count: self.count_view() as u32,
            index: self.index_view(),
            offset: self.offset_view(),
            block_length: self.block_length_view(),
            limit: self.limit_view(),
        }
    }

    /// What `wrap` makes of `parent`: block length and count are those of
    /// the size prefix at the parent's limit, the limit stands behind the
    /// prefix, and the codec stands before the first element.
    pub open spec fn opened(self, parent: P) -> bool {
        &&& self.block_length_view() == read_u16(parent.buf()@, parent.limit_view() as int)
        &&& self.count_view() == read_u32(parent.buf()@, parent.limit_view() + 2)
        &&& self.index_view() == usize::MAX
        &&& self.offset_view() == 0
        &&& self.buf_ok()
        &&& self.buf() == parent.buf()
        &&& self.limit_view() == parent.limit_view() + 6
        &&& self.parent_view() == Some(parent.with_limit((parent.limit_view() + 6) as usize))
    }

    /// Opens the group at the parent's limit.
    pub fn wrap(self, parent: P) -> (r: Self)
        requires
            parent.buf_ok(),
            parent.limit_view() + 6 <= parent.buf()@.len(),
        ensures
            r.opened(parent),
    {
        let mut parent = parent;
        proof {
            parent.buf().lemma_len();
            parent.lemma_with_limit();
            self.lemma_frame();
        }
        let initial_offset = parent.get_limit();
        let block_length = parent.get_buf().get_u16_at(initial_offset) as usize;
        let count = parent.get_buf().get_u32_at(initial_offset + 2);
        parent.set_limit(initial_offset + 6);
        let mut this = self;
        this.parent = Some(parent);
        this.block_length = block_length;
        this.count = count;
        this.index = usize::MAX;
        this.offset = 0;
        this
    }

    /// Hands the parent back; after that this codec reaches no buffer.
    pub fn parent(&mut self) -> (r: SbeResult<P>)
        ensures
            r == match old(self).parent_view() {
                Some(p) => Ok::<P, SbeErr>(p),
                None => Err::<P, SbeErr>(SbeErr::ParentNotSet),
            },
            *final(self) == old(self).with_parent(None),
    {
        self.parent.take().ok_or(SbeErr::ParentNotSet)
    }

    /// The number of elements that the group declares.
    pub fn count(&self) -> (r: u32)
        ensures
            r == self.count_view(),
    {
        self.count
    }

    /// An element is left to move to, and the parent is there to move in.
    pub open spec fn can_advance(self) -> bool {
        has_next(self.cursor()) && self.parent_view() is Some
    }

    /// What `advance` makes of `pre` where it moves: the cursor has taken
    /// one step, and all else is as it was.
    pub open spec fn advanced(self, pre: Self) -> bool {
        &&& self.cursor() == step(pre.cursor())
        &&& self.buf_ok()
        &&& self.buf() == pre.buf()
        &&& self == pre.with_limit(step(pre.cursor()).limit).with_position(
            step(pre.cursor()).index,
            step(pre.cursor()).offset,
        )
    }

    /// Moves to the next element, if one is left: it begins at the limit,
    /// and the limit moves behind its fixed fields.
    pub fn advance(&mut self) -> (r: SbeResult<Option<usize>>)
        requires
            old(self).can_advance() ==> old(self).buf_ok() && old(self).limit_view() + old(
                self,
            ).cursor().block_length <= usize::MAX,
        ensures
            r == advance_result(old(self).cursor(), old(self).parent_view() is Some),
            old(self).can_advance() ==> final(self).advanced(*old(self)),
            !old(self).can_advance() ==> *final(self) == *old(self),
    {
        proof {
            self.lemma_frame();
            if self.parent_view() is Some {
                self.with_limit(step(self.cursor()).limit).lemma_frame();
            }
        }
        let index = self.index.wrapping_add(1);
        if index >= self.count as usize {
            return Ok(None);
        }
        if let Some(parent) = self.parent.as_mut() {
            proof {
                parent.lemma_with_limit();
            }
            self.offset = parent.get_limit();
            parent.set_limit(self.offset + self.block_length);
            self.index = index;
            Ok(Some(index))
        } else {
            Err(SbeErr::ParentNotSet)
        }
    }

    /// `aggTradeId`: an `i64` at byte 0 of the block.
    pub fn agg_trade_id(&self) -> (r: i64)
        requires
            self.buf_ok(),
            self.offset_view() + 8 <= self.buf()@.len(),
        ensures
            r == read_i64(self.buf()@, self.offset_view() as int),
    {
        proof {
            self.buf().lemma_len();
        }
        self.get_buf().get_i64_at(self.offset)
    }

    /// `price`: an `i64` at byte 8 of the block.
    pub fn price(&self) -> (r: i64)
        requires
            self.buf_ok(),
            self.offset_view() + 16 <= self.buf()@.len(),
        ensures
            r == read_i64(self.buf()@, self.offset_view() + 8),
    {
        proof {
            self.buf().lemma_len();
        }
        self.get_buf().get_i64_at(self.offset + 8)
    }

    /// `qty`: an `i64` at byte 16 of the block.
    pub fn qty(&self) -> (r: i64)
        requires
            self.buf_ok(),
            self.offset_view() + 24 <= self.buf()@.len(),
        ensures
            r == read_i64(self.buf()@, self.offset_view() + 16),
    {
        proof {
            self.buf().lemma_len();
        }
        self.get_buf().get_i64_at(self.offset + 16)
    }

    /// `firstTradeId`: an `i64` at byte 24 of the block.
    pub fn first_trade_id(&self) -> (r: i64)
        requires
            self.buf_ok(),
            self.offset_view() + 32 <= self.buf()@.len(),
        ensures
            r == read_i64(self.buf()@, self.offset_view() + 24),
    {
        proof {
            self.buf().lemma_len();
        }
        self.get_buf().get_i64_at(self.offset + 24)
    }

    /// `lastTradeId`: an `i64` at byte 32 of the block.
    pub fn last_trade_id(&self) -> (r: i64)
        requires
            self.buf_ok(),
            self.offset_view() + 40 <= self.buf()@.len(),
        ensures
            r == read_i64(self.buf()@, self.offset_view() + 32),
    {
        proof {
            self.buf().lemma_len();
        }
        self.get_buf().get_i64_at(self.offset + 32)
    }

    /// `time`: an `i64` at byte 40 of the block.
    pub fn time(&self) -> (r: i64)
        requires
            self.buf_ok(),
            self.offset_view() + 48 <= self.buf()@.len(),
        ensures
            r == read_i64(self.buf()@, self.offset_view() + 40),
    {
        proof {
            self.buf().lemma_len();
        }
        self.get_buf().get_i64_at(self.offset + 40)
    }

    /// `isBuyerMaker`: the code of a `BoolEnum` at byte 48 of the block.
    pub fn is_buyer_maker(&self) -> (r: BoolEnum)
        requires
            self.buf_ok(),
            self.offset_view() + 49 <= self.buf()@.len(),
        ensures
            r == BoolEnum::of_code(read_u8(self.buf()@, self.offset_view() + 48)),
    {
        proof {
            self.buf().lemma_len();
        }
        BoolEnum::from(self.get_buf().get_u8_at(self.offset + 48))
    }

    /// `isBestMatch`: the code of a `BoolEnum` at byte 49 of the block.
    pub fn is_best_match(&self) -> (r: BoolEnum)
        requires
            self.buf_ok(),
            self.offset_view() + 50 <= self.buf()@.len(),
        ensures
            r == BoolEnum::of_code(read_u8(self.buf()@, self.offset_view() + 49)),
    {
        proof {
            self.buf().lemma_len();
        }
        BoolEnum::from(self.get_buf().get_u8_at(self.offset + 49))
    }
}

} // verus!
