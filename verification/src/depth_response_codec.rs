//! The message `DepthResponse`, template 200 of schema 1.
use crate::buffer::{ReadBuf, WriteBuf};
use crate::codec::{Decoder, Encoder, Reader, SbeErr, SbeResult, Writer};
use crate::group::{Cursor, advance_result, has_next, step};
use crate::message_header_codec::{MessageHeaderDecoder, MessageHeaderEncoder, write_header};
use crate::wire::{
    laid, lemma_group_size_round_trip, lemma_laid, lemma_laid_apart, lemma_next_field,
    lemma_read_spelled, lemma_round_trip_64, lemma_round_trip_8, lemma_side_by_side_wider,
    lemma_u64_value, read_i64, read_i8, read_u16, read_u32, u64_of, u64_to_le, u8_of,
    write_group_size, write_i64, write_i8,
};
use vstd::prelude::*;

verus! {

/// The bytes that the fixed block of this message takes.
pub const SBE_BLOCK_LENGTH: u16 = 10;

pub const SBE_TEMPLATE_ID: u16 = 200;

pub const SBE_SCHEMA_ID: u16 = 1;

pub const SBE_SCHEMA_VERSION: u16 = 0;

pub const SBE_SEMANTIC_VERSION: &'static str = "5.2";

#[derive(Debug)]
pub struct DepthResponseEncoder<'a> {
    buf: WriteBuf<'a>,
    initial_offset: usize,
    offset: usize,
    limit: usize,
}

impl<'a> Default for DepthResponseEncoder<'a> {
    fn default() -> (r: Self)
        ensures
            r.buf()@.len() == 0,
            r.initial_offset_view() == 0,
            r.offset_view() == 0,
            r.limit_view() == 0,
    {
        Self { buf: WriteBuf::default(), initial_offset: 0, offset: 0, limit: 0 }
    }
}

impl<'a> Writer<'a> for DepthResponseEncoder<'a> {
    open spec fn buf_ok(&self) -> bool {
        true
    }

    closed spec fn buf(self) -> WriteBuf<'a> {
        self.buf
    }

    closed spec fn with_buf(self, buf: WriteBuf<'a>) -> Self {
        Self { buf, ..self }
    }

    proof fn lemma_with_buf(self) {
    }

    proof fn lemma_resolved(self) {
        self.lemma_buf_resolved();
        self.buf.lemma_resolved();
    }

    fn get_buf_mut(&mut self) -> (r: &mut WriteBuf<'a>) {
        &mut self.buf
    }
}

impl<'a> Encoder<'a> for DepthResponseEncoder<'a> {
    closed spec fn limit_view(self) -> usize {
        self.limit
    }

    closed spec fn with_limit(self, limit: usize) -> Self {
        Self { limit, ..self }
    }

    proof fn lemma_with_limit(self) {
    }

    fn get_limit(&self) -> (r: usize) {
        self.limit
    }

    fn set_limit(&mut self, limit: usize) {
        self.limit = limit;
    }
}

impl<'a> DepthResponseEncoder<'a> {
    /// Where nothing writes through this encoder any more, nothing writes
    /// through its buffer.
    proof fn lemma_buf_resolved(self)
        requires
            has_resolved(self),
        ensures
            has_resolved(self.buf),
    {
    }

    pub closed spec fn initial_offset_view(self) -> usize {
        self.initial_offset
    }

    /// Where the fixed block begins.
    pub closed spec fn offset_view(self) -> usize {
        self.offset
    }

    /// This encoder stands where `pre` stood, but for the limit, which is
    /// at `limit` (what the buffer holds may differ).
    pub open spec fn placed_as(self, pre: Self, limit: usize) -> bool {
        &&& self.limit_view() == limit
        &&& self.offset_view() == pre.offset_view()
        &&& self.initial_offset_view() == pre.initial_offset_view()
    }

    /// Exchanging the buffer or the limit leaves the offsets alone.
    pub proof fn lemma_frame(self)
        ensures
            forall|buf: WriteBuf<'a>|
                #![trigger self.with_buf(buf)]
                self.with_buf(buf).offset_view() == self.offset_view() && self.with_buf(
                    buf,
                ).initial_offset_view() == self.initial_offset_view(),
            forall|limit: usize|
                #![trigger self.with_limit(limit)]
                self.with_limit(limit).offset_view() == self.offset_view() && self.with_limit(
                    limit,
                ).initial_offset_view() == self.initial_offset_view(),
    {
    }

    /// Places the encoder over `buf` with its fixed block at `offset`; the
    /// limit stands behind the block.
    pub fn wrap(self, buf: WriteBuf<'a>, offset: usize) -> (r: Self)
        requires
            offset + SBE_BLOCK_LENGTH <= usize::MAX,
        ensures
            r.buf() == buf,
            r.initial_offset_view() == offset,
            r.offset_view() == offset,
            r.limit_view() == offset + SBE_BLOCK_LENGTH,
    {
        let limit = offset + SBE_BLOCK_LENGTH as usize;
        let mut this = self;
        this.buf = buf;
        this.initial_offset = offset;
        this.offset = offset;
        this.limit = limit;
        this
    }

    /// The bytes from the start of the block to the limit.
    pub fn encoded_length(&self) -> (r: usize)
        requires
            self.offset_view() <= self.limit_view(),
        ensures
            r == self.limit_view() - self.offset_view(),
    {
        self.limit - self.offset
    }

    /// Writes the header of this message at `offset` and hands out the
    /// header's encoder, which holds this encoder as its parent.
    pub fn header(self, offset: usize) -> (r: MessageHeaderEncoder<Self>)
        requires
            offset + 8 <= self.buf()@.len(),
        ensures
            r.offset_view() == offset,
            r.parent_view() is Some,
            r.buf()@ == write_header(
                self.buf()@,
                offset as int,
                SBE_BLOCK_LENGTH,
                SBE_TEMPLATE_ID,
                SBE_SCHEMA_ID,
                SBE_SCHEMA_VERSION,
            ),
            r.buf()@.len() == self.buf()@.len(),
            final(r.buf().target())@ == final(self.buf().target())@,
            r.parent_view().unwrap().placed_as(self, self.limit_view()),
            r.parent_view().unwrap() == self.with_buf(r.buf()),
    {
        proof {
            self.buf().lemma_len();
            self.lemma_frame();
        }
        let mut header = MessageHeaderEncoder::default().wrap(self, offset);
        proof {
            header.lemma_frame();
            header.lemma_with_buf();
            self.lemma_with_buf();
        }
        header.block_length(SBE_BLOCK_LENGTH);
        proof {
            header.lemma_frame();
            header.lemma_with_buf();
            header.parent_view().unwrap().lemma_with_buf();
        }
        header.template_id(SBE_TEMPLATE_ID);
        proof {
            header.lemma_frame();
            header.lemma_with_buf();
            header.parent_view().unwrap().lemma_with_buf();
        }
        header.schema_id(SBE_SCHEMA_ID);
        proof {
            header.lemma_frame();
            header.lemma_with_buf();
            header.parent_view().unwrap().lemma_with_buf();
        }
        header.version(SBE_SCHEMA_VERSION);
        header
    }

    /// `lastUpdateId`: an `i64` at byte 0 of the block.
    pub fn last_update_id(&mut self, value: i64)
        requires
            old(self).offset_view() + 8 <= old(self).buf()@.len(),
        ensures
            final(self).buf()@ == write_i64(
                old(self).buf()@,
                old(self).offset_view() as int,
                value,
            ),
            final(self).buf()@.len() == old(self).buf()@.len(),
            final(final(self).buf().target())@ == final(old(self).buf().target())@,
            final(self).placed_as(*old(self), old(self).limit_view()),
            *final(self) == old(self).with_buf(final(self).buf()),
    {
        proof {
            self.buf().lemma_len();
            self.lemma_with_buf();
            self.lemma_frame();
            self.lemma_with_limit();
        }
        let offset = self.offset;
        self.get_buf_mut().put_i64_at(offset, value);
    }

    /// `priceExponent`: an `i8` at byte 8 of the block.
    pub fn price_exponent(&mut self, value: i8)
        requires
            old(self).offset_view() + 9 <= old(self).buf()@.len(),
        ensures
            final(self).buf()@ == write_i8(old(self).buf()@, old(self).offset_view() + 8, value),
            final(self).buf()@.len() == old(self).buf()@.len(),
            final(final(self).buf().target())@ == final(old(self).buf().target())@,
            final(self).placed_as(*old(self), old(self).limit_view()),
            *final(self) == old(self).with_buf(final(self).buf()),
    {
        proof {
            self.buf().lemma_len();
            self.lemma_with_buf();
            self.lemma_frame();
            self.lemma_with_limit();
        }
        let offset = self.offset + 8;
        self.get_buf_mut().put_i8_at(offset, value);
    }

    /// `qtyExponent`: an `i8` at byte 9 of the block.
    pub fn qty_exponent(&mut self, value: i8)
        requires
            old(self).offset_view() + 10 <= old(self).buf()@.len(),
        ensures
            final(self).buf()@ == write_i8(old(self).buf()@, old(self).offset_view() + 9, value),
            final(self).buf()@.len() == old(self).buf()@.len(),
            final(final(self).buf().target())@ == final(old(self).buf().target())@,
            final(self).placed_as(*old(self), old(self).limit_view()),
            *final(self) == old(self).with_buf(final(self).buf()),
    {
        proof {
            self.buf().lemma_len();
            self.lemma_with_buf();
            self.lemma_frame();
            self.lemma_with_limit();
        }
        let offset = self.offset + 9;
        self.get_buf_mut().put_i8_at(offset, value);
    }

    /// Opens the group `bids` for `count` elements: writes its size
    /// prefix at the limit and moves the limit behind it.
    pub fn bids_encoder(
        self,
        count: u32,
        bids_encoder: BidsEncoder<Self>,
    ) -> (r: BidsEncoder<Self>)
        requires
            self.limit_view() + 6 <= self.buf()@.len(),
        ensures
            r.opened(self, count),
            final(r.buf().target())@ == final(self.buf().target())@,
    {
        bids_encoder.wrap(self, count)
    }

    /// Opens the group `asks` for `count` elements: writes its size
    /// prefix at the limit and moves the limit behind it.
    pub fn asks_encoder(
        self,
        count: u32,
        asks_encoder: AsksEncoder<Self>,
    ) -> (r: AsksEncoder<Self>)
        requires
            self.limit_view() + 6 <= self.buf()@.len(),
        ensures
            r.opened(self, count),
            final(r.buf().target())@ == final(self.buf().target())@,
    {
        asks_encoder.wrap(self, count)
    }
}

/// The bytes after every fixed field of the block at `base` was set
/// once, in the order of the fields: what the setters make of `s`.
#[verifier::opaque]
pub open spec fn block_written(
    s: Seq<u8>,
    base: int,
    last_update_id: i64,
    price_exponent: i8,
    qty_exponent: i8,
) -> Seq<u8> {
    let s = write_i64(s, base, last_update_id);
    let s = write_i8(s, base + 8, price_exponent);
    let s = write_i8(s, base + 9, qty_exponent);
    s
}

/// Every fixed field of the block is read as it was set: the fields
/// lie side by side within the block, and the length is as it was.
pub proof fn lemma_block_round_trip(
    s: Seq<u8>,
    base: int,
    last_update_id: i64,
    price_exponent: i8,
    qty_exponent: i8,
)
    requires
        0 <= base,
        base + SBE_BLOCK_LENGTH <= s.len(),
    ensures
        ({
            let t = block_written(s, base, last_update_id, price_exponent, qty_exponent);
            &&& t.len() == s.len()
            &&& read_i64(t, base) == last_update_id
            &&& read_i8(t, base + 8) == price_exponent
            &&& read_i8(t, base + 9) == qty_exponent
        }),
{
    reveal(block_written);
    let b1 = u64_to_le(u64_of(last_update_id));
    lemma_u64_value(u64_of(last_update_id));
    let b2 = seq![u8_of(price_exponent)];
    let b3 = seq![u8_of(qty_exponent)];
    let fields = |k: int|
        if k == 0 {
            (0int, b1)
        } else if k == 1 {
            (8int, b2)
        } else if k == 2 {
            (9int, b3)
        } else {
            (0int, Seq::<u8>::empty())
        };
    lemma_next_field(s, base, fields, 0, 0, 8);
    lemma_next_field(s, base, fields, 1, 8, 9);
    lemma_next_field(s, base, fields, 2, 9, 10);
    lemma_side_by_side_wider(fields, 3, 10, SBE_BLOCK_LENGTH as int);
    let t = laid(s, base, fields, 3);
    lemma_laid(s, base, fields, 3, SBE_BLOCK_LENGTH as int, 0);
    lemma_read_spelled(t, base, 0, 0, 0, last_update_id);
    lemma_laid(s, base, fields, 3, SBE_BLOCK_LENGTH as int, 1);
    lemma_read_spelled(t, base + 8, price_exponent, 0, 0, 0);
    lemma_laid(s, base, fields, 3, SBE_BLOCK_LENGTH as int, 2);
    lemma_read_spelled(t, base + 9, qty_exponent, 0, 0, 0);
}

/// The block written with what is read from it is as it was.
pub proof fn lemma_block_written_back(s: Seq<u8>, base: int)
    requires
        0 <= base,
        base + SBE_BLOCK_LENGTH <= s.len(),

    ensures
        block_written(
            s,
            base,
            read_i64(s, base),
            read_i8(s, base + 8),
            read_i8(s, base + 9),
        ) == s,
{
    reveal(block_written);
    lemma_round_trip_64(s, base, 0, 0);
    lemma_round_trip_8(s, base + 8, 0, 0);
    lemma_round_trip_8(s, base + 9, 0, 0);
}

#[derive(Debug)]
pub struct BidsEncoder<P> {
    parent: Option<P>,
    count: u32,
    index: usize,
    offset: usize,
    initial_limit: usize,
}

impl<P> Default for BidsEncoder<P> {
    fn default() -> (r: Self)
        ensures
            r.parent_view() is None,
            r.count_view() == 0,
            r.index_view() == 0,
            r.offset_view() == 0,
            r.initial_limit_view() == 0,
    {
        Self { parent: None, count: 0, index: 0, offset: 0, initial_limit: 0 }
    }
}

impl<P> BidsEncoder<P> {
    /// Where nothing writes through this codec any more, nothing writes
    /// through its parent.
    proof fn lemma_parent_resolved(self)
        requires
            has_resolved(self),
            self.parent is Some,
        ensures
            has_resolved(self.parent->0),
    {
    }

    pub closed spec fn parent_view(self) -> Option<P> {
        self.parent
    }

    pub closed spec fn count_view(self) -> u32 {
        self.count
    }

    pub closed spec fn index_view(self) -> usize {
        self.index
    }

    pub closed spec fn offset_view(self) -> usize {
        self.offset
    }

    pub closed spec fn initial_limit_view(self) -> usize {
        self.initial_limit
    }

    /// This codec over another parent, all else kept.
    pub closed spec fn with_parent(self, parent: Option<P>) -> Self {
        Self { parent, ..self }
    }

    /// This codec at another element, all else kept.
    pub closed spec fn with_position(self, index: usize, offset: usize) -> Self {
        Self { index, offset, ..self }
    }

    /// What the exchanges above keep and what they put.
    pub proof fn lemma_frame(self)
        ensures
            forall|parent: Option<P>|
                #![trigger self.with_parent(parent)]
                {
                    let w = self.with_parent(parent);
                    &&& w.parent_view() == parent
                    &&& w.count_view() == self.count_view()
                    &&& w.index_view() == self.index_view()
                    &&& w.offset_view() == self.offset_view()
                    &&& w.initial_limit_view() == self.initial_limit_view()
                },
            forall|first: Option<P>, second: Option<P>|
                #![trigger self.with_parent(first).with_parent(second)]
                self.with_parent(first).with_parent(second) == self.with_parent(second),
            self.with_parent(self.parent_view()) == self,
            forall|index: usize, offset: usize|
                #![trigger self.with_position(index, offset)]
                {
                    let w = self.with_position(index, offset);
                    &&& w.parent_view() == self.parent_view()
                    &&& w.index_view() == index
                    &&& w.offset_view() == offset
                    &&& w.count_view() == self.count_view()
                    &&& w.initial_limit_view() == self.initial_limit_view()
                },
            forall|parent: Option<P>, index: usize, offset: usize|
                #![trigger self.with_parent(parent).with_position(index, offset)]
                self.with_parent(parent).with_position(index, offset) == self.with_position(
                    index,
                    offset,
                ).with_parent(parent),
    {
    }
}

impl<'a, P> Writer<'a> for BidsEncoder<P> where P: Writer<'a> + Default {
    open spec fn buf_ok(&self) -> bool {
        self.parent_view() is Some && self.parent_view().unwrap().buf_ok()
    }

    open spec fn buf(self) -> WriteBuf<'a> {
        self.parent_view().unwrap().buf()
    }

    open spec fn with_buf(self, buf: WriteBuf<'a>) -> Self {
        self.with_parent(Some(self.parent_view().unwrap().with_buf(buf)))
    }

    proof fn lemma_with_buf(self) {
        self.parent_view().unwrap().lemma_with_buf();
        self.lemma_frame();
    }

    proof fn lemma_resolved(self) {
        self.lemma_parent_resolved();
        self.parent_view().unwrap().lemma_resolved();
    }

    fn get_buf_mut(&mut self) -> (r: &mut WriteBuf<'a>) {
        if let Some(parent) = self.parent.as_mut() {
            parent.get_buf_mut()
        } else {
            vstd::pervasive::unreached()
        }
    }
}

impl<'a, P> Encoder<'a> for BidsEncoder<P> where P: Encoder<'a> + Default {
    open spec fn limit_view(self) -> usize {
        self.parent_view().unwrap().limit_view()
    }

    open spec fn with_limit(self, limit: usize) -> Self {
        self.with_parent(Some(self.parent_view().unwrap().with_limit(limit)))
    }

    proof fn lemma_with_limit(self) {
        self.parent_view().unwrap().lemma_with_buf();
        self.parent_view().unwrap().lemma_with_limit();
        self.lemma_frame();
    }

    fn get_limit(&self) -> (r: usize) {
        self.parent.as_ref().expect("parent missing").get_limit()
    }

    fn set_limit(&mut self, limit: usize) {
        self.parent.as_mut().expect("parent missing").set_limit(limit);
    }
}

impl<'a, P> BidsEncoder<P> where P: Encoder<'a> + Default {
    /// This codec stands where `pre` stood, but for the limit, which is at
    /// `limit` (what the buffer holds may differ).
    pub open spec fn placed_as(self, pre: Self, limit: usize) -> bool {
        &&& self.buf_ok()
        &&& self.limit_view() == limit
        &&& self.count_view() == pre.count_view()
        &&& self.index_view() == pre.index_view()
        &&& self.offset_view() == pre.offset_view()
        &&& self.initial_limit_view() == pre.initial_limit_view()
    }

    /// The bytes that one element's fixed fields take.
    pub open spec fn block_length_view() -> u16 {
        16
    }

    /// Where the walk over the elements stands.
    pub open spec fn cursor(self) -> Cursor {
        Cursor {
            count: self.count_view() as u32,
            index: self.index_view(),
            offset: self.offset_view(),
            block_length: Self::block_length_view() as usize,
            limit: self.limit_view(),
        }
    }

    /// What `wrap` makes of `parent` and `count`: the size prefix is
    /// written at the parent's limit, the limit stands behind it, and the
    /// codec stands before the first element.
    pub open spec fn opened(self, parent: P, count: u32) -> bool {
        &&& self.count_view() == count
        &&& self.index_view() == usize::MAX
        &&& self.offset_view() == usize::MAX
        &&& self.initial_limit_view() == parent.limit_view()
        &&& self.buf_ok()
        &&& self.limit_view() == parent.limit_view() + 6
        &&& self.buf()@ == write_group_size(
            parent.buf()@,
            parent.limit_view() as int,
            Self::block_length_view(),
            count,
        )
        &&& self.buf()@.len() == parent.buf()@.len()
        &&& self.parent_view().unwrap() == parent.with_limit(
            (parent.limit_view() + 6) as usize,
        ).with_buf(self.buf())
    }

    /// Opens the group at the parent's limit for `count` elements.
    pub fn wrap(self, parent: P, count: u32) -> (r: Self)
        requires
            parent.buf_ok(),
            parent.limit_view() + 6 <= parent.buf()@.len(),
        ensures
            r.opened(parent, count),
            final(r.buf().target())@ == final(parent.buf().target())@,
    {
        let mut parent = parent;
        proof {
            parent.buf().lemma_len();
            parent.lemma_with_limit();
            parent.lemma_with_buf();
        }
        let initial_limit = parent.get_limit();
        parent.set_limit(initial_limit + 6);
        proof {
            parent.lemma_with_buf();
            parent.lemma_with_limit();
        }
        parent.get_buf_mut().put_u16_at(initial_limit, Self::block_length());
        proof {
            parent.lemma_with_buf();
            parent.lemma_with_limit();
        }
        parent.get_buf_mut().put_u32_at(initial_limit + 2, count);
        proof {
            self.lemma_frame();
        }
        let mut this = self;
        this.parent = Some(parent);
        this.count = count;
        this.index = usize::MAX;
        this.offset = usize::MAX;
        this.initial_limit = initial_limit;
        this
    }

    /// The bytes that one element's fixed fields take.
    pub fn block_length() -> (r: u16)
        ensures
            r == Self::block_length_view(),
    {
        16
    }

    /// Hands the parent back; after that this codec reaches no buffer.
    pub fn parent(&mut self) -> (r: SbeResult<P>)
        ensures
            r == match old(self).parent_view() {
                Some(p) => Ok::<P, SbeErr>(p),
                None => Err::<P, SbeErr>(SbeErr::ParentNotSet),
            },
            *final(self) == old(self).with_parent(None),
    {
        self.parent.take().ok_or(SbeErr::ParentNotSet)
    }

    /// An element is left to move to, and the parent is there to move in.
    pub open spec fn can_advance(self) -> bool {
        has_next(self.cursor()) && self.parent_view() is Some
    }

    /// What `advance` makes of `pre` where it moves: the cursor has taken
    /// one step, and all else is as it was.
    pub open spec fn advanced(self, pre: Self) -> bool {
        &&& self.cursor() == step(pre.cursor())
        &&& self.buf_ok()
        &&& self.buf() == pre.buf()
        &&& self.initial_limit_view() == pre.initial_limit_view()
        &&& self == pre.with_limit(step(pre.cursor()).limit).with_position(
            step(pre.cursor()).index,
            step(pre.cursor()).offset,
        )
    }

    /// Moves to the next element, if one is left: it begins at the limit,
    /// and the limit moves behind its fixed fields.
    pub fn advance(&mut self) -> (r: SbeResult<Option<usize>>)
        requires
            old(self).can_advance() ==> old(self).buf_ok() && old(self).limit_view() + old(
                self,
            ).cursor().block_length <= usize::MAX,
        ensures
            r == advance_result(old(self).cursor(), old(self).parent_view() is Some),
            old(self).can_advance() ==> final(self).advanced(*old(self)),
            !old(self).can_advance() ==> *final(self) == *old(self),
    {
        proof {
            self.lemma_frame();
            if self.parent_view() is Some {
                self.with_limit(step(self.cursor()).limit).lemma_frame();
            }
        }
        let index = self.index.wrapping_add(1);
        if index >= self.count as usize {
            return Ok(None);
        }
        if let Some(parent) = self.parent.as_mut() {
            proof {
                parent.lemma_with_limit();
            }
            self.offset = parent.get_limit();
            parent.set_limit(self.offset + Self::block_length() as usize);
            self.index = index;
            Ok(Some(index))
        } else {
            Err(SbeErr::ParentNotSet)
        }
    }

    /// `price`: an `i64` at byte 0 of the block.
    pub fn price(&mut self, value: i64)
        requires
            old(self).buf_ok(),
            old(self).offset_view() + 8 <= old(self).buf()@.len(),
        ensures
            final(self).buf()@ == write_i64(
                old(self).buf()@,
                old(self).offset_view() as int,
                value,
            ),
            final(self).buf()@.len() == old(self).buf()@.len(),
            final(final(self).buf().target())@ == final(old(self).buf().target())@,
            final(self).placed_as(*old(self), old(self).limit_view()),
            *final(self) == old(self).with_buf(final(self).buf()),
    {
        proof {
            self.buf().lemma_len();
            self.lemma_with_buf();
            self.lemma_frame();
            self.lemma_with_limit();
        }
        let offset = self.offset;
        self.get_buf_mut().put_i64_at(offset, value);
    }

    /// `qty`: an `i64` at byte 8 of the block.
    pub fn qty(&mut self, value: i64)
        requires
            old(self).buf_ok(),
            old(self).offset_view() + 16 <= old(self).buf()@.len(),
        ensures
            final(self).buf()@ == write_i64(old(self).buf()@, old(self).offset_view() + 8, value),
            final(self).buf()@.len() == old(self).buf()@.len(),
            final(final(self).buf().target())@ == final(old(self).buf().target())@,
            final(self).placed_as(*old(self), old(self).limit_view()),
            *final(self) == old(self).with_buf(final(self).buf()),
    {
        proof {
            self.buf().lemma_len();
            self.lemma_with_buf();
            self.lemma_frame();
            self.lemma_with_limit();
        }
        let offset = self.offset + 8;
        self.get_buf_mut().put_i64_at(offset, value);
    }
}

/// The bytes after every fixed field of an element of `bids` at `base` was set
/// once, in the order of the fields: what the setters make of `s`.
#[verifier::opaque]
pub open spec fn bids_block_written(
    s: Seq<u8>,
    base: int,
    price: i64,
    qty: i64,
) -> Seq<u8> {
    let s = write_i64(s, base, price);
    let s = write_i64(s, base + 8, qty);
    s
}

/// Every fixed field of an element of `bids` is read as it was set: the fields
/// lie side by side within the block, and the length is as it was.
pub proof fn lemma_bids_block_round_trip(
    s: Seq<u8>,
    base: int,
    price: i64,
    qty: i64,
)
    requires
        0 <= base,
        base + 16 <= s.len(),
    ensures
        ({
            let t = bids_block_written(s, base, price, qty);
            &&& t.len() == s.len()
            &&& read_i64(t, base) == price
            &&& read_i64(t, base + 8) == qty
        }),
{
    reveal(bids_block_written);
    let b1 = u64_to_le(u64_of(price));
    lemma_u64_value(u64_of(price));
    let b2 = u64_to_le(u64_of(qty));
    lemma_u64_value(u64_of(qty));
    let fields = |k: int|
        if k == 0 {
            (0int, b1)
        } else if k == 1 {
            (8int, b2)
        } else {
            (0int, Seq::<u8>::empty())
        };
    lemma_next_field(s, base, fields, 0, 0, 8);
    lemma_next_field(s, base, fields, 1, 8, 16);
    lemma_side_by_side_wider(fields, 2, 16, 16);
    let t = laid(s, base, fields, 2);
    lemma_laid(s, base, fields, 2, 16, 0);
    lemma_read_spelled(t, base, 0, 0, 0, price);
    lemma_laid(s, base, fields, 2, 16, 1);
    lemma_read_spelled(t, base + 8, 0, 0, 0, qty);
}

/// An element of `bids` written with what is read from it is as it was.
pub proof fn lemma_bids_block_written_back(s: Seq<u8>, base: int)
    requires
        0 <= base,
        base + 16 <= s.len(),

    ensures
        bids_block_written(s, base, read_i64(s, base), read_i64(s, base + 8)) == s,
{
    reveal(bids_block_written);
    lemma_round_trip_64(s, base, 0, 0);
    lemma_round_trip_64(s, base + 8, 0, 0);
}

/// One more element of `bids`: an encoder that has written `i`
/// elements from `start` on, whatever its parent is, has written
/// `i + 1` of them once `advance` and each setter were called.
/// `moved` is the encoder after `advance`, and `set` the encoder after
/// each of the setters, in the order of the fields.
pub proof fn lemma_bids_element_written<'a, P: Encoder<'a> + Default>(
    s: Seq<u8>,
    start: int,
    price: Seq<i64>,
    qty: Seq<i64>,
    i: nat,
    before: BidsEncoder<P>,
    moved: BidsEncoder<P>,
    set: Seq<BidsEncoder<P>>,
)
    requires
        before.buf()@ == bids_elements_written(s, start, price, qty, i),
        before.limit_view() == start + i * 16,
        before.limit_view() + 16 <= usize::MAX,
        before.can_advance(),
        moved.advanced(before),
        set.len() == 2,
        set[0].buf()@ == write_i64(
            moved.buf()@,
            moved.offset_view() as int,
            price[i as int],
        ),
        set[0].placed_as(moved, moved.limit_view()),
        set[1].buf()@ == write_i64(
            set[0].buf()@,
            set[0].offset_view() + 8,
            qty[i as int],
        ),
        set[1].placed_as(set[0], set[0].limit_view()),
    ensures
        set[1].buf()@ == bids_elements_written(s, start, price, qty, i + 1),
        set[1].limit_view() == start + (i + 1) * 16,
        set[1].placed_as(moved, moved.limit_view()),
{
    reveal(bids_block_written);
}

/// The bytes before an element of `bids` and behind it stay as they
/// were when its fields are set.
pub proof fn lemma_bids_block_apart(
    s: Seq<u8>,
    base: int,
    price: i64,
    qty: i64,
    j: int,
    w: int,
)
    requires
        0 <= base,
        base + 16 <= s.len(),
        0 <= j,
        0 <= w,
        j + w <= s.len(),
        j + w <= base || base + 16 <= j,
    ensures
        ({
            let t = bids_block_written(s, base, price, qty);
            &&& t.len() == s.len()
            &&& t.subrange(j, j + w) == s.subrange(j, j + w)
            &&& w >= 1 ==> t[j] == s[j]
        }),
{
    reveal(bids_block_written);
    let b1 = u64_to_le(u64_of(price));
    lemma_u64_value(u64_of(price));
    let b2 = u64_to_le(u64_of(qty));
    lemma_u64_value(u64_of(qty));
    let fields = |k: int|
        if k == 0 {
            (0int, b1)
        } else if k == 1 {
            (8int, b2)
        } else {
            (0int, Seq::<u8>::empty())
        };
    lemma_next_field(s, base, fields, 0, 0, 8);
    lemma_next_field(s, base, fields, 1, 8, 16);
    lemma_side_by_side_wider(fields, 2, 16, 16);
    lemma_laid_apart(s, base, fields, 2, 16, j, w);
}

/// The first `n` elements of `bids`, written one behind the other
/// from `start` on: what `advance` and the setters, each called once
/// for each element, make of `s`. Element `i` takes its fields from
/// place `i` of the sequences.
pub open spec fn bids_elements_written(
    s: Seq<u8>,
    start: int,
    price: Seq<i64>,
    qty: Seq<i64>,
    n: nat,
) -> Seq<u8>
    decreases n,
{
    if n == 0 {
        s
    } else {
        bids_block_written(
            bids_elements_written(s, start, price, qty, (n - 1) as nat),
            start + (n - 1) * 16,
            price[n - 1],
            qty[n - 1],
        )
    }
}

/// The elements of `bids` leave what lies before them and behind
/// them as it was.
pub proof fn lemma_bids_elements_apart(
    s: Seq<u8>,
    start: int,
    price: Seq<i64>,
    qty: Seq<i64>,
    n: nat,
    j: int,
    w: int,
)
    requires
        0 <= start,
        start + n * 16 <= s.len(),
        0 <= j,
        0 <= w,
        j + w <= s.len(),
        j + w <= start || start + n * 16 <= j,
    ensures
        ({
            let t = bids_elements_written(s, start, price, qty, n);
            &&& t.len() == s.len()
            &&& t.subrange(j, j + w) == s.subrange(j, j + w)
            &&& w >= 1 ==> t[j] == s[j]
        }),
    decreases n,
{
    if n > 0 {
        let m = (n - 1) as nat;
        let u = bids_elements_written(s, start, price, qty, m);
        lemma_bids_elements_apart(s, start, price, qty, m, j, w);
        lemma_bids_block_apart(u, start + m * 16, price[m as int], qty[m as int], j, w);
    }
}

/// Every element of `bids` is read as it was written: element `i`
/// begins `i` blocks behind `start`, and its fields are those at place
/// `i` of the sequences.
pub proof fn lemma_bids_elements_round_trip(
    s: Seq<u8>,
    start: int,
    price: Seq<i64>,
    qty: Seq<i64>,
    n: nat,
    i: int,
)
    requires
        0 <= start,
        start + n * 16 <= s.len(),
        0 <= i < n,
    ensures
        ({
            let t = bids_elements_written(s, start, price, qty, n);
            &&& t.len() == s.len()
            &&& read_i64(t, start + i * 16) == price[i]
            &&& read_i64(t, start + i * 16 + 8) == qty[i]
        }),
    decreases n,
{
    let m = (n - 1) as nat;
    let u = bids_elements_written(s, start, price, qty, m);
    let base = start + m * 16;
    lemma_bids_elements_apart(s, start, price, qty, m, 0, 0);
    if i == m {
        lemma_bids_block_round_trip(u, base, price[i], qty[i]);
    } else {
        lemma_bids_elements_round_trip(s, start, price, qty, m, i);
        lemma_bids_block_apart(u, base, price[m as int], qty[m as int], start + i * 16, 8);
        lemma_bids_block_apart(
            u,
            base,
            price[m as int],
            qty[m as int],
            start + i * 16 + 8,
            8,
        );
    }
}

/// The group `bids` of `n` elements, written at `limit`: the size
/// prefix, and behind it the elements. This is what `wrap` with the
/// count `n`, and then `advance` and the setters for each element, make
/// of `s`.
pub open spec fn bids_group_written(
    s: Seq<u8>,
    limit: int,
    price: Seq<i64>,
    qty: Seq<i64>,
    n: nat,
) -> Seq<u8> {
    bids_elements_written(
        write_group_size(s, limit, 16, n as u32),
        limit + 6,
        price,
        qty,
        n,
    )
}

/// A group is read as it was written: the block length and the count
/// of the size prefix, and every element.
pub proof fn lemma_bids_group_round_trip(
    s: Seq<u8>,
    limit: int,
    price: Seq<i64>,
    qty: Seq<i64>,
    n: nat,
    i: int,
)
    requires
        0 <= limit,
        limit + 6 + n * 16 <= s.len(),
        n <= u32::MAX,
    ensures
        ({
            let t = bids_group_written(s, limit, price, qty, n);
            &&& t.len() == s.len()
            &&& read_u16(t, limit) == 16
            &&& read_u32(t, limit + 2) == n
            &&& 0 <= i < n ==> {
                &&& read_i64(t, limit + 6 + i * 16) == price[i]
                &&& read_i64(t, limit + 6 + i * 16 + 8) == qty[i]
            }
        }),
{
    let p = write_group_size(s, limit, 16, n as u32);
    lemma_group_size_round_trip(s, limit, 16, n as u32, 0);
    lemma_bids_elements_apart(p, limit + 6, price, qty, n, limit, 2);
    lemma_bids_elements_apart(p, limit + 6, price, qty, n, limit + 2, 4);
    if 0 <= i < n {
        lemma_bids_elements_round_trip(p, limit + 6, price, qty, n, i);
    }
}

#[derive(Debug)]
pub struct AsksEncoder<P> {
    parent: Option<P>,
    count: u32,
    index: usize,
    offset: usize,
    initial_limit: usize,
}

impl<P> Default for AsksEncoder<P> {
    fn default() -> (r: Self)
        ensures
            r.parent_view() is None,
            r.count_view() == 0,
            r.index_view() == 0,
            r.offset_view() == 0,
            r.initial_limit_view() == 0,
    {
        Self { parent: None, count: 0, index: 0, offset: 0, initial_limit: 0 }
    }
}

impl<P> AsksEncoder<P> {
    /// Where nothing writes through this codec any more, nothing writes
    /// through its parent.
    proof fn lemma_parent_resolved(self)
        requires
            has_resolved(self),
            self.parent is Some,
        ensures
            has_resolved(self.parent->0),
    {
    }

    pub closed spec fn parent_view(self) -> Option<P> {
        self.parent
    }

    pub closed spec fn count_view(self) -> u32 {
        self.count
    }

    pub closed spec fn index_view(self) -> usize {
        self.index
    }

    pub closed spec fn offset_view(self) -> usize {
        self.offset
    }

    pub closed spec fn initial_limit_view(self) -> usize {
        self.initial_limit
    }

    /// This codec over another parent, all else kept.
    pub closed spec fn with_parent(self, parent: Option<P>) -> Self {
        Self { parent, ..self }
    }

    /// This codec at another element, all else kept.
    pub closed spec fn with_position(self, index: usize, offset: usize) -> Self {
        Self { index, offset, ..self }
    }

    /// What the exchanges above keep and what they put.
    pub proof fn lemma_frame(self)
        ensures
            forall|parent: Option<P>|
                #![trigger self.with_parent(parent)]
                {
                    let w = self.with_parent(parent);
                    &&& w.parent_view() == parent
                    &&& w.count_view() == self.count_view()
                    &&& w.index_view() == self.index_view()
                    &&& w.offset_view() == self.offset_view()
                    &&& w.initial_limit_view() == self.initial_limit_view()
                },
            forall|first: Option<P>, second: Option<P>|
                #![trigger self.with_parent(first).with_parent(second)]
                self.with_parent(first).with_parent(second) == self.with_parent(second),
            self.with_parent(self.parent_view()) == self,
            forall|index: usize, offset: usize|
                #![trigger self.with_position(index, offset)]
                {
                    let w = self.with_position(index, offset);
                    &&& w.parent_view() == self.parent_view()
                    &&& w.index_view() == index
                    &&& w.offset_view() == offset
                    &&& w.count_view() == self.count_view()
                    &&& w.initial_limit_view() == self.initial_limit_view()
                },
            forall|parent: Option<P>, index: usize, offset: usize|
                #![trigger self.with_parent(parent).with_position(index, offset)]
                self.with_parent(parent).with_position(index, offset) == self.with_position(
                    index,
                    offset,
                ).with_parent(parent),
    {
    }
}

impl<'a, P> Writer<'a> for AsksEncoder<P> where P: Writer<'a> + Default {
    open spec fn buf_ok(&self) -> bool {
        self.parent_view() is Some && self.parent_view().unwrap().buf_ok()
    }

    open spec fn buf(self) -> WriteBuf<'a> {
        self.parent_view().unwrap().buf()
    }

    open spec fn with_buf(self, buf: WriteBuf<'a>) -> Self {
        self.with_parent(Some(self.parent_view().unwrap().with_buf(buf)))
    }

    proof fn lemma_with_buf(self) {
        self.parent_view().unwrap().lemma_with_buf();
        self.lemma_frame();
    }

    proof fn lemma_resolved(self) {
        self.lemma_parent_resolved();
        self.parent_view().unwrap().lemma_resolved();
    }

    fn get_buf_mut(&mut self) -> (r: &mut WriteBuf<'a>) {
        if let Some(parent) = self.parent.as_mut() {
            parent.get_buf_mut()
        } else {
            vstd::pervasive::unreached()
        }
    }
}

impl<'a, P> Encoder<'a> for AsksEncoder<P> where P: Encoder<'a> + Default {
    open spec fn limit_view(self) -> usize {
        self.parent_view().unwrap().limit_view()
    }

    open spec fn with_limit(self, limit: usize) -> Self {
        self.with_parent(Some(self.parent_view().unwrap().with_limit(limit)))
    }

    proof fn lemma_with_limit(self) {
        self.parent_view().unwrap().lemma_with_buf();
        self.parent_view().unwrap().lemma_with_limit();
        self.lemma_frame();
    }

    fn get_limit(&self) -> (r: usize) {
        self.parent.as_ref().expect("parent missing").get_limit()
    }

    fn set_limit(&mut self, limit: usize) {
        self.parent.as_mut().expect("parent missing").set_limit(limit);
    }
}

impl<'a, P> AsksEncoder<P> where P: Encoder<'a> + Default {
    /// This codec stands where `pre` stood, but for the limit, which is at
    /// `limit` (what the buffer holds may differ).
    pub open spec fn placed_as(self, pre: Self, limit: usize) -> bool {
        &&& self.buf_ok()
        &&& self.limit_view() == limit
        &&& self.count_view() == pre.count_view()
        &&& self.index_view() == pre.index_view()
        &&& self.offset_view() == pre.offset_view()
        &&& self.initial_limit_view() == pre.initial_limit_view()
    }

    /// The bytes that one element's fixed fields take.
    pub open spec fn block_length_view() -> u16 {
        16
    }

    /// Where the walk over the elements stands.
    pub open spec fn cursor(self) -> Cursor {
        Cursor {
            count: self.count_view() as u32,
            index: self.index_view(),
            offset: self.offset_view(),
            block_length: Self::block_length_view() as usize,
            limit: self.limit_view(),
        }
    }

    /// What `wrap` makes of `parent` and `count`: the size prefix is
    /// written at the parent's limit, the limit stands behind it, and the
    /// codec stands before the first element.
    pub open spec fn opened(self, parent: P, count: u32) -> bool {
        &&& self.count_view() == count
        &&& self.index_view() == usize::MAX
        &&& self.offset_view() == usize::MAX
        &&& self.initial_limit_view() == parent.limit_view()
        &&& self.buf_ok()
        &&& self.limit_view() == parent.limit_view() + 6
        &&& self.buf()@ == write_group_size(
            parent.buf()@,
            parent.limit_view() as int,
            Self::block_length_view(),
            count,
        )
        &&& self.buf()@.len() == parent.buf()@.len()
        &&& self.parent_view().unwrap() == parent.with_limit(
            (parent.limit_view() + 6) as usize,
        ).with_buf(self.buf())
    }

    /// Opens the group at the parent's limit for `count` elements.
    pub fn wrap(self, parent: P, count: u32) -> (r: Self)
        requires
            parent.buf_ok(),
            parent.limit_view() + 6 <= parent.buf()@.len(),
        ensures
            r.opened(parent, count),
            final(r.buf().target())@ == final(parent.buf().target())@,
    {
        let mut parent = parent;
        proof {
            parent.buf().lemma_len();
            parent.lemma_with_limit();
            parent.lemma_with_buf();
        }
        let initial_limit = parent.get_limit();
        parent.set_limit(initial_limit + 6);
        proof {
            parent.lemma_with_buf();
            parent.lemma_with_limit();
        }
        parent.get_buf_mut().put_u16_at(initial_limit, Self::block_length());
        proof {
            parent.lemma_with_buf();
            parent.lemma_with_limit();
        }
        parent.get_buf_mut().put_u32_at(initial_limit + 2, count);
        proof {
            self.lemma_frame();
        }
        let mut this = self;
        this.parent = Some(parent);
        this.count = count;
        this.index = usize::MAX;
        this.offset = usize::MAX;
        this.initial_limit = initial_limit;
        this
    }

    /// The bytes that one element's fixed fields take.
    pub fn block_length() -> (r: u16)
        ensures
            r == Self::block_length_view(),
    {
        16
    }

    /// Hands the parent back; after that this codec reaches no buffer.
    pub fn parent(&mut self) -> (r: SbeResult<P>)
        ensures
            r == match old(self).parent_view() {
                Some(p) => Ok::<P, SbeErr>(p),
                None => Err::<P, SbeErr>(SbeErr::ParentNotSet),
            },
            *final(self) == old(self).with_parent(None),
    {
        self.parent.take().ok_or(SbeErr::ParentNotSet)
    }

    /// An element is left to move to, and the parent is there to move in.
    pub open spec fn can_advance(self) -> bool {
        has_next(self.cursor()) && self.parent_view() is Some
    }

    /// What `advance` makes of `pre` where it moves: the cursor has taken
    /// one step, and all else is as it was.
    pub open spec fn advanced(self, pre: Self) -> bool {
        &&& self.cursor() == step(pre.cursor())
        &&& self.buf_ok()
        &&& self.buf() == pre.buf()
        &&& self.initial_limit_view() == pre.initial_limit_view()
        &&& self == pre.with_limit(step(pre.cursor()).limit).with_position(
            step(pre.cursor()).index,
            step(pre.cursor()).offset,
        )
    }

    /// Moves to the next element, if one is left: it begins at the limit,
    /// and the limit moves behind its fixed fields.
    pub fn advance(&mut self) -> (r: SbeResult<Option<usize>>)
        requires
            old(self).can_advance() ==> old(self).buf_ok() && old(self).limit_view() + old(
                self,
            ).cursor().block_length <= usize::MAX,
        ensures
            r == advance_result(old(self).cursor(), old(self).parent_view() is Some),
            old(self).can_advance() ==> final(self).advanced(*old(self)),
            !old(self).can_advance() ==> *final(self) == *old(self),
    {
        proof {
            self.lemma_frame();
            if self.parent_view() is Some {
                self.with_limit(step(self.cursor()).limit).lemma_frame();
            }
        }
        let index = self.index.wrapping_add(1);
        if index >= self.count as usize {
            return Ok(None);
        }
        if let Some(parent) = self.parent.as_mut() {
            proof {
                parent.lemma_with_limit();
            }
            self.offset = parent.get_limit();
            parent.set_limit(self.offset + Self::block_length() as usize);
            self.index = index;
            Ok(Some(index))
        } else {
            Err(SbeErr::ParentNotSet)
        }
    }

    /// `price`: an `i64` at byte 0 of the block.
    pub fn price(&mut self, value: i64)
        requires
            old(self).buf_ok(),
            old(self).offset_view() + 8 <= old(self).buf()@.len(),
        ensures
            final(self).buf()@ == write_i64(
                old(self).buf()@,
                old(self).offset_view() as int,
                value,
            ),
            final(self).buf()@.len() == old(self).buf()@.len(),
            final(final(self).buf().target())@ == final(old(self).buf().target())@,
            final(self).placed_as(*old(self), old(self).limit_view()),
            *final(self) == old(self).with_buf(final(self).buf()),
    {
        proof {
            self.buf().lemma_len();
            self.lemma_with_buf();
            self.lemma_frame();
            self.lemma_with_limit();
        }
        let offset = self.offset;
        self.get_buf_mut().put_i64_at(offset, value);
    }

    /// `qty`: an `i64` at byte 8 of the block.
    pub fn qty(&mut self, value: i64)
        requires
            old(self).buf_ok(),
            old(self).offset_view() + 16 <= old(self).buf()@.len(),
        ensures
            final(self).buf()@ == write_i64(old(self).buf()@, old(self).offset_view() + 8, value),
            final(self).buf()@.len() == old(self).buf()@.len(),
            final(final(self).buf().target())@ == final(old(self).buf().target())@,
            final(self).placed_as(*old(self), old(self).limit_view()),
            *final(self) == old(self).with_buf(final(self).buf()),
    {
        proof {
            self.buf().lemma_len();
            self.lemma_with_buf();
            self.lemma_frame();
            self.lemma_with_limit();
        }
        let offset = self.offset + 8;
        self.get_buf_mut().put_i64_at(offset, value);
    }
}

/// The bytes after every fixed field of an element of `asks` at `base` was set
/// once, in the order of the fields: what the setters make of `s`.
#[verifier::opaque]
pub open spec fn asks_block_written(
    s: Seq<u8>,
    base: int,
    price: i64,
    qty: i64,
) -> Seq<u8> {
    let s = write_i64(s, base, price);
    let s = write_i64(s, base + 8, qty);
    s
}

/// Every fixed field of an element of `asks` is read as it was set: the fields
/// lie side by side within the block, and the length is as it was.
pub proof fn lemma_asks_block_round_trip(
    s: Seq<u8>,
    base: int,
    price: i64,
    qty: i64,
)
    requires
        0 <= base,
        base + 16 <= s.len(),
    ensures
        ({
            let t = asks_block_written(s, base, price, qty);
            &&& t.len() == s.len()
            &&& read_i64(t, base) == price
            &&& read_i64(t, base + 8) == qty
        }),
{
    reveal(asks_block_written);
    let b1 = u64_to_le(u64_of(price));
    lemma_u64_value(u64_of(price));
    let b2 = u64_to_le(u64_of(qty));
    lemma_u64_value(u64_of(qty));
    let fields = |k: int|
        if k == 0 {
            (0int, b1)
        } else if k == 1 {
            (8int, b2)
        } else {
            (0int, Seq::<u8>::empty())
        };
    lemma_next_field(s, base, fields, 0, 0, 8);
    lemma_next_field(s, base, fields, 1, 8, 16);
    lemma_side_by_side_wider(fields, 2, 16, 16);
    let t = laid(s, base, fields, 2);
    lemma_laid(s, base, fields, 2, 16, 0);
    lemma_read_spelled(t, base, 0, 0, 0, price);
    lemma_laid(s, base, fields, 2, 16, 1);
    lemma_read_spelled(t, base + 8, 0, 0, 0, qty);
}

/// An element of `asks` written with what is read from it is as it was.
pub proof fn lemma_asks_block_written_back(s: Seq<u8>, base: int)
    requires
        0 <= base,
        base + 16 <= s.len(),

    ensures
        asks_block_written(s, base, read_i64(s, base), read_i64(s, base + 8)) == s,
{
    reveal(asks_block_written);
    lemma_round_trip_64(s, base, 0, 0);
    lemma_round_trip_64(s, base + 8, 0, 0);
}

/// One more element of `asks`: an encoder that has written `i`
/// elements from `start` on, whatever its parent is, has written
/// `i + 1` of them once `advance` and each setter were called.
/// `moved` is the encoder after `advance`, and `set` the encoder after
/// each of the setters, in the order of the fields.
pub proof fn lemma_asks_element_written<'a, P: Encoder<'a> + Default>(
    s: Seq<u8>,
    start: int,
    price: Seq<i64>,
    qty: Seq<i64>,
    i: nat,
    before: AsksEncoder<P>,
    moved: AsksEncoder<P>,
    set: Seq<AsksEncoder<P>>,
)
    requires
        before.buf()@ == asks_elements_written(s, start, price, qty, i),
        before.limit_view() == start + i * 16,
        before.limit_view() + 16 <= usize::MAX,
        before.can_advance(),
        moved.advanced(before),
        set.len() == 2,
        set[0].buf()@ == write_i64(
            moved.buf()@,
            moved.offset_view() as int,
            price[i as int],
        ),
        set[0].placed_as(moved, moved.limit_view()),
        set[1].buf()@ == write_i64(
            set[0].buf()@,
            set[0].offset_view() + 8,
            qty[i as int],
        ),
        set[1].placed_as(set[0], set[0].limit_view()),
    ensures
        set[1].buf()@ == asks_elements_written(s, start, price, qty, i + 1),
        set[1].limit_view() == start + (i + 1) * 16,
        set[1].placed_as(moved, moved.limit_view()),
{
    reveal(asks_block_written);
}

/// The bytes before an element of `asks` and behind it stay as they
/// were when its fields are set.
pub proof fn lemma_asks_block_apart(
    s: Seq<u8>,
    base: int,
    price: i64,
    qty: i64,
    j: int,
    w: int,
)
    requires
        0 <= base,
        base + 16 <= s.len(),
        0 <= j,
        0 <= w,
        j + w <= s.len(),
        j + w <= base || base + 16 <= j,
    ensures
        ({
            let t = asks_block_written(s, base, price, qty);
            &&& t.len() == s.len()
            &&& t.subrange(j, j + w) == s.subrange(j, j + w)
            &&& w >= 1 ==> t[j] == s[j]
        }),
{
    reveal(asks_block_written);
    let b1 = u64_to_le(u64_of(price));
    lemma_u64_value(u64_of(price));
    let b2 = u64_to_le(u64_of(qty));
    lemma_u64_value(u64_of(qty));
    let fields = |k: int|
        if k == 0 {
            (0int, b1)
        } else if k == 1 {
            (8int, b2)
        } else {
            (0int, Seq::<u8>::empty())
        };
    lemma_next_field(s, base, fields, 0, 0, 8);
    lemma_next_field(s, base, fields, 1, 8, 16);
    lemma_side_by_side_wider(fields, 2, 16, 16);
    lemma_laid_apart(s, base, fields, 2, 16, j, w);
}

/// The first `n` elements of `asks`, written one behind the other
/// from `start` on: what `advance` and the setters, each called once
/// for each element, make of `s`. Element `i` takes its fields from
/// place `i` of the sequences.
pub open spec fn asks_elements_written(
    s: Seq<u8>,
    start: int,
    price: Seq<i64>,
    qty: Seq<i64>,
    n: nat,
) -> Seq<u8>
    decreases n,
{
    if n == 0 {
        s
    } else {
        asks_block_written(
            asks_elements_written(s, start, price, qty, (n - 1) as nat),
            start + (n - 1) * 16,
            price[n - 1],
            qty[n - 1],
        )
    }
}

/// The elements of `asks` leave what lies before them and behind
/// them as it was.
pub proof fn lemma_asks_elements_apart(
    s: Seq<u8>,
    start: int,
    price: Seq<i64>,
    qty: Seq<i64>,
    n: nat,
    j: int,
    w: int,
)
    requires
        0 <= start,
        start + n * 16 <= s.len(),
        0 <= j,
        0 <= w,
        j + w <= s.len(),
        j + w <= start || start + n * 16 <= j,
    ensures
        ({
            let t = asks_elements_written(s, start, price, qty, n);
            &&& t.len() == s.len()
            &&& t.subrange(j, j + w) == s.subrange(j, j + w)
            &&& w >= 1 ==> t[j] == s[j]
        }),
    decreases n,
{
    if n > 0 {
        let m = (n - 1) as nat;
        let u = asks_elements_written(s, start, price, qty, m);
        lemma_asks_elements_apart(s, start, price, qty, m, j, w);
        lemma_asks_block_apart(u, start + m * 16, price[m as int], qty[m as int], j, w);
    }
}

/// Every element of `asks` is read as it was written: element `i`
/// begins `i` blocks behind `start`, and its fields are those at place
/// `i` of the sequences.
pub proof fn lemma_asks_elements_round_trip(
    s: Seq<u8>,
    start: int,
    price: Seq<i64>,
    qty: Seq<i64>,
    n: nat,
    i: int,
)
    requires
        0 <= start,
        start + n * 16 <= s.len(),
        0 <= i < n,
    ensures
        ({
            let t = asks_elements_written(s, start, price, qty, n);
            &&& t.len() == s.len()
            &&& read_i64(t, start + i * 16) == price[i]
            &&& read_i64(t, start + i * 16 + 8) == qty[i]
        }),
    decreases n,
{
    let m = (n - 1) as nat;
    let u = asks_elements_written(s, start, price, qty, m);
    let base = start + m * 16;
    lemma_asks_elements_apart(s, start, price, qty, m, 0, 0);
    if i == m {
        lemma_asks_block_round_trip(u, base, price[i], qty[i]);
    } else {
        lemma_asks_elements_round_trip(s, start, price, qty, m, i);
        lemma_asks_block_apart(u, base, price[m as int], qty[m as int], start + i * 16, 8);
        lemma_asks_block_apart(
            u,
            base,
            price[m as int],
            qty[m as int],
            start + i * 16 + 8,
            8,
        );
    }
}

/// The group `asks` of `n` elements, written at `limit`: the size
/// prefix, and behind it the elements. This is what `wrap` with the
/// count `n`, and then `advance` and the setters for each element, make
/// of `s`.
pub open spec fn asks_group_written(
    s: Seq<u8>,
    limit: int,
    price: Seq<i64>,
    qty: Seq<i64>,
    n: nat,
) -> Seq<u8> {
    asks_elements_written(
        write_group_size(s, limit, 16, n as u32),
        limit + 6,
        price,
        qty,
        n,
    )
}

/// A group is read as it was written: the block length and the count
/// of the size prefix, and every element.
pub proof fn lemma_asks_group_round_trip(
    s: Seq<u8>,
    limit: int,
    price: Seq<i64>,
    qty: Seq<i64>,
    n: nat,
    i: int,
)
    requires
        0 <= limit,
        limit + 6 + n * 16 <= s.len(),
        n <= u32::MAX,
    ensures
        ({
            let t = asks_group_written(s, limit, price, qty, n);
            &&& t.len() == s.len()
            &&& read_u16(t, limit) == 16
            &&& read_u32(t, limit + 2) == n
            &&& 0 <= i < n ==> {
                &&& read_i64(t, limit + 6 + i * 16) == price[i]
                &&& read_i64(t, limit + 6 + i * 16 + 8) == qty[i]
            }
        }),
{
    let p = write_group_size(s, limit, 16, n as u32);
    lemma_group_size_round_trip(s, limit, 16, n as u32, 0);
    lemma_asks_elements_apart(p, limit + 6, price, qty, n, limit, 2);
    lemma_asks_elements_apart(p, limit + 6, price, qty, n, limit + 2, 4);
    if 0 <= i < n {
        lemma_asks_elements_round_trip(p, limit + 6, price, qty, n, i);
    }
}

#[derive(Clone, Copy, Debug)]
pub struct DepthResponseDecoder<'a> {
    buf: ReadBuf<'a>,
    initial_offset: usize,
    offset: usize,
    limit: usize,
    pub acting_block_length: u16,
    pub acting_version: u16,
}

impl<'a> Default for DepthResponseDecoder<'a> {
    fn default() -> (r: Self)
        ensures
            r.buf()@.len() == 0,
            r.initial_offset_view() == 0,
            r.offset_view() == 0,
            r.limit_view() == 0,
            r.acting_block_length_view() == 0,
            r.acting_version_view() == 0,
    {
        Self {
            buf: ReadBuf::default(),
            initial_offset: 0,
            offset: 0,
            limit: 0,
            acting_block_length: 0,
            acting_version: 0,
        }
    }
}

impl<'a> Reader<'a> for DepthResponseDecoder<'a> {
    open spec fn buf_ok(&self) -> bool {
        true
    }

    closed spec fn buf(self) -> ReadBuf<'a> {
        self.buf
    }

    fn get_buf(&self) -> (r: &ReadBuf<'a>) {
        &self.buf
    }
}

impl<'a> Decoder<'a> for DepthResponseDecoder<'a> {
    closed spec fn limit_view(self) -> usize {
        self.limit
    }

    closed spec fn with_limit(self, limit: usize) -> Self {
        Self { limit, ..self }
    }

    proof fn lemma_with_limit(self) {
    }

    fn get_limit(&self) -> (r: usize) {
        self.limit
    }

    fn set_limit(&mut self, limit: usize) {
        self.limit = limit;
    }
}

impl<'a> DepthResponseDecoder<'a> {
    pub closed spec fn initial_offset_view(self) -> usize {
        self.initial_offset
    }

    /// Where the fixed block begins.
    pub closed spec fn offset_view(self) -> usize {
        self.offset
    }

    /// The block length that the sender declared.
    pub closed spec fn acting_block_length_view(self) -> u16 {
        self.acting_block_length
    }

    /// The schema version that the sender declared.
    pub closed spec fn acting_version_view(self) -> u16 {
        self.acting_version
    }

    /// This decoder stands where `pre` stood, but for the limit, which is
    /// at `limit`.
    pub open spec fn placed_as(self, pre: Self, limit: usize) -> bool {
        &&& self.limit_view() == limit
        &&& self.buf() == pre.buf()
        &&& self.offset_view() == pre.offset_view()
        &&& self.initial_offset_view() == pre.initial_offset_view()
        &&& self.acting_block_length_view() == pre.acting_block_length_view()
        &&& self.acting_version_view() == pre.acting_version_view()
    }

    /// Moving the limit leaves all else alone.
    pub proof fn lemma_frame(self)
        ensures
            forall|limit: usize|
                #![trigger self.with_limit(limit)]
                {
                    let w = self.with_limit(limit);
                    &&& w.offset_view() == self.offset_view()
                    &&& w.initial_offset_view() == self.initial_offset_view()
                    &&& w.acting_block_length_view() == self.acting_block_length_view()
                    &&& w.acting_version_view() == self.acting_version_view()
                },
    {
    }

    /// Places the decoder over `buf` with its fixed block at `offset`; the
    /// limit stands behind the block, whose length the sender declared.
    pub fn wrap(
        self,
        buf: ReadBuf<'a>,
        offset: usize,
        acting_block_length: u16,
        acting_version: u16,
    ) -> (r: Self)
        requires
            offset + acting_block_length <= usize::MAX,
        ensures
            r.buf() == buf,
            r.initial_offset_view() == offset,
            r.offset_view() == offset,
            r.limit_view() == offset + acting_block_length,
            r.acting_block_length_view() == acting_block_length,
            r.acting_version_view() == acting_version,
    {
        let limit = offset + acting_block_length as usize;
        let mut this = self;
        this.buf = buf;
        this.initial_offset = offset;
        this.offset = offset;
        this.limit = limit;
        this.acting_block_length = acting_block_length;
        this.acting_version = acting_version;
        this
    }

    /// The bytes from the start of the block to the limit.
    pub fn encoded_length(&self) -> (r: usize)
        requires
            self.offset_view() <= self.limit_view(),
        ensures
            r == self.limit_view() - self.offset_view(),
    {
        self.limit - self.offset
    }

    /// The block length that the sender declared.
    pub fn acting_block_length(&self) -> (r: u16)
        ensures
            r == self.acting_block_length_view(),
    {
        self.acting_block_length
    }

    /// The schema version that the sender declared.
    pub fn acting_version(&self) -> (r: u16)
        ensures
            r == self.acting_version_view(),
    {
        self.acting_version
    }

    /// Takes over from a header that announces this message: the decoder
    /// stands behind the header, on the header's buffer, with the block
    /// length and version that the header declares.
    pub fn header(self, header: MessageHeaderDecoder<ReadBuf<'a>>) -> (r: Self)
        requires
            header.buf_ok(),
            header.offset_view() + 8 <= header.buf()@.len(),
            read_u16(header.buf()@, header.offset_view() + 2) == SBE_TEMPLATE_ID,
            header.offset_view() + 8 + read_u16(header.buf()@, header.offset_view() as int)
                <= usize::MAX,
        ensures
            r.buf() == header.buf(),
            r.initial_offset_view() == header.offset_view() + 8,
            r.offset_view() == header.offset_view() + 8,
            r.acting_block_length_view() == read_u16(header.buf()@, header.offset_view() as int),
            r.acting_version_view() == read_u16(header.buf()@, header.offset_view() + 6),
            r.limit_view() == header.offset_view() + 8 + r.acting_block_length_view(),
    {
        let mut header = header;
        proof {
            header.buf().lemma_len();
        }
        let acting_block_length = header.block_length();
        let acting_version = header.version();
        let offset = header.offset() + crate::message_header_codec::ENCODED_LENGTH;
        self.wrap(header.parent().unwrap(), offset, acting_block_length, acting_version)
    }

    /// `lastUpdateId`: an `i64` at byte 0 of the block.
    pub fn last_update_id(&self) -> (r: i64)
        requires
            self.offset_view() + 8 <= self.buf()@.len(),
        ensures
            r == read_i64(self.buf()@, self.offset_view() as int),
    {
        proof {
            self.buf().lemma_len();
        }
        self.get_buf().get_i64_at(self.offset)
    }

    /// `priceExponent`: an `i8` at byte 8 of the block.
    pub fn price_exponent(&self) -> (r: i8)
        requires
            self.offset_view() + 9 <= self.buf()@.len(),
        ensures
            r == read_i8(self.buf()@, self.offset_view() + 8),
    {
        proof {
            self.buf().lemma_len();
        }
        self.get_buf().get_i8_at(self.offset + 8)
    }

    /// `qtyExponent`: an `i8` at byte 9 of the block.
    pub fn qty_exponent(&self) -> (r: i8)
        requires
            self.offset_view() + 10 <= self.buf()@.len(),
        ensures
            r == read_i8(self.buf()@, self.offset_view() + 9),
    {
        proof {
            self.buf().lemma_len();
        }
        self.get_buf().get_i8_at(self.offset + 9)
    }

    /// Opens the group `bids`: reads its size prefix at the limit and
    /// moves the limit behind it.
    pub fn bids_decoder(self) -> (r: BidsDecoder<Self>)
        requires
            self.limit_view() + 6 <= self.buf()@.len(),
        ensures
            r.opened(self),
    {
        BidsDecoder::default().wrap(self)
    }

    /// Opens the group `asks`: reads its size prefix at the limit and
    /// moves the limit behind it.
    pub fn asks_decoder(self) -> (r: AsksDecoder<Self>)
        requires
            self.limit_view() + 6 <= self.buf()@.len(),
        ensures
            r.opened(self),
    {
        AsksDecoder::default().wrap(self)
    }
}

#[derive(Debug)]
pub struct BidsDecoder<P> {
    parent: Option<P>,
    block_length: usize,
    count: u32,
    index: usize,
    offset: usize,
}

impl<P> Default for BidsDecoder<P> {
    fn default() -> (r: Self)
        ensures
            r.parent_view() is None,
            r.block_length_view() == 0,
            r.count_view() == 0,
            r.index_view() == 0,
            r.offset_view() == 0,
    {
        Self { parent: None, block_length: 0, count: 0, index: 0, offset: 0 }
    }
}

impl<P> BidsDecoder<P> {
    pub closed spec fn parent_view(self) -> Option<P> {
        self.parent
    }

    pub closed spec fn block_length_view(self) -> usize {
        self.block_length
    }

    pub closed spec fn count_view(self) -> u32 {
        self.count
    }

    pub closed spec fn index_view(self) -> usize {
        self.index
    }

    pub closed spec fn offset_view(self) -> usize {
        self.offset
    }

    /// This codec over another parent, all else kept.
    pub closed spec fn with_parent(self, parent: Option<P>) -> Self {
        Self { parent, ..self }
    }

    /// This codec at another element, all else kept.
    pub closed spec fn with_position(self, index: usize, offset: usize) -> Self {
        Self { index, offset, ..self }
    }

    /// What the exchanges above keep and what they put.
    pub proof fn lemma_frame(self)
        ensures
            forall|parent: Option<P>|
                #![trigger self.with_parent(parent)]
                {
                    let w = self.with_parent(parent);
                    &&& w.parent_view() == parent
                    &&& w.block_length_view() == self.block_length_view()
                    &&& w.count_view() == self.count_view()
                    &&& w.index_view() == self.index_view()
                    &&& w.offset_view() == self.offset_view()
                },
            forall|first: Option<P>, second: Option<P>|
                #![trigger self.with_parent(first).with_parent(second)]
                self.with_parent(first).with_parent(second) == self.with_parent(second),
            self.with_parent(self.parent_view()) == self,
            forall|index: usize, offset: usize|
                #![trigger self.with_position(index, offset)]
                {
                    let w = self.with_position(index, offset);
                    &&& w.parent_view() == self.parent_view()
                    &&& w.index_view() == index
                    &&& w.offset_view() == offset
                    &&& w.block_length_view() == self.block_length_view()
                    &&& w.count_view() == self.count_view()
                },
            forall|parent: Option<P>, index: usize, offset: usize|
                #![trigger self.with_parent(parent).with_position(index, offset)]
                self.with_parent(parent).with_position(index, offset) == self.with_position(
                    index,
                    offset,
                ).with_parent(parent),
    {
    }
}

impl<'a, P> Reader<'a> for BidsDecoder<P> where P: Reader<'a> + Default {
    open spec fn buf_ok(&self) -> bool {
        self.parent_view() is Some && self.parent_view().unwrap().buf_ok()
    }

    open spec fn buf(self) -> ReadBuf<'a> {
        self.parent_view().unwrap().buf()
    }

    fn get_buf(&self) -> (r: &ReadBuf<'a>) {
        self.parent.as_ref().expect("parent missing").get_buf()
    }
}

impl<'a, P> Decoder<'a> for BidsDecoder<P> where P: Decoder<'a> + Default {
    open spec fn limit_view(self) -> usize {
        self.parent_view().unwrap().limit_view()
    }

    open spec fn with_limit(self, limit: usize) -> Self {
        self.with_parent(Some(self.parent_view().unwrap().with_limit(limit)))
    }

    proof fn lemma_with_limit(self) {
        self.parent_view().unwrap().lemma_with_limit();
        self.lemma_frame();
    }

    fn get_limit(&self) -> (r: usize) {
        self.parent.as_ref().expect("parent missing").get_limit()
    }

    fn set_limit(&mut self, limit: usize) {
        self.parent.as_mut().expect("parent missing").set_limit(limit);
    }
}

impl<'a, P> BidsDecoder<P> where P: Decoder<'a> + Default {
    /// This codec stands where `pre` stood, but for the limit, which is at
    /// `limit`.
    pub open spec fn placed_as(self, pre: Self, limit: usize) -> bool {
        &&& self.buf_ok()
        &&& self.limit_view() == limit
        &&& self.block_length_view() == pre.block_length_view()
        &&& self.count_view() == pre.count_view()
        &&& self.index_view() == pre.index_view()
        &&& self.offset_view() == pre.offset_view()
        &&& self.buf() == pre.buf()
    }

    /// Where the walk over the elements stands.
    pub open spec fn cursor(self) -> Cursor {
        Cursor {
            count: self.count_view() as u32,
            index: self.index_view(),
            offset: self.offset_view(),
            block_length: self.block_length_view(),
            limit: self.limit_view(),
        }
    }

    /// What `wrap` makes of `parent`: block length and count are those of
    /// the size prefix at the parent's limit, the limit stands behind the
    /// prefix, and the codec stands before the first element.
    pub open spec fn opened(self, parent: P) -> bool {
        &&& self.block_length_view() == read_u16(parent.buf()@, parent.limit_view() as int)
        &&& self.count_view() == read_u32(parent.buf()@, parent.limit_view() + 2)
        &&& self.index_view() == usize::MAX
        &&& self.offset_view() == 0
        &&& self.buf_ok()
        &&& self.buf() == parent.buf()
        &&& self.limit_view() == parent.limit_view() + 6
        &&& self.parent_view() == Some(parent.with_limit((parent.limit_view() + 6) as usize))
    }

    /// Opens the group at the parent's limit.
    pub fn wrap(self, parent: P) -> (r: Self)
        requires
            parent.buf_ok(),
            parent.limit_view() + 6 <= parent.buf()@.len(),
        ensures
            r.opened(parent),
    {
        let mut parent = parent;
        proof {
            parent.buf().lemma_len();
            parent.lemma_with_limit();
            self.lemma_frame();
        }
        let initial_offset = parent.get_limit();
        let block_length = parent.get_buf().get_u16_at(initial_offset) as usize;
        let count = parent.get_buf().get_u32_at(initial_offset + 2);
        parent.set_limit(initial_offset + 6);
        let mut this = self;
        this.parent = Some(parent);
        this.block_length = block_length;
        this.count = count;
        this.index = usize::MAX;
        this.offset = 0;
        this
    }

    /// Hands the parent back; after that this codec reaches no buffer.
    pub fn parent(&mut self) -> (r: SbeResult<P>)
        ensures
            r == match old(self).parent_view() {
                Some(p) => Ok::<P, SbeErr>(p),
                None => Err::<P, SbeErr>(SbeErr::ParentNotSet),
            },
            *final(self) == old(self).with_parent(None),
    {
        self.parent.take().ok_or(SbeErr::ParentNotSet)
    }

    /// The number of elements that the group declares.
    pub fn count(&self) -> (r: u32)
        ensures
            r == self.count_view(),
    {
        self.count
    }

    /// An element is left to move to, and the parent is there to move in.
    pub open spec fn can_advance(self) -> bool {
        has_next(self.cursor()) && self.parent_view() is Some
    }

    /// What `advance` makes of `pre` where it moves: the cursor has taken
    /// one step, and all else is as it was.
    pub open spec fn advanced(self, pre: Self) -> bool {
        &&& self.cursor() == step(pre.cursor())
        &&& self.buf_ok()
        &&& self.buf() == pre.buf()
        &&& self == pre.with_limit(step(pre.cursor()).limit).with_position(
            step(pre.cursor()).index,
            step(pre.cursor()).offset,
        )
    }

    /// Moves to the next element, if one is left: it begins at the limit,
    /// and the limit moves behind its fixed fields.
    pub fn advance(&mut self) -> (r: SbeResult<Option<usize>>)
        requires
            old(self).can_advance() ==> old(self).buf_ok() && old(self).limit_view() + old(
                self,
            ).cursor().block_length <= usize::MAX,
        ensures
            r == advance_result(old(self).cursor(), old(self).parent_view() is Some),
            old(self).can_advance() ==> final(self).advanced(*old(self)),
            !old(self).can_advance() ==> *final(self) == *old(self),
    {
        proof {
            self.lemma_frame();
            if self.parent_view() is Some {
                self.with_limit(step(self.cursor()).limit).lemma_frame();
            }
        }
        let index = self.index.wrapping_add(1);
        if index >= self.count as usize {
            return Ok(None);
        }
        if let Some(parent) = self.parent.as_mut() {
            proof {
                parent.lemma_with_limit();
            }
            self.offset = parent.get_limit();
            parent.set_limit(self.offset + self.block_length);
            self.index = index;
            Ok(Some(index))
        } else {
            Err(SbeErr::ParentNotSet)
        }
    }

    /// `price`: an `i64` at byte 0 of the block.
    pub fn price(&self) -> (r: i64)
        requires
            self.buf_ok(),
            self.offset_view() + 8 <= self.buf()@.len(),
        ensures
            r == read_i64(self.buf()@, self.offset_view() as int),
    {
        proof {
            self.buf().lemma_len();
        }
        self.get_buf().get_i64_at(self.offset)
    }

    /// `qty`: an `i64` at byte 8 of the block.
    pub fn qty(&self) -> (r: i64)
        requires
            self.buf_ok(),
            self.offset_view() + 16 <= self.buf()@.len(),
        ensures
            r == read_i64(self.buf()@, self.offset_view() + 8),
    {
        proof {
            self.buf().lemma_len();
        }
        self.get_buf().get_i64_at(self.offset + 8)
    }
}

#[derive(Debug)]
pub struct AsksDecoder<P> {
    parent: Option<P>,
    block_length: usize,
    count: u32,
    index: usize,
    offset: usize,
}

impl<P> Default for AsksDecoder<P> {
    fn default() -> (r: Self)
        ensures
            r.parent_view() is None,
            r.block_length_view() == 0,
            r.count_view() == 0,
            r.index_view() == 0,
            r.offset_view() == 0,
    {
        Self { parent: None, block_length: 0, count: 0, index: 0, offset: 0 }
    }
}

impl<P> AsksDecoder<P> {
    pub closed spec fn parent_view(self) -> Option<P> {
        self.parent
    }

    pub closed spec fn block_length_view(self) -> usize {
        self.block_length
    }

    pub closed spec fn count_view(self) -> u32 {
        self.count
    }

    pub closed spec fn index_view(self) -> usize {
        self.index
    }

    pub closed spec fn offset_view(self) -> usize {
        self.offset
    }

    /// This codec over another parent, all else kept.
    pub closed spec fn with_parent(self, parent: Option<P>) -> Self {
        Self { parent, ..self }
    }

    /// This codec at another element, all else kept.
    pub closed spec fn with_position(self, index: usize, offset: usize) -> Self {
        Self { index, offset, ..self }
    }

    /// What the exchanges above keep and what they put.
    pub proof fn lemma_frame(self)
        ensures
            forall|parent: Option<P>|
                #![trigger self.with_parent(parent)]
                {
                    let w = self.with_parent(parent);
                    &&& w.parent_view() == parent
                    &&& w.block_length_view() == self.block_length_view()
                    &&& w.count_view() == self.count_view()
                    &&& w.index_view() == self.index_view()
                    &&& w.offset_view() == self.offset_view()
                },
            forall|first: Option<P>, second: Option<P>|
                #![trigger self.with_parent(first).with_parent(second)]
                self.with_parent(first).with_parent(second) == self.with_parent(second),
            self.with_parent(self.parent_view()) == self,
            forall|index: usize, offset: usize|
                #![trigger self.with_position(index, offset)]
                {
                    let w = self.with_position(index, offset);
                    &&& w.parent_view() == self.parent_view()
                    &&& w.index_view() == index
                    &&& w.offset_view() == offset
                    &&& w.block_length_view() == self.block_length_view()
                    &&& w.count_view() == self.count_view()
                },
            forall|parent: Option<P>, index: usize, offset: usize|
                #![trigger self.with_parent(parent).with_position(index, offset)]
                self.with_parent(parent).with_position(index, offset) == self.with_position(
                    index,
                    offset,
                ).with_parent(parent),
    {
    }
}

impl<'a, P> Reader<'a> for AsksDecoder<P> where P: Reader<'a> + Default {
    open spec fn buf_ok(&self) -> bool {
        self.parent_view() is Some && self.parent_view().unwrap().buf_ok()
    }

    open spec fn buf(self) -> ReadBuf<'a> {
        self.parent_view().unwrap().buf()
    }

    fn get_buf(&self) -> (r: &ReadBuf<'a>) {
        self.parent.as_ref().expect("parent missing").get_buf()
    }
}

impl<'a, P> Decoder<'a> for AsksDecoder<P> where P: Decoder<'a> + Default {
    open spec fn limit_view(self) -> usize {
        self.parent_view().unwrap().limit_view()
    }

    open spec fn with_limit(self, limit: usize) -> Self {
        self.with_parent(Some(self.parent_view().unwrap().with_limit(limit)))
    }

    proof fn lemma_with_limit(self) {
        self.parent_view().unwrap().lemma_with_limit();
        self.lemma_frame();
    }

    fn get_limit(&self) -> (r: usize) {
        self.parent.as_ref().expect("parent missing").get_limit()
    }

    fn set_limit(&mut self, limit: usize) {
        self.parent.as_mut().expect("parent missing").set_limit(limit);
    }
}

impl<'a, P> AsksDecoder<P> where P: Decoder<'a> + Default {
    /// This codec stands where `pre` stood, but for the limit, which is at
    /// `limit`.
    pub open spec fn placed_as(self, pre: Self, limit: usize) -> bool {
        &&& self.buf_ok()
        &&& self.limit_view() == limit
        &&& self.block_length_view() == pre.block_length_view()
        &&& self.count_view() == pre.count_view()
        &&& self.index_view() == pre.index_view()
        &&& self.offset_view() == pre.offset_view()
        &&& self.buf() == pre.buf()
    }

    /// Where the walk over the elements stands.
    pub open spec fn cursor(self) -> Cursor {
        Cursor {
            count: self.count_view() as u32,
            index: self.index_view(),
            offset: self.offset_view(),
            block_length: self.block_length_view(),
            limit: self.limit_view(),
        }
    }

    /// What `wrap` makes of `parent`: block length and count are those of
    /// the size prefix at the parent's limit, the limit stands behind the
    /// prefix, and the codec stands before the first element.
    pub open spec fn opened(self, parent: P) -> bool {
        &&& self.block_length_view() == read_u16(parent.buf()@, parent.limit_view() as int)
        &&& self.count_view() == read_u32(parent.buf()@, parent.limit_view() + 2)
        &&& self.index_view() == usize::MAX
        &&& self.offset_view() == 0
        &&& self.buf_ok()
        &&& self.buf() == parent.buf()
        &&& self.limit_view() == parent.limit_view() + 6
        &&& self.parent_view() == Some(parent.with_limit((parent.limit_view() + 6) as usize))
    }

    /// Opens the group at the parent's limit.
    pub fn wrap(self, parent: P) -> (r: Self)
        requires
            parent.buf_ok(),
            parent.limit_view() + 6 <= parent.buf()@.len(),
        ensures
            r.opened(parent),
    {
        let mut parent = parent;
        proof {
            parent.buf().lemma_len();
            parent.lemma_with_limit();
            self.lemma_frame();
        }
        let initial_offset = parent.get_limit();
        let block_length = parent.get_buf().get_u16_at(initial_offset) as usize;
        let count = parent.get_buf().get_u32_at(initial_offset + 2);
        parent.set_limit(initial_offset + 6);
        let mut this = self;
        this.parent = Some(parent);
        this.block_length = block_length;
        this.count = count;
        this.index = usize::MAX;
        this.offset = 0;
        this
    }

    /// Hands the parent back; after that this codec reaches no buffer.
    pub fn parent(&mut self) -> (r: SbeResult<P>)
        ensures
            r == match old(self).parent_view() {
                Some(p) => Ok::<P, SbeErr>(p),
                None => Err::<P, SbeErr>(SbeErr::ParentNotSet),
            },
            *final(self) == old(self).with_parent(None),
    {
        self.parent.take().ok_or(SbeErr::ParentNotSet)
    }

    /// The number of elements that the group declares.
    pub fn count(&self) -> (r: u32)
        ensures
            r == self.count_view(),
    {
        self.count
    }

    /// An element is left to move to, and the parent is there to move in.
    pub open spec fn can_advance(self) -> bool {
        has_next(self.cursor()) && self.parent_view() is Some
    }

    /// What `advance` makes of `pre` where it moves: the cursor has taken
    /// one step, and all else is as it was.
    pub open spec fn advanced(self, pre: Self) -> bool {
        &&& self.cursor() == step(pre.cursor())
        &&& self.buf_ok()
        &&& self.buf() == pre.buf()
        &&& self == pre.with_limit(step(pre.cursor()).limit).with_position(
            step(pre.cursor()).index,
            step(pre.cursor()).offset,
        )
    }

    /// Moves to the next element, if one is left: it begins at the limit,
    /// and the limit moves behind its fixed fields.
    pub fn advance(&mut self) -> (r: SbeResult<Option<usize>>)
        requires
            old(self).can_advance() ==> old(self).buf_ok() && old(self).limit_view() + old(
                self,
            ).cursor().block_length <= usize::MAX,
        ensures
            r == advance_result(old(self).cursor(), old(self).parent_view() is Some),
            old(self).can_advance() ==> final(self).advanced(*old(self)),
            !old(self).can_advance() ==> *final(self) == *old(self),
    {
        proof {
            self.lemma_frame();
            if self.parent_view() is Some {
                self.with_limit(step(self.cursor()).limit).lemma_frame();
            }
        }
        let index = self.index.wrapping_add(1);
        if index >= self.count as usize {
            return Ok(None);
        }
        if let Some(parent) = self.parent.as_mut() {
            proof {
                parent.lemma_with_limit();
            }
            self.offset = parent.get_limit();
            parent.set_limit(self.offset + self.block_length);
            self.index = index;
            Ok(Some(index))
        } else {
            Err(SbeErr::ParentNotSet)
        }
    }

    /// `price`: an `i64` at byte 0 of the block.
    pub fn price(&self) -> (r: i64)
        requires
            self.buf_ok(),
            self.offset_view() + 8 <= self.buf()@.len(),
        ensures
            r == read_i64(self.buf()@, self.offset_view() as int),
    {
        proof {
            self.buf().lemma_len();
        }
        self.get_buf().get_i64_at(self.offset)
    }

    /// `qty`: an `i64` at byte 8 of the block.
    pub fn qty(&self) -> (r: i64)
        requires
            self.buf_ok(),
            self.offset_view() + 16 <= self.buf()@.len(),
        ensures
            r == read_i64(self.buf()@, self.offset_view() + 8),
    {
        proof {
            self.buf().lemma_len();
        }
        self.get_buf().get_i64_at(self.offset + 8)
    }
}

} // verus!
