//! The message `CancelOpenOrdersResponse`, template 306 of schema 1.
use crate::buffer::{ReadBuf, WriteBuf};
use crate::codec::{Decoder, Encoder, Reader, SbeErr, SbeResult, Writer};
use crate::group::{Cursor, advance_result, has_next, step};
use crate::message_header_codec::{MessageHeaderDecoder, MessageHeaderEncoder, write_header};
use crate::wire::{read_u16, read_u32, write_group_size, write_var_u16};
use vstd::prelude::*;

verus! {

/// The bytes that the fixed block of this message takes.
pub const SBE_BLOCK_LENGTH: u16 = 0;

pub const SBE_TEMPLATE_ID: u16 = 306;

pub const SBE_SCHEMA_ID: u16 = 1;

pub const SBE_SCHEMA_VERSION: u16 = 0;

pub const SBE_SEMANTIC_VERSION: &'static str = "5.2";

#[derive(Debug)]
pub struct CancelOpenOrdersResponseEncoder<'a> {
    buf: WriteBuf<'a>,
    initial_offset: usize,
    offset: usize,
    limit: usize,
}

impl<'a> Default for CancelOpenOrdersResponseEncoder<'a> {
    fn default() -> (r: Self)
        ensures
            r.buf()@.len() == 0,
            r.initial_offset_view() == 0,
            r.offset_view() == 0,
            r.limit_view() == 0,
    {
        Self { buf: WriteBuf::default(), initial_offset: 0, offset: 0, limit: 0 }
    }
}

impl<'a> Writer<'a> for CancelOpenOrdersResponseEncoder<'a> {
    open spec fn buf_ok(&self) -> bool {
        true
    }

    closed spec fn buf(self) -> WriteBuf<'a> {
        self.buf
    }

    closed spec fn with_buf(self, buf: WriteBuf<'a>) -> Self {
        Self { buf, ..self }
    }

    proof fn lemma_with_buf(self) {
    }

    proof fn lemma_resolved(self) {
        self.lemma_buf_resolved();
        self.buf.lemma_resolved();
    }

    fn get_buf_mut(&mut self) -> (r: &mut WriteBuf<'a>) {
        &mut self.buf
    }
}

impl<'a> Encoder<'a> for CancelOpenOrdersResponseEncoder<'a> {
    closed spec fn limit_view(self) -> usize {
        self.limit
    }

    closed spec fn with_limit(self, limit: usize) -> Self {
        Self { limit, ..self }
    }

    proof fn lemma_with_limit(self) {
    }

    fn get_limit(&self) -> (r: usize) {
        self.limit
    }

    fn set_limit(&mut self, limit: usize) {
        self.limit = limit;
    }
}

impl<'a> CancelOpenOrdersResponseEncoder<'a> {
    /// Where nothing writes through this encoder any more, nothing writes
    /// through its buffer.
    proof fn lemma_buf_resolved(self)
        requires
            has_resolved(self),
        ensures
            has_resolved(self.buf),
    {
    }

    pub closed spec fn initial_offset_view(self) -> usize {
        self.initial_offset
    }

    /// Where the fixed block begins.
    pub closed spec fn offset_view(self) -> usize {
        self.offset
    }

    /// This encoder stands where `pre` stood, but for the limit, which is
    /// at `limit` (what the buffer holds may differ).
    pub open spec fn placed_as(self, pre: Self, limit: usize) -> bool {
        &&& self.limit_view() == limit
        &&& self.offset_view() == pre.offset_view()
        &&& self.initial_offset_view() == pre.initial_offset_view()
    }

    /// Exchanging the buffer or the limit leaves the offsets alone.
    pub proof fn lemma_frame(self)
        ensures
            forall|buf: WriteBuf<'a>|
                #![trigger self.with_buf(buf)]
                self.with_buf(buf).offset_view() == self.offset_view() && self.with_buf(
                    buf,
                ).initial_offset_view() == self.initial_offset_view(),
            forall|limit: usize|
                #![trigger self.with_limit(limit)]
                self.with_limit(limit).offset_view() == self.offset_view() && self.with_limit(
                    limit,
                ).initial_offset_view() == self.initial_offset_view(),
    {
    }

    /// Places the encoder over `buf` with its fixed block at `offset`; the
    /// limit stands behind the block.
    pub fn wrap(self, buf: WriteBuf<'a>, offset: usize) -> (r: Self)
        requires
            offset + SBE_BLOCK_LENGTH <= usize::MAX,
        ensures
            r.buf() == buf,
            r.initial_offset_view() == offset,
            r.offset_view() == offset,
            r.limit_view() == offset + SBE_BLOCK_LENGTH,
    {
        let limit = offset + SBE_BLOCK_LENGTH as usize;
        let mut this = self;
        this.buf = buf;
        this.initial_offset = offset;
        this.offset = offset;
        this.limit = limit;
        this
    }

    /// The bytes from the start of the block to the limit.
    pub fn encoded_length(&self) -> (r: usize)
        requires
            self.offset_view() <= self.limit_view(),
        ensures
            r == self.limit_view() - self.offset_view(),
    {
        self.limit - self.offset
    }

    /// Writes the header of this message at `offset` and hands out the
    /// header's encoder, which holds this encoder as its parent.
    pub fn header(self, offset: usize) -> (r: MessageHeaderEncoder<Self>)
        requires
            offset + 8 <= self.buf()@.len(),
        ensures
            r.offset_view() == offset,
            r.parent_view() is Some,
            r.buf()@ == write_header(
                self.buf()@,
                offset as int,
                SBE_BLOCK_LENGTH,
                SBE_TEMPLATE_ID,
                SBE_SCHEMA_ID,
                SBE_SCHEMA_VERSION,
            ),
            r.buf()@.len() == self.buf()@.len(),
            final(r.buf().target())@ == final(self.buf().target())@,
            r.parent_view().unwrap().placed_as(self, self.limit_view()),
            r.parent_view().unwrap() == self.with_buf(r.buf()),
    {
        proof {
            self.buf().lemma_len();
            self.lemma_frame();
        }
        let mut header = MessageHeaderEncoder::default().wrap(self, offset);
        proof {
            header.lemma_frame();
            header.lemma_with_buf();
            self.lemma_with_buf();
        }
        header.block_length(SBE_BLOCK_LENGTH);
        proof {
            header.lemma_frame();
            header.lemma_with_buf();
            header.parent_view().unwrap().lemma_with_buf();
        }
        header.template_id(SBE_TEMPLATE_ID);
        proof {
            header.lemma_frame();
            header.lemma_with_buf();
            header.parent_view().unwrap().lemma_with_buf();
        }
        header.schema_id(SBE_SCHEMA_ID);
        proof {
            header.lemma_frame();
            header.lemma_with_buf();
            header.parent_view().unwrap().lemma_with_buf();
        }
        header.version(SBE_SCHEMA_VERSION);
        header
    }

    /// Opens the group `responses` for `count` elements: writes its size
    /// prefix at the limit and moves the limit behind it.
    pub fn responses_encoder(
        self,
        count: u32,
        responses_encoder: ResponsesEncoder<Self>,
    ) -> (r: ResponsesEncoder<Self>)
        requires
            self.limit_view() + 6 <= self.buf()@.len(),
        ensures
            r.opened(self, count),
            final(r.buf().target())@ == final(self.buf().target())@,
    {
        responses_encoder.wrap(self, count)
    }
}

#[derive(Debug)]
pub struct ResponsesEncoder<P> {
    parent: Option<P>,
    count: u32,
    index: usize,
    offset: usize,
    initial_limit: usize,
}

impl<P> Default for ResponsesEncoder<P> {
    fn default() -> (r: Self)
        ensures
            r.parent_view() is None,
            r.count_view() == 0,
            r.index_view() == 0,
            r.offset_view() == 0,
            r.initial_limit_view() == 0,
    {
        Self { parent: None, count: 0, index: 0, offset: 0, initial_limit: 0 }
    }
}

impl<P> ResponsesEncoder<P> {
    /// Where nothing writes through this codec any more, nothing writes
    /// through its parent.
    proof fn lemma_parent_resolved(self)
        requires
            has_resolved(self),
            self.parent is Some,
        ensures
            has_resolved(self.parent->0),
    {
    }

    pub closed spec fn parent_view(self) -> Option<P> {
        self.parent
    }

    pub closed spec fn count_view(self) -> u32 {
        self.count
    }

    pub closed spec fn index_view(self) -> usize {
        self.index
    }

    pub closed spec fn offset_view(self) -> usize {
        self.offset
    }

    pub closed spec fn initial_limit_view(self) -> usize {
        self.initial_limit
    }

    /// This codec over another parent, all else kept.
    pub closed spec fn with_parent(self, parent: Option<P>) -> Self {
        Self { parent, ..self }
    }

    /// This codec at another element, all else kept.
    pub closed spec fn with_position(self, index: usize, offset: usize) -> Self {
        Self { index, offset, ..self }
    }

    /// What the exchanges above keep and what they put.
    pub proof fn lemma_frame(self)
        ensures
            forall|parent: Option<P>|
                #![trigger self.with_parent(parent)]
                {
                    let w = self.with_parent(parent);
                    &&& w.parent_view() == parent
                    &&& w.count_view() == self.count_view()
                    &&& w.index_view() == self.index_view()
                    &&& w.offset_view() == self.offset_view()
                    &&& w.initial_limit_view() == self.initial_limit_view()
                },
            forall|first: Option<P>, second: Option<P>|
                #![trigger self.with_parent(first).with_parent(second)]
                self.with_parent(first).with_parent(second) == self.with_parent(second),
            self.with_parent(self.parent_view()) == self,
            forall|index: usize, offset: usize|
                #![trigger self.with_position(index, offset)]
                {
                    let w = self.with_position(index, offset);
                    &&& w.parent_view() == self.parent_view()
                    &&& w.index_view() == index
                    &&& w.offset_view() == offset
                    &&& w.count_view() == self.count_view()
                    &&& w.initial_limit_view() == self.initial_limit_view()
                },
            forall|parent: Option<P>, index: usize, offset: usize|
                #![trigger self.with_parent(parent).with_position(index, offset)]
                self.with_parent(parent).with_position(index, offset) == self.with_position(
                    index,
                    offset,
                ).with_parent(parent),
    {
    }
}

impl<'a, P> Writer<'a> for ResponsesEncoder<P> where P: Writer<'a> + Default {
    open spec fn buf_ok(&self) -> bool {
        self.parent_view() is Some && self.parent_view().unwrap().buf_ok()
    }

    open spec fn buf(self) -> WriteBuf<'a> {
        self.parent_view().unwrap().buf()
    }

    open spec fn with_buf(self, buf: WriteBuf<'a>) -> Self {
        self.with_parent(Some(self.parent_view().unwrap().with_buf(buf)))
    }

    proof fn lemma_with_buf(self) {
        self.parent_view().unwrap().lemma_with_buf();
        self.lemma_frame();
    }

    proof fn lemma_resolved(self) {
        self.lemma_parent_resolved();
        self.parent_view().unwrap().lemma_resolved();
    }

    fn get_buf_mut(&mut self) -> (r: &mut WriteBuf<'a>) {
        if let Some(parent) = self.parent.as_mut() {
            parent.get_buf_mut()
        } else {
            vstd::pervasive::unreached()
        }
    }
}

impl<'a, P> Encoder<'a> for ResponsesEncoder<P> where P: Encoder<'a> + Default {
    open spec fn limit_view(self) -> usize {
        self.parent_view().unwrap().limit_view()
    }

    open spec fn with_limit(self, limit: usize) -> Self {
        self.with_parent(Some(self.parent_view().unwrap().with_limit(limit)))
    }

    proof fn lemma_with_limit(self) {
        self.parent_view().unwrap().lemma_with_buf();
        self.parent_view().unwrap().lemma_with_limit();
        self.lemma_frame();
    }

    fn get_limit(&self) -> (r: usize) {
        self.parent.as_ref().expect("parent missing").get_limit()
    }

    fn set_limit(&mut self, limit: usize) {
        self.parent.as_mut().expect("parent missing").set_limit(limit);
    }
}

impl<'a, P> ResponsesEncoder<P> where P: Encoder<'a> + Default {
    /// This codec stands where `pre` stood, but for the limit, which is at
    /// `limit` (what the buffer holds may differ).
    pub open spec fn placed_as(self, pre: Self, limit: usize) -> bool {
        &&& self.buf_ok()
        &&& self.limit_view() == limit
        &&& self.count_view() == pre.count_view()
        &&& self.index_view() == pre.index_view()
        &&& self.offset_view() == pre.offset_view()
        &&& self.initial_limit_view() == pre.initial_limit_view()
    }

    /// The bytes that one element's fixed fields take.
    pub open spec fn block_length_view() -> u16 {
        0
    }

    /// Where the walk over the elements stands.
    pub open spec fn cursor(self) -> Cursor {
        Cursor {
            count: self.count_view() as u32,
            index: self.index_view(),
            offset: self.offset_view(),
            block_length: Self::block_length_view() as usize,
            limit: self.limit_view(),
        }
    }

    /// What `wrap` makes of `parent` and `count`: the size prefix is
    /// written at the parent's limit, the limit stands behind it, and the
    /// codec stands before the first element.
    pub open spec fn opened(self, parent: P, count: u32) -> bool {
        &&& self.count_view() == count
        &&& self.index_view() == usize::MAX
        &&& self.offset_view() == usize::MAX
        &&& self.initial_limit_view() == parent.limit_view()
        &&& self.buf_ok()
        &&& self.limit_view() == parent.limit_view() + 6
        &&& self.buf()@ == write_group_size(
            parent.buf()@,
            parent.limit_view() as int,
            Self::block_length_view(),
            count,
        )
        &&& self.buf()@.len() == parent.buf()@.len()
        &&& self.parent_view().unwrap() == parent.with_limit(
            (parent.limit_view() + 6) as usize,
        ).with_buf(self.buf())
    }

    /// Opens the group at the parent's limit for `count` elements.
    pub fn wrap(self, parent: P, count: u32) -> (r: Self)
        requires
            parent.buf_ok(),
            parent.limit_view() + 6 <= parent.buf()@.len(),
        ensures
            r.opened(parent, count),
            final(r.buf().target())@ == final(parent.buf().target())@,
    {
        let mut parent = parent;
        proof {
            parent.buf().lemma_len();
            parent.lemma_with_limit();
            parent.lemma_with_buf();
        }
        let initial_limit = parent.get_limit();
        parent.set_limit(initial_limit + 6);
        proof {
            parent.lemma_with_buf();
            parent.lemma_with_limit();
        }
        parent.get_buf_mut().put_u16_at(initial_limit, Self::block_length());
        proof {
            parent.lemma_with_buf();
            parent.lemma_with_limit();
        }
        parent.get_buf_mut().put_u32_at(initial_limit + 2, count);
        proof {
            self.lemma_frame();
        }
        let mut this = self;
        this.parent = Some(parent);
        this.count = count;
        this.index = usize::MAX;
        this.offset = usize::MAX;
        this.initial_limit = initial_limit;
        this
    }

    /// The bytes that one element's fixed fields take.
    pub fn block_length() -> (r: u16)
        ensures
            r == Self::block_length_view(),
    {
        0
    }

    /// Hands the parent back; after that this codec reaches no buffer.
    pub fn parent(&mut self) -> (r: SbeResult<P>)
        ensures
            r == match old(self).parent_view() {
                Some(p) => Ok::<P, SbeErr>(p),
                None => Err::<P, SbeErr>(SbeErr::ParentNotSet),
            },
            *final(self) == old(self).with_parent(None),
    {
        self.parent.take().ok_or(SbeErr::ParentNotSet)
    }

    /// An element is left to move to, and the parent is there to move in.
    pub open spec fn can_advance(self) -> bool {
        has_next(self.cursor()) && self.parent_view() is Some
    }

    /// What `advance` makes of `pre` where it moves: the cursor has taken
    /// one step, and all else is as it was.
    pub open spec fn advanced(self, pre: Self) -> bool {
        &&& self.cursor() == step(pre.cursor())
        &&& self.buf_ok()
        &&& self.buf() == pre.buf()
        &&& self.initial_limit_view() == pre.initial_limit_view()
        &&& self == pre.with_limit(step(pre.cursor()).limit).with_position(
            step(pre.cursor()).index,
            step(pre.cursor()).offset,
        )
    }

    /// Moves to the next element, if one is left: it begins at the limit,
    /// and the limit moves behind its fixed fields.
    pub fn advance(&mut self) -> (r: SbeResult<Option<usize>>)
        requires
            old(self).can_advance() ==> old(self).buf_ok() && old(self).limit_view() + old(
                self,
            ).cursor().block_length <= usize::MAX,
        ensures
            r == advance_result(old(self).cursor(), old(self).parent_view() is Some),
            old(self).can_advance() ==> final(self).advanced(*old(self)),
            !old(self).can_advance() ==> *final(self) == *old(self),
    {
        proof {
            self.lemma_frame();
            if self.parent_view() is Some {
                self.with_limit(step(self.cursor()).limit).lemma_frame();
            }
        }
        let index = self.index.wrapping_add(1);
        if index >= self.count as usize {
            return Ok(None);
        }
        if let Some(parent) = self.parent.as_mut() {
            proof {
                parent.lemma_with_limit();
            }
            self.offset = parent.get_limit();
            parent.set_limit(self.offset + Self::block_length() as usize);
            self.index = index;
            Ok(Some(index))
        } else {
            Err(SbeErr::ParentNotSet)
        }
    }

    /// `response`: bytes behind a `u16` length, appended at the limit.
    /// A length that the prefix cannot hold is cut to its low bits.
    pub fn response(&mut self, value: &[u8])
        requires
            old(self).buf_ok(),
            old(self).limit_view() + 2 + value@.len() <= old(self).buf()@.len(),
        ensures
            final(self).buf()@ == write_var_u16(
                old(self).buf()@,
                old(self).limit_view() as int,
                value@,
            ),
            final(self).buf()@.len() == old(self).buf()@.len(),
            final(final(self).buf().target())@ == final(old(self).buf().target())@,
            final(self).placed_as(
                *old(self),
                (old(self).limit_view() + 2 + value@.len()) as usize,
            ),
            *final(self) == old(self).with_limit(
                (old(self).limit_view() + 2 + value@.len()) as usize,
            ).with_buf(final(self).buf()),
    {
        proof {
            self.buf().lemma_len();
            self.lemma_with_buf();
            self.lemma_with_limit();
            self.lemma_frame();
        }
        let limit = self.get_limit();
        let data_length = value.len();
        self.set_limit(limit + 2 + data_length);
        proof {
            self.lemma_with_buf();
            self.lemma_with_limit();
            self.lemma_frame();
        }
        self.get_buf_mut().put_u16_at(limit, #[verifier::truncate] (data_length as u16));
        proof {
            self.lemma_with_buf();
            self.lemma_with_limit();
            self.lemma_frame();
        }
        self.get_buf_mut().put_slice_at(limit + 2, value);
    }
}

#[derive(Clone, Copy, Debug)]
pub struct CancelOpenOrdersResponseDecoder<'a> {
    buf: ReadBuf<'a>,
    initial_offset: usize,
    offset: usize,
    limit: usize,
    pub acting_block_length: u16,
    pub acting_version: u16,
}

impl<'a> Default for CancelOpenOrdersResponseDecoder<'a> {
    fn default() -> (r: Self)
        ensures
            r.buf()@.len() == 0,
            r.initial_offset_view() == 0,
            r.offset_view() == 0,
            r.limit_view() == 0,
            r.acting_block_length_view() == 0,
            r.acting_version_view() == 0,
    {
        Self {
            buf: ReadBuf::default(),
            initial_offset: 0,
            offset: 0,
            limit: 0,
            acting_block_length: 0,
            acting_version: 0,
        }
    }
}

impl<'a> Reader<'a> for CancelOpenOrdersResponseDecoder<'a> {
    open spec fn buf_ok(&self) -> bool {
        true
    }

    closed spec fn buf(self) -> ReadBuf<'a> {
        self.buf
    }

    fn get_buf(&self) -> (r: &ReadBuf<'a>) {
        &self.buf
    }
}

impl<'a> Decoder<'a> for CancelOpenOrdersResponseDecoder<'a> {
    closed spec fn limit_view(self) -> usize {
        self.limit
    }

    closed spec fn with_limit(self, limit: usize) -> Self {
        Self { limit, ..self }
    }

    proof fn lemma_with_limit(self) {
    }

    fn get_limit(&self) -> (r: usize) {
        self.limit
    }

    fn set_limit(&mut self, limit: usize) {
        self.limit = limit;
    }
}

impl<'a> CancelOpenOrdersResponseDecoder<'a> {
    pub closed spec fn initial_offset_view(self) -> usize {
        self.initial_offset
    }

    /// Where the fixed block begins.
    pub closed spec fn offset_view(self) -> usize {
        self.offset
    }

    /// The block length that the sender declared.
    pub closed spec fn acting_block_length_view(self) -> u16 {
        self.acting_block_length
    }

    /// The schema version that the sender declared.
    pub closed spec fn acting_version_view(self) -> u16 {
        self.acting_version
    }

    /// This decoder stands where `pre` stood, but for the limit, which is
    /// at `limit`.
    pub open spec fn placed_as(self, pre: Self, limit: usize) -> bool {
        &&& self.limit_view() == limit
        &&& self.buf() == pre.buf()
        &&& self.offset_view() == pre.offset_view()
        &&& self.initial_offset_view() == pre.initial_offset_view()
        &&& self.acting_block_length_view() == pre.acting_block_length_view()
        &&& self.acting_version_view() == pre.acting_version_view()
    }

    /// Moving the limit leaves all else alone.
    pub proof fn lemma_frame(self)
        ensures
            forall|limit: usize|
                #![trigger self.with_limit(limit)]
                {
                    let w = self.with_limit(limit);
                    &&& w.offset_view() == self.offset_view()
                    &&& w.initial_offset_view() == self.initial_offset_view()
                    &&& w.acting_block_length_view() == self.acting_block_length_view()
                    &&& w.acting_version_view() == self.acting_version_view()
                },
    {
    }

    /// Places the decoder over `buf` with its fixed block at `offset`; the
    /// limit stands behind the block, whose length the sender declared.
    pub fn wrap(
        self,
        buf: ReadBuf<'a>,
        offset: usize,
        acting_block_length: u16,
        acting_version: u16,
    ) -> (r: Self)
        requires
            offset + acting_block_length <= usize::MAX,
        ensures
            r.buf() == buf,
            r.initial_offset_view() == offset,
            r.offset_view() == offset,
            r.limit_view() == offset + acting_block_length,
            r.acting_block_length_view() == acting_block_length,
            r.acting_version_view() == acting_version,
    {
        let limit = offset + acting_block_length as usize;
        let mut this = self;
        this.buf = buf;
        this.initial_offset = offset;
        this.offset = offset;
        this.limit = limit;
        this.acting_block_length = acting_block_length;
        this.acting_version = acting_version;
        this
    }

    /// The bytes from the start of the block to the limit.
    pub fn encoded_length(&self) -> (r: usize)
        requires
            self.offset_view() <= self.limit_view(),
        ensures
            r == self.limit_view() - self.offset_view(),
    {
        self.limit - self.offset
    }

    /// The block length that the sender declared.
    pub fn acting_block_length(&self) -> (r: u16)
        ensures
            r == self.acting_block_length_view(),
    {
        self.acting_block_length
    }

    /// The schema version that the sender declared.
    pub fn acting_version(&self) -> (r: u16)
        ensures
            r == self.acting_version_view(),
    {
        self.acting_version
    }

    /// Takes over from a header that announces this message: the decoder
    /// stands behind the header, on the header's buffer, with the block
    /// length and version that the header declares.
    pub fn header(self, header: MessageHeaderDecoder<ReadBuf<'a>>) -> (r: Self)
        requires
            header.buf_ok(),
            header.offset_view() + 8 <= header.buf()@.len(),
            read_u16(header.buf()@, header.offset_view() + 2) == SBE_TEMPLATE_ID,
            header.offset_view() + 8 + read_u16(header.buf()@, header.offset_view() as int)
                <= usize::MAX,
        ensures
            r.buf() == header.buf(),
            r.initial_offset_view() == header.offset_view() + 8,
            r.offset_view() == header.offset_view() + 8,
            r.acting_block_length_view() == read_u16(header.buf()@, header.offset_view() as int),
            r.acting_version_view() == read_u16(header.buf()@, header.offset_view() + 6),
            r.limit_view() == header.offset_view() + 8 + r.acting_block_length_view(),
    {
        let mut header = header;
        proof {
            header.buf().lemma_len();
        }
        let acting_block_length = header.block_length();
        let acting_version = header.version();
        let offset = header.offset() + crate::message_header_codec::ENCODED_LENGTH;
        self.wrap(header.parent().unwrap(), offset, acting_block_length, acting_version)
    }

    /// Opens the group `responses`: reads its size prefix at the limit and
    /// moves the limit behind it.
    pub fn responses_decoder(self) -> (r: ResponsesDecoder<Self>)
        requires
            self.limit_view() + 6 <= self.buf()@.len(),
        ensures
            r.opened(self),
    {
        ResponsesDecoder::default().wrap(self)
    }
}

#[derive(Debug)]
pub struct ResponsesDecoder<P> {
    parent: Option<P>,
    block_length: usize,
    count: u32,
    index: usize,
    offset: usize,
}

impl<P> Default for ResponsesDecoder<P> {
    fn default() -> (r: Self)
        ensures
            r.parent_view() is None,
            r.block_length_view() == 0,
            r.count_view() == 0,
            r.index_view() == 0,
            r.offset_view() == 0,
    {
        Self { parent: None, block_length: 0, count: 0, index: 0, offset: 0 }
    }
}

impl<P> ResponsesDecoder<P> {
    pub closed spec fn parent_view(self) -> Option<P> {
        self.parent
    }

    pub closed spec fn block_length_view(self) -> usize {
        self.block_length
    }

    pub closed spec fn count_view(self) -> u32 {
        self.count
    }

    pub closed spec fn index_view(self) -> usize {
        self.index
    }

    pub closed spec fn offset_view(self) -> usize {
        self.offset
    }

    /// This codec over another parent, all else kept.
    pub closed spec fn with_parent(self, parent: Option<P>) -> Self {
        Self { parent, ..self }
    }

    /// This codec at another element, all else kept.
    pub closed spec fn with_position(self, index: usize, offset: usize) -> Self {
        Self { index, offset, ..self }
    }

    /// What the exchanges above keep and what they put.
    pub proof fn lemma_frame(self)
        ensures
            forall|parent: Option<P>|
                #![trigger self.with_parent(parent)]
                {
                    let w = self.with_parent(parent);
                    &&& w.parent_view() == parent
                    &&& w.block_length_view() == self.block_length_view()
                    &&& w.count_view() == self.count_view()
                    &&& w.index_view() == self.index_view()
                    &&& w.offset_view() == self.offset_view()
                },
            forall|first: Option<P>, second: Option<P>|
                #![trigger self.with_parent(first).with_parent(second)]
                self.with_parent(first).with_parent(second) == self.with_parent(second),
            self.with_parent(self.parent_view()) == self,
            forall|index: usize, offset: usize|
                #![trigger self.with_position(index, offset)]
                {
                    let w = self.with_position(index, offset);
                    &&& w.parent_view() == self.parent_view()
                    &&& w.index_view() == index
                    &&& w.offset_view() == offset
                    &&& w.block_length_view() == self.block_length_view()
                    &&& w.count_view() == self.count_view()
                },
            forall|parent: Option<P>, index: usize, offset: usize|
                #![trigger self.with_parent(parent).with_position(index, offset)]
                self.with_parent(parent).with_position(index, offset) == self.with_position(
                    index,
                    offset,
                ).with_parent(parent),
    {
    }
}

impl<'a, P> Reader<'a> for ResponsesDecoder<P> where P: Reader<'a> + Default {
    open spec fn buf_ok(&self) -> bool {
        self.parent_view() is Some && self.parent_view().unwrap().buf_ok()
    }

    open spec fn buf(self) -> ReadBuf<'a> {
        self.parent_view().unwrap().buf()
    }

    fn get_buf(&self) -> (r: &ReadBuf<'a>) {
        self.parent.as_ref().expect("parent missing").get_buf()
    }
}

impl<'a, P> Decoder<'a> for ResponsesDecoder<P> where P: Decoder<'a> + Default {
    open spec fn limit_view(self) -> usize {
        self.parent_view().unwrap().limit_view()
    }

    open spec fn with_limit(self, limit: usize) -> Self {
        self.with_parent(Some(self.parent_view().unwrap().with_limit(limit)))
    }

    proof fn lemma_with_limit(self) {
        self.parent_view().unwrap().lemma_with_limit();
        self.lemma_frame();
    }

    fn get_limit(&self) -> (r: usize) {
        self.parent.as_ref().expect("parent missing").get_limit()
    }

    fn set_limit(&mut self, limit: usize) {
        self.parent.as_mut().expect("parent missing").set_limit(limit);
    }
}

impl<'a, P> ResponsesDecoder<P> where P: Decoder<'a> + Default {
    /// This codec stands where `pre` stood, but for the limit, which is at
    /// `limit`.
    pub open spec fn placed_as(self, pre: Self, limit: usize) -> bool {
        &&& self.buf_ok()
        &&& self.limit_view() == limit
        &&& self.block_length_view() == pre.block_length_view()
        &&& self.count_view() == pre.count_view()
        &&& self.index_view() == pre.index_view()
        &&& self.offset_view() == pre.offset_view()
        &&& self.buf() == pre.buf()
    }

    /// Where the walk over the elements stands.
    pub open spec fn cursor(self) -> Cursor {
        Cursor {
            count: self.count_view() as u32,
            index: self.index_view(),
            offset: self.offset_view(),
            block_length: self.block_length_view(),
            limit: self.limit_view(),
        }
    }

    /// What `wrap` makes of `parent`: block length and count are those of
    /// the size prefix at the parent's limit, the limit stands behind the
    /// prefix, and the codec stands before the first element.
    pub open spec fn opened(self, parent: P) -> bool {
        &&& self.block_length_view() == read_u16(parent.buf()@, parent.limit_view() as int)
        &&& self.count_view() == read_u32(parent.buf()@, parent.limit_view() + 2)
        &&& self.index_view() == usize::MAX
        &&& self.offset_view() == 0
        &&& self.buf_ok()
        &&& self.buf() == parent.buf()
        &&& self.limit_view() == parent.limit_view() + 6
        &&& self.parent_view() == Some(parent.with_limit((parent.limit_view() + 6) as usize))
    }

    /// Opens the group at the parent's limit.
    pub fn wrap(self, parent: P) -> (r: Self)
        requires
            parent.buf_ok(),
            parent.limit_view() + 6 <= parent.buf()@.len(),
        ensures
            r.opened(parent),
    {
        let mut parent = parent;
        proof {
            parent.buf().lemma_len();
            parent.lemma_with_limit();
            self.lemma_frame();
        }
        let initial_offset = parent.get_limit();
        let block_length = parent.get_buf().get_u16_at(initial_offset) as usize;
        let count = parent.get_buf().get_u32_at(initial_offset + 2);
        parent.set_limit(initial_offset + 6);
        let mut this = self;
        this.parent = Some(parent);
        this.block_length = block_length;
        this.count = count;
        this.index = usize::MAX;
        this.offset = 0;
        this
    }

    /// Hands the parent back; after that this codec reaches no buffer.
    pub fn parent(&mut self) -> (r: SbeResult<P>)
        ensures
            r == match old(self).parent_view() {
                Some(p) => Ok::<P, SbeErr>(p),
                None => Err::<P, SbeErr>(SbeErr::ParentNotSet),
            },
            *final(self) == old(self).with_parent(None),
    {
        self.parent.take().ok_or(SbeErr::ParentNotSet)
    }

    /// The number of elements that the group declares.
    pub fn count(&self) -> (r: u32)
        ensures
            r == self.count_view(),
    {
        self.count
    }

    /// An element is left to move to, and the parent is there to move in.
    pub open spec fn can_advance(self) -> bool {
        has_next(self.cursor()) && self.parent_view() is Some
    }

    /// What `advance` makes of `pre` where it moves: the cursor has taken
    /// one step, and all else is as it was.
    pub open spec fn advanced(self, pre: Self) -> bool {
        &&& self.cursor() == step(pre.cursor())
        &&& self.buf_ok()
        &&& self.buf() == pre.buf()
        &&& self == pre.with_limit(step(pre.cursor()).limit).with_position(
            step(pre.cursor()).index,
            step(pre.cursor()).offset,
        )
    }

    /// Moves to the next element, if one is left: it begins at the limit,
    /// and the limit moves behind its fixed fields.
    pub fn advance(&mut self) -> (r: SbeResult<Option<usize>>)
        requires
            old(self).can_advance() ==> old(self).buf_ok() && old(self).limit_view() + old(
                self,
            ).cursor().block_length <= usize::MAX,
        ensures
            r == advance_result(old(self).cursor(), old(self).parent_view() is Some),
            old(self).can_advance() ==> final(self).advanced(*old(self)),
            !old(self).can_advance() ==> *final(self) == *old(self),
    {
        proof {
            self.lemma_frame();
            if self.parent_view() is Some {
                self.with_limit(step(self.cursor()).limit).lemma_frame();
            }
        }
        let index = self.index.wrapping_add(1);
        if index >= self.count as usize {
            return Ok(None);
        }
        if let Some(parent) = self.parent.as_mut() {
            proof {
                parent.lemma_with_limit();
            }
            self.offset = parent.get_limit();
            parent.set_limit(self.offset + self.block_length);
            self.index = index;
            Ok(Some(index))
        } else {
            Err(SbeErr::ParentNotSet)
        }
    }

    /// `response`: where its bytes begin and how many they are, by the `u16`
    /// length at the limit. The limit moves behind them.
    pub fn response_decoder(&mut self) -> (r: (usize, usize))
        requires
            old(self).buf_ok(),
            old(self).limit_view() + 2 <= old(self).buf()@.len(),
            old(self).limit_view() + 2 + read_u16(old(self).buf()@, old(self).limit_view() as int)
                <= usize::MAX,
        ensures
            r.0 == old(self).limit_view() + 2,
            r.1 == read_u16(old(self).buf()@, old(self).limit_view() as int),
            final(self).placed_as(*old(self), (r.0 + r.1) as usize),
            *final(self) == old(self).with_limit((r.0 + r.1) as usize),
    {
        proof {
            self.buf().lemma_len();
            self.lemma_with_limit();
            self.lemma_frame();
        }
        let offset = self.get_limit();
        let data_length = self.get_buf().get_u16_at(offset) as usize;
        self.set_limit(offset + 2 + data_length);
        (offset + 2, data_length)
    }

    /// The bytes of `response` at the coordinates that `response_decoder` gave.
    pub fn response_slice(&'a self, coordinates: (usize, usize)) -> (r: &'a [u8])
        requires
            self.buf_ok(),
            coordinates.0 + coordinates.1 <= self.limit_view(),
            coordinates.0 + coordinates.1 <= self.buf()@.len(),
        ensures
            r@ == self.buf()@.subrange(coordinates.0 as int, coordinates.0 + coordinates.1),
    {
        self.get_buf().get_slice_at(coordinates.0, coordinates.1)
    }
}

} // verus!
