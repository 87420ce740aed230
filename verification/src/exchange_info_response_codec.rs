//! The message `ExchangeInfoResponse`, template 103 of schema 1.
use crate::allowed_self_trade_prevention_modes::AllowedSelfTradePreventionModes;
use crate::bool_enum::BoolEnum;
use crate::buffer::{ReadBuf, WriteBuf};
use crate::codec::{Decoder, Encoder, Reader, SbeErr, SbeResult, Writer};
use crate::group::{Cursor, advance_result, has_next, step};
use crate::message_header_codec::{MessageHeaderDecoder, MessageHeaderEncoder, write_header};
use crate::order_types::OrderTypes;
use crate::rate_limit_interval::RateLimitInterval;
use crate::rate_limit_type::RateLimitType;
use crate::self_trade_prevention_mode::SelfTradePreventionMode;
use crate::symbol_status::SymbolStatus;
use crate::wire::{
    laid, lemma_group_size_round_trip, lemma_laid, lemma_laid_apart, lemma_next_field,
    lemma_read_spelled, lemma_read_spelled_unsigned, lemma_round_trip_16, lemma_round_trip_64,
    lemma_round_trip_8, lemma_side_by_side_wider, lemma_u16_value, lemma_u64_value, read_i64,
    read_u16, read_u32, read_u8, u16_to_le, u64_of, u64_to_le, write_group_size, write_i64,
    write_u16, write_u8, write_var_u8,
};
use vstd::string::StringSliceAdditionalSpecFns;
use vstd::prelude::*;

verus! {

/// The bytes that the fixed block of this message takes.
pub const SBE_BLOCK_LENGTH: u16 = 0;

pub const SBE_TEMPLATE_ID: u16 = 103;

pub const SBE_SCHEMA_ID: u16 = 1;

pub const SBE_SCHEMA_VERSION: u16 = 0;

pub const SBE_SEMANTIC_VERSION: &'static str = "5.2";

#[derive(Debug)]
pub struct ExchangeInfoResponseEncoder<'a> {
    buf: WriteBuf<'a>,
    initial_offset: usize,
    offset: usize,
    limit: usize,
}

impl<'a> Default for ExchangeInfoResponseEncoder<'a> {
    fn default() -> (r: Self)
        ensures
            r.buf()@.len() == 0,
            r.initial_offset_view() == 0,
            r.offset_view() == 0,
            r.limit_view() == 0,
    {
        Self { buf: WriteBuf::default(), initial_offset: 0, offset: 0, limit: 0 }
    }
}

impl<'a> Writer<'a> for ExchangeInfoResponseEncoder<'a> {
    open spec fn buf_ok(&self) -> bool {
        true
    }

    closed spec fn buf(self) -> WriteBuf<'a> {
        self.buf
    }

    closed spec fn with_buf(self, buf: WriteBuf<'a>) -> Self {
        Self { buf, ..self }
    }

    proof fn lemma_with_buf(self) {
    }

    proof fn lemma_resolved(self) {
        self.lemma_buf_resolved();
        self.buf.lemma_resolved();
    }

    fn get_buf_mut(&mut self) -> (r: &mut WriteBuf<'a>) {
        &mut self.buf
    }
}

impl<'a> Encoder<'a> for ExchangeInfoResponseEncoder<'a> {
    closed spec fn limit_view(self) -> usize {
        self.limit
    }

    closed spec fn with_limit(self, limit: usize) -> Self {
        Self { limit, ..self }
    }

    proof fn lemma_with_limit(self) {
    }

    fn get_limit(&self) -> (r: usize) {
        self.limit
    }

    fn set_limit(&mut self, limit: usize) {
        self.limit = limit;
    }
}

impl<'a> ExchangeInfoResponseEncoder<'a> {
    /// Where nothing writes through this encoder any more, nothing writes
    /// through its buffer.
    proof fn lemma_buf_resolved(self)
        requires
            has_resolved(self),
        ensures
            has_resolved(self.buf),
    {
    }

    pub closed spec fn initial_offset_view(self) -> usize {
        self.initial_offset
    }

    /// Where the fixed block begins.
    pub closed spec fn offset_view(self) -> usize {
        self.offset
    }

    /// This encoder stands where `pre` stood, but for the limit, which is
    /// at `limit` (what the buffer holds may differ).
    pub open spec fn placed_as(self, pre: Self, limit: usize) -> bool {
        &&& self.limit_view() == limit
        &&& self.offset_view() == pre.offset_view()
        &&& self.initial_offset_view() == pre.initial_offset_view()
    }

    /// Exchanging the buffer or the limit leaves the offsets alone.
    pub proof fn lemma_frame(self)
        ensures
            forall|buf: WriteBuf<'a>|
                #![trigger self.with_buf(buf)]
                self.with_buf(buf).offset_view() == self.offset_view() && self.with_buf(
                    buf,
                ).initial_offset_view() == self.initial_offset_view(),
            forall|limit: usize|
                #![trigger self.with_limit(limit)]
                self.with_limit(limit).offset_view() == self.offset_view() && self.with_limit(
                    limit,
                ).initial_offset_view() == self.initial_offset_view(),
    {
    }

    /// Places the encoder over `buf` with its fixed block at `offset`; the
    /// limit stands behind the block.
    pub fn wrap(self, buf: WriteBuf<'a>, offset: usize) -> (r: Self)
        requires
            offset + SBE_BLOCK_LENGTH <= usize::MAX,
        ensures
            r.buf() == buf,
            r.initial_offset_view() == offset,
            r.offset_view() == offset,
            r.limit_view() == offset + SBE_BLOCK_LENGTH,
    {
        let limit = offset + SBE_BLOCK_LENGTH as usize;
        let mut this = self;
        this.buf = buf;
        this.initial_offset = offset;
        this.offset = offset;
        this.limit = limit;
        this
    }

    /// The bytes from the start of the block to the limit.
    pub fn encoded_length(&self) -> (r: usize)
        requires
            self.offset_view() <= self.limit_view(),
        ensures
            r == self.limit_view() - self.offset_view(),
    {
        self.limit - self.offset
    }

    /// Writes the header of this message at `offset` and hands out the
    /// header's encoder, which holds this encoder as its parent.
    pub fn header(self, offset: usize) -> (r: MessageHeaderEncoder<Self>)
        requires
            offset + 8 <= self.buf()@.len(),
        ensures
            r.offset_view() == offset,
            r.parent_view() is Some,
            r.buf()@ == write_header(
                self.buf()@,
                offset as int,
                SBE_BLOCK_LENGTH,
                SBE_TEMPLATE_ID,
                SBE_SCHEMA_ID,
                SBE_SCHEMA_VERSION,
            ),
            r.buf()@.len() == self.buf()@.len(),
            final(r.buf().target())@ == final(self.buf().target())@,
            r.parent_view().unwrap().placed_as(self, self.limit_view()),
            r.parent_view().unwrap() == self.with_buf(r.buf()),
    {
        proof {
            self.buf().lemma_len();
            self.lemma_frame();
        }
        let mut header = MessageHeaderEncoder::default().wrap(self, offset);
        proof {
            header.lemma_frame();
            header.lemma_with_buf();
            self.lemma_with_buf();
        }
        header.block_length(SBE_BLOCK_LENGTH);
        proof {
            header.lemma_frame();
            header.lemma_with_buf();
            header.parent_view().unwrap().lemma_with_buf();
        }
        header.template_id(SBE_TEMPLATE_ID);
        proof {
            header.lemma_frame();
            header.lemma_with_buf();
            header.parent_view().unwrap().lemma_with_buf();
        }
        header.schema_id(SBE_SCHEMA_ID);
        proof {
            header.lemma_frame();
            header.lemma_with_buf();
            header.parent_view().unwrap().lemma_with_buf();
        }
        header.version(SBE_SCHEMA_VERSION);
        header
    }

    /// Opens the group `rateLimits` for `count` elements: writes its size
    /// prefix at the limit and moves the limit behind it.
    pub fn rate_limits_encoder(
        self,
        count: u32,
        rate_limits_encoder: RateLimitsEncoder<Self>,
    ) -> (r: RateLimitsEncoder<Self>)
        requires
            self.limit_view() + 6 <= self.buf()@.len(),
        ensures
            r.opened(self, count),
            final(r.buf().target())@ == final(self.buf().target())@,
    {
        rate_limits_encoder.wrap(self, count)
    }

    /// Opens the group `exchangeFilters` for `count` elements: writes its size
    /// prefix at the limit and moves the limit behind it.
    pub fn exchange_filters_encoder(
        self,
        count: u32,
        exchange_filters_encoder: ExchangeFiltersEncoder<Self>,
    ) -> (r: ExchangeFiltersEncoder<Self>)
        requires
            self.limit_view() + 6 <= self.buf()@.len(),
        ensures
            r.opened(self, count),
            final(r.buf().target())@ == final(self.buf().target())@,
    {
        exchange_filters_encoder.wrap(self, count)
    }

    /// Opens the group `symbols` for `count` elements: writes its size
    /// prefix at the limit and moves the limit behind it.
    pub fn symbols_encoder(
        self,
        count: u32,
        symbols_encoder: SymbolsEncoder<Self>,
    ) -> (r: SymbolsEncoder<Self>)
        requires
            self.limit_view() + 6 <= self.buf()@.len(),
        ensures
            r.opened(self, count),
            final(r.buf().target())@ == final(self.buf().target())@,
    {
        symbols_encoder.wrap(self, count)
    }

    /// Opens the group `sors` for `count` elements: writes its size
    /// prefix at the limit and moves the limit behind it.
    pub fn sors_encoder(
        self,
        count: u32,
        sors_encoder: SorsEncoder<Self>,
    ) -> (r: SorsEncoder<Self>)
        requires
            self.limit_view() + 6 <= self.buf()@.len(),
        ensures
            r.opened(self, count),
            final(r.buf().target())@ == final(self.buf().target())@,
    {
        sors_encoder.wrap(self, count)
    }
}

#[derive(Debug)]
pub struct RateLimitsEncoder<P> {
    parent: Option<P>,
    count: u32,
    index: usize,
    offset: usize,
    initial_limit: usize,
}

impl<P> Default for RateLimitsEncoder<P> {
    fn default() -> (r: Self)
        ensures
            r.parent_view() is None,
            r.count_view() == 0,
            r.index_view() == 0,
            r.offset_view() == 0,
            r.initial_limit_view() == 0,
    {
        Self { parent: None, count: 0, index: 0, offset: 0, initial_limit: 0 }
    }
}

impl<P> RateLimitsEncoder<P> {
    /// Where nothing writes through this codec any more, nothing writes
    /// through its parent.
    proof fn lemma_parent_resolved(self)
        requires
            has_resolved(self),
            self.parent is Some,
        ensures
            has_resolved(self.parent->0),
    {
    }

    pub closed spec fn parent_view(self) -> Option<P> {
        self.parent
    }

    pub closed spec fn count_view(self) -> u32 {
        self.count
    }

    pub closed spec fn index_view(self) -> usize {
        self.index
    }

    pub closed spec fn offset_view(self) -> usize {
        self.offset
    }

    pub closed spec fn initial_limit_view(self) -> usize {
        self.initial_limit
    }

    /// This codec over another parent, all else kept.
    pub closed spec fn with_parent(self, parent: Option<P>) -> Self {
        Self { parent, ..self }
    }

    /// This codec at another element, all else kept.
    pub closed spec fn with_position(self, index: usize, offset: usize) -> Self {
        Self { index, offset, ..self }
    }

    /// What the exchanges above keep and what they put.
    pub proof fn lemma_frame(self)
        ensures
            forall|parent: Option<P>|
                #![trigger self.with_parent(parent)]
                {
                    let w = self.with_parent(parent);
                    &&& w.parent_view() == parent
                    &&& w.count_view() == self.count_view()
                    &&& w.index_view() == self.index_view()
                    &&& w.offset_view() == self.offset_view()
                    &&& w.initial_limit_view() == self.initial_limit_view()
                },
            forall|first: Option<P>, second: Option<P>|
                #![trigger self.with_parent(first).with_parent(second)]
                self.with_parent(first).with_parent(second) == self.with_parent(second),
            self.with_parent(self.parent_view()) == self,
            forall|index: usize, offset: usize|
                #![trigger self.with_position(index, offset)]
                {
                    let w = self.with_position(index, offset);
                    &&& w.parent_view() == self.parent_view()
                    &&& w.index_view() == index
                    &&& w.offset_view() == offset
                    &&& w.count_view() == self.count_view()
                    &&& w.initial_limit_view() == self.initial_limit_view()
                },
            forall|parent: Option<P>, index: usize, offset: usize|
                #![trigger self.with_parent(parent).with_position(index, offset)]
                self.with_parent(parent).with_position(index, offset) == self.with_position(
                    index,
                    offset,
                ).with_parent(parent),
    {
    }
}

impl<'a, P> Writer<'a> for RateLimitsEncoder<P> where P: Writer<'a> + Default {
    open spec fn buf_ok(&self) -> bool {
        self.parent_view() is Some && self.parent_view().unwrap().buf_ok()
    }

    open spec fn buf(self) -> WriteBuf<'a> {
        self.parent_view().unwrap().buf()
    }

    open spec fn with_buf(self, buf: WriteBuf<'a>) -> Self {
        self.with_parent(Some(self.parent_view().unwrap().with_buf(buf)))
    }

    proof fn lemma_with_buf(self) {
        self.parent_view().unwrap().lemma_with_buf();
        self.lemma_frame();
    }

    proof fn lemma_resolved(self) {
        self.lemma_parent_resolved();
        self.parent_view().unwrap().lemma_resolved();
    }

    fn get_buf_mut(&mut self) -> (r: &mut WriteBuf<'a>) {
        if let Some(parent) = self.parent.as_mut() {
            parent.get_buf_mut()
        } else {
            vstd::pervasive::unreached()
        }
    }
}

impl<'a, P> Encoder<'a> for RateLimitsEncoder<P> where P: Encoder<'a> + Default {
    open spec fn limit_view(self) -> usize {
        self.parent_view().unwrap().limit_view()
    }

    open spec fn with_limit(self, limit: usize) -> Self {
        self.with_parent(Some(self.parent_view().unwrap().with_limit(limit)))
    }

    proof fn lemma_with_limit(self) {
        self.parent_view().unwrap().lemma_with_buf();
        self.parent_view().unwrap().lemma_with_limit();
        self.lemma_frame();
    }

    fn get_limit(&self) -> (r: usize) {
        self.parent.as_ref().expect("parent missing").get_limit()
    }

    fn set_limit(&mut self, limit: usize) {
        self.parent.as_mut().expect("parent missing").set_limit(limit);
    }
}

impl<'a, P> RateLimitsEncoder<P> where P: Encoder<'a> + Default {
    /// This codec stands where `pre` stood, but for the limit, which is at
    /// `limit` (what the buffer holds may differ).
    pub open spec fn placed_as(self, pre: Self, limit: usize) -> bool {
        &&& self.buf_ok()
        &&& self.limit_view() == limit
        &&& self.count_view() == pre.count_view()
        &&& self.index_view() == pre.index_view()
        &&& self.offset_view() == pre.offset_view()
        &&& self.initial_limit_view() == pre.initial_limit_view()
    }

    /// The bytes that one element's fixed fields take.
    pub open spec fn block_length_view() -> u16 {
        11
    }

    /// Where the walk over the elements stands.
    pub open spec fn cursor(self) -> Cursor {
        Cursor {
            count: self.count_view() as u32,
            index: self.index_view(),
            offset: self.offset_view(),
            block_length: Self::block_length_view() as usize,
            limit: self.limit_view(),
        }
    }

    /// What `wrap` makes of `parent` and `count`: the size prefix is
    /// written at the parent's limit, the limit stands behind it, and the
    /// codec stands before the first element.
    pub open spec fn opened(self, parent: P, count: u32) -> bool {
        &&& self.count_view() == count
        &&& self.index_view() == usize::MAX
        &&& self.offset_view() == usize::MAX
        &&& self.initial_limit_view() == parent.limit_view()
        &&& self.buf_ok()
        &&& self.limit_view() == parent.limit_view() + 6
        &&& self.buf()@ == write_group_size(
            parent.buf()@,
            parent.limit_view() as int,
            Self::block_length_view(),
            count,
        )
        &&& self.buf()@.len() == parent.buf()@.len()
        &&& self.parent_view().unwrap() == parent.with_limit(
            (parent.limit_view() + 6) as usize,
        ).with_buf(self.buf())
    }

    /// Opens the group at the parent's limit for `count` elements.
    pub fn wrap(self, parent: P, count: u32) -> (r: Self)
        requires
            parent.buf_ok(),
            parent.limit_view() + 6 <= parent.buf()@.len(),
        ensures
            r.opened(parent, count),
            final(r.buf().target())@ == final(parent.buf().target())@,
    {
        let mut parent = parent;
        proof {
            parent.buf().lemma_len();
            parent.lemma_with_limit();
            parent.lemma_with_buf();
        }
        let initial_limit = parent.get_limit();
        parent.set_limit(initial_limit + 6);
        proof {
            parent.lemma_with_buf();
            parent.lemma_with_limit();
        }
        parent.get_buf_mut().put_u16_at(initial_limit, Self::block_length());
        proof {
            parent.lemma_with_buf();
            parent.lemma_with_limit();
        }
        parent.get_buf_mut().put_u32_at(initial_limit + 2, count);
        proof {
            self.lemma_frame();
        }
        let mut this = self;
        this.parent = Some(parent);
        this.count = count;
        this.index = usize::MAX;
        this.offset = usize::MAX;
        this.initial_limit = initial_limit;
        this
    }

    /// The bytes that one element's fixed fields take.
    pub fn block_length() -> (r: u16)
        ensures
            r == Self::block_length_view(),
    {
        11
    }

    /// Hands the parent back; after that this codec reaches no buffer.
    pub fn parent(&mut self) -> (r: SbeResult<P>)
        ensures
            r == match old(self).parent_view() {
                Some(p) => Ok::<P, SbeErr>(p),
                None => Err::<P, SbeErr>(SbeErr::ParentNotSet),
            },
            *final(self) == old(self).with_parent(None),
    {
        self.parent.take().ok_or(SbeErr::ParentNotSet)
    }

    /// An element is left to move to, and the parent is there to move in.
    pub open spec fn can_advance(self) -> bool {
        has_next(self.cursor()) && self.parent_view() is Some
    }

    /// What `advance` makes of `pre` where it moves: the cursor has taken
    /// one step, and all else is as it was.
    pub open spec fn advanced(self, pre: Self) -> bool {
        &&& self.cursor() == step(pre.cursor())
        &&& self.buf_ok()
        &&& self.buf() == pre.buf()
        &&& self.initial_limit_view() == pre.initial_limit_view()
        &&& self == pre.with_limit(step(pre.cursor()).limit).with_position(
            step(pre.cursor()).index,
            step(pre.cursor()).offset,
        )
    }

    /// Moves to the next element, if one is left: it begins at the limit,
    /// and the limit moves behind its fixed fields.
    pub fn advance(&mut self) -> (r: SbeResult<Option<usize>>)
        requires
            old(self).can_advance() ==> old(self).buf_ok() && old(self).limit_view() + old(
                self,
            ).cursor().block_length <= usize::MAX,
        ensures
            r == advance_result(old(self).cursor(), old(self).parent_view() is Some),
            old(self).can_advance() ==> final(self).advanced(*old(self)),
            !old(self).can_advance() ==> *final(self) == *old(self),
    {
        proof {
            self.lemma_frame();
            if self.parent_view() is Some {
                self.with_limit(step(self.cursor()).limit).lemma_frame();
            }
        }
        let index = self.index.wrapping_add(1);
        if index >= self.count as usize {
            return Ok(None);
        }
        if let Some(parent) = self.parent.as_mut() {
            proof {
                parent.lemma_with_limit();
            }
            self.offset = parent.get_limit();
            parent.set_limit(self.offset + Self::block_length() as usize);
            self.index = index;
            Ok(Some(index))
        } else {
            Err(SbeErr::ParentNotSet)
        }
    }

    /// `rateLimitType`: the code of a `RateLimitType` at byte 0 of the block.
    pub fn rate_limit_type(&mut self, value: RateLimitType)
        requires
            old(self).buf_ok(),
            old(self).offset_view() + 1 <= old(self).buf()@.len(),
        ensures
            final(self).buf()@ == write_u8(
                old(self).buf()@,
                old(self).offset_view() as int,
                value.code_view(),
            ),
            final(self).buf()@.len() == old(self).buf()@.len(),
            final(final(self).buf().target())@ == final(old(self).buf().target())@,
            final(self).placed_as(*old(self), old(self).limit_view()),
            *final(self) == old(self).with_buf(final(self).buf()),
    {
        proof {
            self.buf().lemma_len();
            self.lemma_with_buf();
            self.lemma_frame();
            self.lemma_with_limit();
        }
        let offset = self.offset;
        self.get_buf_mut().put_u8_at(offset, value.code());
    }

    /// `interval`: the code of a `RateLimitInterval` at byte 1 of the block.
    pub fn interval(&mut self, value: RateLimitInterval)
        requires
            old(self).buf_ok(),
            old(self).offset_view() + 2 <= old(self).buf()@.len(),
        ensures
            final(self).buf()@ == write_u8(
                old(self).buf()@,
                old(self).offset_view() + 1,
                value.code_view(),
            ),
            final(self).buf()@.len() == old(self).buf()@.len(),
            final(final(self).buf().target())@ == final(old(self).buf().target())@,
            final(self).placed_as(*old(self), old(self).limit_view()),
            *final(self) == old(self).with_buf(final(self).buf()),
    {
        proof {
            self.buf().lemma_len();
            self.lemma_with_buf();
            self.lemma_frame();
            self.lemma_with_limit();
        }
        let offset = self.offset + 1;
        self.get_buf_mut().put_u8_at(offset, value.code());
    }

    /// `intervalNum`: a `u8` at byte 2 of the block.
    pub fn interval_num(&mut self, value: u8)
        requires
            old(self).buf_ok(),
            old(self).offset_view() + 3 <= old(self).buf()@.len(),
        ensures
            final(self).buf()@ == write_u8(old(self).buf()@, old(self).offset_view() + 2, value),
            final(self).buf()@.len() == old(self).buf()@.len(),
            final(final(self).buf().target())@ == final(old(self).buf().target())@,
            final(self).placed_as(*old(self), old(self).limit_view()),
            *final(self) == old(self).with_buf(final(self).buf()),
    {
        proof {
            self.buf().lemma_len();
            self.lemma_with_buf();
            self.lemma_frame();
            self.lemma_with_limit();
        }
        let offset = self.offset + 2;
        self.get_buf_mut().put_u8_at(offset, value);
    }

    /// `rateLimit`: an `i64` at byte 3 of the block.
    pub fn rate_limit(&mut self, value: i64)
        requires
            old(self).buf_ok(),
            old(self).offset_view() + 11 <= old(self).buf()@.len(),
        ensures
            final(self).buf()@ == write_i64(old(self).buf()@, old(self).offset_view() + 3, value),
            final(self).buf()@.len() == old(self).buf()@.len(),
            final(final(self).buf().target())@ == final(old(self).buf().target())@,
            final(self).placed_as(*old(self), old(self).limit_view()),
            *final(self) == old(self).with_buf(final(self).buf()),
    {
        proof {
            self.buf().lemma_len();
            self.lemma_with_buf();
            self.lemma_frame();
            self.lemma_with_limit();
        }
        let offset = self.offset + 3;
        self.get_buf_mut().put_i64_at(offset, value);
    }
}

/// The bytes after every fixed field of an element of `rateLimits` at `base` was set
/// once, in the order of the fields: what the setters make of `s`.
#[verifier::opaque]
pub open spec fn rate_limits_block_written(
    s: Seq<u8>,
    base: int,
    rate_limit_type: RateLimitType,
    interval: RateLimitInterval,
    interval_num: u8,
    rate_limit: i64,
) -> Seq<u8> {
    let s = write_u8(s, base, rate_limit_type.code_view());
    let s = write_u8(s, base + 1, interval.code_view());
    let s = write_u8(s, base + 2, interval_num);
    let s = write_i64(s, base + 3, rate_limit);
    s
}

/// Every fixed field of an element of `rateLimits` is read as it was set: the fields
/// lie side by side within the block, and the length is as it was.
pub proof fn lemma_rate_limits_block_round_trip(
    s: Seq<u8>,
    base: int,
    rate_limit_type: RateLimitType,
    interval: RateLimitInterval,
    interval_num: u8,
    rate_limit: i64,
)
    requires
        0 <= base,
        base + 11 <= s.len(),
    ensures
        ({
            let t = rate_limits_block_written(
                s,
                base,
                rate_limit_type,
                interval,
                interval_num,
                rate_limit,
            );
            &&& t.len() == s.len()
            &&& RateLimitType::of_code(read_u8(t, base)) == rate_limit_type
            &&& RateLimitInterval::of_code(read_u8(t, base + 1)) == interval
            &&& read_u8(t, base + 2) == interval_num
            &&& read_i64(t, base + 3) == rate_limit
        }),
{
    reveal(rate_limits_block_written);
    let b1 = seq![rate_limit_type.code_view()];
    let b2 = seq![interval.code_view()];
    let b3 = seq![interval_num];
    let b4 = u64_to_le(u64_of(rate_limit));
    lemma_u64_value(u64_of(rate_limit));
    let fields = |k: int|
        if k == 0 {
            (0int, b1)
        } else if k == 1 {
            (1int, b2)
        } else if k == 2 {
            (2int, b3)
        } else if k == 3 {
            (3int, b4)
        } else {
            (0int, Seq::<u8>::empty())
        };
    lemma_next_field(s, base, fields, 0, 0, 1);
    lemma_next_field(s, base, fields, 1, 1, 2);
    lemma_next_field(s, base, fields, 2, 2, 3);
    lemma_next_field(s, base, fields, 3, 3, 11);
    lemma_side_by_side_wider(fields, 4, 11, 11);
    let t = laid(s, base, fields, 4);
    lemma_laid(s, base, fields, 4, 11, 0);
    lemma_read_spelled_unsigned(t, base, rate_limit_type.code_view(), 0, 0, 0);
    RateLimitType::lemma_codes(0, rate_limit_type);
    lemma_laid(s, base, fields, 4, 11, 1);
    lemma_read_spelled_unsigned(t, base + 1, interval.code_view(), 0, 0, 0);
    RateLimitInterval::lemma_codes(0, interval);
    lemma_laid(s, base, fields, 4, 11, 2);
    lemma_read_spelled_unsigned(t, base + 2, interval_num, 0, 0, 0);
    lemma_laid(s, base, fields, 4, 11, 3);
    lemma_read_spelled(t, base + 3, 0, 0, 0, rate_limit);
}

/// An element of `rateLimits` written with what is read from it is as it was, where each code in
/// it is one that the schema declares, or the null code.
pub proof fn lemma_rate_limits_block_written_back(s: Seq<u8>, base: int)
    requires
        0 <= base,
        base + 11 <= s.len(),
        RateLimitType::declared(read_u8(s, base)) || read_u8(s, base) == 255,
        RateLimitInterval::declared(read_u8(s, base + 1)) || read_u8(s, base + 1) == 255,
    ensures
        rate_limits_block_written(
            s,
            base,
            RateLimitType::of_code(read_u8(s, base)),
            RateLimitInterval::of_code(read_u8(s, base + 1)),
            read_u8(s, base + 2),
            read_i64(s, base + 3),
        ) == s,
{
    reveal(rate_limits_block_written);
    lemma_round_trip_8(s, base, 0, 0);
    RateLimitType::lemma_codes(read_u8(s, base), RateLimitType::NullVal);
    lemma_round_trip_8(s, base + 1, 0, 0);
    RateLimitInterval::lemma_codes(read_u8(s, base + 1), RateLimitInterval::NullVal);
    lemma_round_trip_8(s, base + 2, 0, 0);
    lemma_round_trip_64(s, base + 3, 0, 0);
}

/// One more element of `rateLimits`: an encoder that has written `i`
/// elements from `start` on, whatever its parent is, has written
/// `i + 1` of them once `advance` and each setter were called.
/// `moved` is the encoder after `advance`, and `set` the encoder after
/// each of the setters, in the order of the fields.
pub proof fn lemma_rate_limits_element_written<'a, P: Encoder<'a> + Default>(
    s: Seq<u8>,
    start: int,
    rate_limit_type: Seq<RateLimitType>,
    interval: Seq<RateLimitInterval>,
    interval_num: Seq<u8>,
    rate_limit: Seq<i64>,
    i: nat,
    before: RateLimitsEncoder<P>,
    moved: RateLimitsEncoder<P>,
    set: Seq<RateLimitsEncoder<P>>,
)
    requires
        before.buf()@ == rate_limits_elements_written(
            s,
            start,
            rate_limit_type,
            interval,
            interval_num,
            rate_limit,
            i,
        ),
        before.limit_view() == start + i * 11,
        before.limit_view() + 11 <= usize::MAX,
        before.can_advance(),
        moved.advanced(before),
        set.len() == 4,
        set[0].buf()@ == write_u8(
            moved.buf()@,
            moved.offset_view() as int,
            rate_limit_type[i as int].code_view(),
        ),
        set[0].placed_as(moved, moved.limit_view()),
        set[1].buf()@ == write_u8(
            set[0].buf()@,
            set[0].offset_view() + 1,
            interval[i as int].code_view(),
        ),
        set[1].placed_as(set[0], set[0].limit_view()),
        set[2].buf()@ == write_u8(
            set[1].buf()@,
            set[1].offset_view() + 2,
            interval_num[i as int],
        ),
        set[2].placed_as(set[1], set[1].limit_view()),
        set[3].buf()@ == write_i64(
            set[2].buf()@,
            set[2].offset_view() + 3,
            rate_limit[i as int],
        ),
        set[3].placed_as(set[2], set[2].limit_view()),
    ensures
        set[3].buf()@ == rate_limits_elements_written(
            s,
            start,
            rate_limit_type,
            interval,
            interval_num,
            rate_limit,
            i + 1,
        ),
        set[3].limit_view() == start + (i + 1) * 11,
        set[3].placed_as(moved, moved.limit_view()),
{
    reveal(rate_limits_block_written);
}

/// The bytes before an element of `rateLimits` and behind it stay as they
/// were when its fields are set.
pub proof fn lemma_rate_limits_block_apart(
    s: Seq<u8>,
    base: int,
    rate_limit_type: RateLimitType,
    interval: RateLimitInterval,
    interval_num: u8,
    rate_limit: i64,
    j: int,
    w: int,
)
    requires
        0 <= base,
        base + 11 <= s.len(),
        0 <= j,
        0 <= w,
        j + w <= s.len(),
        j + w <= base || base + 11 <= j,
    ensures
        ({
            let t = rate_limits_block_written(
                s,
                base,
                rate_limit_type,
                interval,
                interval_num,
                rate_limit,
            );
            &&& t.len() == s.len()
            &&& t.subrange(j, j + w) == s.subrange(j, j + w)
            &&& w >= 1 ==> t[j] == s[j]
        }),
{
    reveal(rate_limits_block_written);
    let b1 = seq![rate_limit_type.code_view()];
    let b2 = seq![interval.code_view()];
    let b3 = seq![interval_num];
    let b4 = u64_to_le(u64_of(rate_limit));
    lemma_u64_value(u64_of(rate_limit));
    let fields = |k: int|
        if k == 0 {
            (0int, b1)
        } else if k == 1 {
            (1int, b2)
        } else if k == 2 {
            (2int, b3)
        } else if k == 3 {
            (3int, b4)
        } else {
            (0int, Seq::<u8>::empty())
        };
    lemma_next_field(s, base, fields, 0, 0, 1);
    lemma_next_field(s, base, fields, 1, 1, 2);
    lemma_next_field(s, base, fields, 2, 2, 3);
    lemma_next_field(s, base, fields, 3, 3, 11);
    lemma_side_by_side_wider(fields, 4, 11, 11);
    lemma_laid_apart(s, base, fields, 4, 11, j, w);
}

/// The first `n` elements of `rateLimits`, written one behind the other
/// from `start` on: what `advance` and the setters, each called once
/// for each element, make of `s`. Element `i` takes its fields from
/// place `i` of the sequences.
pub open spec fn rate_limits_elements_written(
    s: Seq<u8>,
    start: int,
    rate_limit_type: Seq<RateLimitType>,
    interval: Seq<RateLimitInterval>,
    interval_num: Seq<u8>,
    rate_limit: Seq<i64>,
    n: nat,
) -> Seq<u8>
    decreases n,
{
    if n == 0 {
        s
    } else {
        rate_limits_block_written(
            rate_limits_elements_written(
                s,
                start,
                rate_limit_type,
                interval,
                interval_num,
                rate_limit,
                (n - 1) as nat,
            ),
            start + (n - 1) * 11,
            rate_limit_type[n - 1],
            interval[n - 1],
            interval_num[n - 1],
            rate_limit[n - 1],
        )
    }
}

/// The elements of `rateLimits` leave what lies before them and behind
/// them as it was.
pub proof fn lemma_rate_limits_elements_apart(
    s: Seq<u8>,
    start: int,
    rate_limit_type: Seq<RateLimitType>,
    interval: Seq<RateLimitInterval>,
    interval_num: Seq<u8>,
    rate_limit: Seq<i64>,
    n: nat,
    j: int,
    w: int,
)
    requires
        0 <= start,
        start + n * 11 <= s.len(),
        0 <= j,
        0 <= w,
        j + w <= s.len(),
        j + w <= start || start + n * 11 <= j,
    ensures
        ({
            let t = rate_limits_elements_written(
                s,
                start,
                rate_limit_type,
                interval,
                interval_num,
                rate_limit,
                n,
            );
            &&& t.len() == s.len()
            &&& t.subrange(j, j + w) == s.subrange(j, j + w)
            &&& w >= 1 ==> t[j] == s[j]
        }),
    decreases n,
{
    if n > 0 {
        let m = (n - 1) as nat;
        let u = rate_limits_elements_written(
            s,
            start,
            rate_limit_type,
            interval,
            interval_num,
            rate_limit,
            m,
        );
        lemma_rate_limits_elements_apart(
            s,
            start,
            rate_limit_type,
            interval,
            interval_num,
            rate_limit,
            m,
            j,
            w,
        );
        lemma_rate_limits_block_apart(
            u,
            start + m * 11,
            rate_limit_type[m as int],
            interval[m as int],
            interval_num[m as int],
            rate_limit[m as int],
            j,
            w,
        );
    }
}

/// Every element of `rateLimits` is read as it was written: element `i`
/// begins `i` blocks behind `start`, and its fields are those at place
/// `i` of the sequences.
pub proof fn lemma_rate_limits_elements_round_trip(
    s: Seq<u8>,
    start: int,
    rate_limit_type: Seq<RateLimitType>,
    interval: Seq<RateLimitInterval>,
    interval_num: Seq<u8>,
    rate_limit: Seq<i64>,
    n: nat,
    i: int,
)
    requires
        0 <= start,
        start + n * 11 <= s.len(),
        0 <= i < n,
    ensures
        ({
            let t = rate_limits_elements_written(
                s,
                start,
                rate_limit_type,
                interval,
                interval_num,
                rate_limit,
                n,
            );
            &&& t.len() == s.len()
            &&& RateLimitType::of_code(read_u8(t, start + i * 11)) == rate_limit_type[i]
            &&& RateLimitInterval::of_code(read_u8(t, start + i * 11 + 1)) == interval[i]
            &&& read_u8(t, start + i * 11 + 2) == interval_num[i]
            &&& read_i64(t, start + i * 11 + 3) == rate_limit[i]
        }),
    decreases n,
{
    let m = (n - 1) as nat;
    let u = rate_limits_elements_written(
        s,
        start,
        rate_limit_type,
        interval,
        interval_num,
        rate_limit,
        m,
    );
    let base = start + m * 11;
    lemma_rate_limits_elements_apart(
        s,
        start,
        rate_limit_type,
        interval,
        interval_num,
        rate_limit,
        m,
        0,
        0,
    );
    if i == m {
        lemma_rate_limits_block_round_trip(
            u,
            base,
            rate_limit_type[i],
            interval[i],
            interval_num[i],
            rate_limit[i],
        );
    } else {
        lemma_rate_limits_elements_round_trip(
            s,
            start,
            rate_limit_type,
            interval,
            interval_num,
            rate_limit,
            m,
            i,
        );
        lemma_rate_limits_block_apart(
            u,
            base,
            rate_limit_type[m as int],
            interval[m as int],
            interval_num[m as int],
            rate_limit[m as int],
            start + i * 11,
            1,
        );
        lemma_rate_limits_block_apart(
            u,
            base,
            rate_limit_type[m as int],
            interval[m as int],
            interval_num[m as int],
            rate_limit[m as int],
            start + i * 11 + 1,
            1,
        );
        lemma_rate_limits_block_apart(
            u,
            base,
            rate_limit_type[m as int],
            interval[m as int],
            interval_num[m as int],
            rate_limit[m as int],
            start + i * 11 + 2,
            1,
        );
        lemma_rate_limits_block_apart(
            u,
            base,
            rate_limit_type[m as int],
            interval[m as int],
            interval_num[m as int],
            rate_limit[m as int],
            start + i * 11 + 3,
            8,
        );
    }
}

/// The group `rateLimits` of `n` elements, written at `limit`: the size
/// prefix, and behind it the elements. This is what `wrap` with the
/// count `n`, and then `advance` and the setters for each element, make
/// of `s`.
pub open spec fn rate_limits_group_written(
    s: Seq<u8>,
    limit: int,
    rate_limit_type: Seq<RateLimitType>,
    interval: Seq<RateLimitInterval>,
    interval_num: Seq<u8>,
    rate_limit: Seq<i64>,
    n: nat,
) -> Seq<u8> {
    rate_limits_elements_written(
        write_group_size(s, limit, 11, n as u32),
        limit + 6,
        rate_limit_type,
        interval,
        interval_num,
        rate_limit,
        n,
    )
}

/// A group is read as it was written: the block length and the count
/// of the size prefix, and every element.
pub proof fn lemma_rate_limits_group_round_trip(
    s: Seq<u8>,
    limit: int,
    rate_limit_type: Seq<RateLimitType>,
    interval: Seq<RateLimitInterval>,
    interval_num: Seq<u8>,
    rate_limit: Seq<i64>,
    n: nat,
    i: int,
)
    requires
        0 <= limit,
        limit + 6 + n * 11 <= s.len(),
        n <= u32::MAX,
    ensures
        ({
            let t = rate_limits_group_written(
                s,
                limit,
                rate_limit_type,
                interval,
                interval_num,
                rate_limit,
                n,
            );
            &&& t.len() == s.len()
            &&& read_u16(t, limit) == 11
            &&& read_u32(t, limit + 2) == n
            &&& 0 <= i < n ==> {
                &&& RateLimitType::of_code(read_u8(t, limit + 6 + i * 11)) == rate_limit_type[i]
                &&& RateLimitInterval::of_code(read_u8(t, limit + 6 + i * 11 + 1)) == interval[i]
                &&& read_u8(t, limit + 6 + i * 11 + 2) == interval_num[i]
                &&& read_i64(t, limit + 6 + i * 11 + 3) == rate_limit[i]
            }
        }),
{
    let p = write_group_size(s, limit, 11, n as u32);
    lemma_group_size_round_trip(s, limit, 11, n as u32, 0);
    lemma_rate_limits_elements_apart(p, limit + 6, rate_limit_type, interval, interval_num, rate_limit, n, limit, 2);
    lemma_rate_limits_elements_apart(p, limit + 6, rate_limit_type, interval, interval_num, rate_limit, n, limit + 2, 4);
    if 0 <= i < n {
        lemma_rate_limits_elements_round_trip(p, limit + 6, rate_limit_type, interval, interval_num, rate_limit, n, i);
    }
}

#[derive(Debug)]
pub struct ExchangeFiltersEncoder<P> {
    parent: Option<P>,
    count: u32,
    index: usize,
    offset: usize,
    initial_limit: usize,
}

impl<P> Default for ExchangeFiltersEncoder<P> {
    fn default() -> (r: Self)
        ensures
            r.parent_view() is None,
            r.count_view() == 0,
            r.index_view() == 0,
            r.offset_view() == 0,
            r.initial_limit_view() == 0,
    {
        Self { parent: None, count: 0, index: 0, offset: 0, initial_limit: 0 }
    }
}

impl<P> ExchangeFiltersEncoder<P> {
    /// Where nothing writes through this codec any more, nothing writes
    /// through its parent.
    proof fn lemma_parent_resolved(self)
        requires
            has_resolved(self),
            self.parent is Some,
        ensures
            has_resolved(self.parent->0),
    {
    }

    pub closed spec fn parent_view(self) -> Option<P> {
        self.parent
    }

    pub closed spec fn count_view(self) -> u32 {
        self.count
    }

    pub closed spec fn index_view(self) -> usize {
        self.index
    }

    pub closed spec fn offset_view(self) -> usize {
        self.offset
    }

    pub closed spec fn initial_limit_view(self) -> usize {
        self.initial_limit
    }

    /// This codec over another parent, all else kept.
    pub closed spec fn with_parent(self, parent: Option<P>) -> Self {
        Self { parent, ..self }
    }

    /// This codec at another element, all else kept.
    pub closed spec fn with_position(self, index: usize, offset: usize) -> Self {
        Self { index, offset, ..self }
    }

    /// What the exchanges above keep and what they put.
    pub proof fn lemma_frame(self)
        ensures
            forall|parent: Option<P>|
                #![trigger self.with_parent(parent)]
                {
                    let w = self.with_parent(parent);
                    &&& w.parent_view() == parent
                    &&& w.count_view() == self.count_view()
                    &&& w.index_view() == self.index_view()
                    &&& w.offset_view() == self.offset_view()
                    &&& w.initial_limit_view() == self.initial_limit_view()
                },
            forall|first: Option<P>, second: Option<P>|
                #![trigger self.with_parent(first).with_parent(second)]
                self.with_parent(first).with_parent(second) == self.with_parent(second),
            self.with_parent(self.parent_view()) == self,
            forall|index: usize, offset: usize|
                #![trigger self.with_position(index, offset)]
                {
                    let w = self.with_position(index, offset);
                    &&& w.parent_view() == self.parent_view()
                    &&& w.index_view() == index
                    &&& w.offset_view() == offset
                    &&& w.count_view() == self.count_view()
                    &&& w.initial_limit_view() == self.initial_limit_view()
                },
            forall|parent: Option<P>, index: usize, offset: usize|
                #![trigger self.with_parent(parent).with_position(index, offset)]
                self.with_parent(parent).with_position(index, offset) == self.with_position(
                    index,
                    offset,
                ).with_parent(parent),
    {
    }
}

impl<'a, P> Writer<'a> for ExchangeFiltersEncoder<P> where P: Writer<'a> + Default {
    open spec fn buf_ok(&self) -> bool {
        self.parent_view() is Some && self.parent_view().unwrap().buf_ok()
    }

    open spec fn buf(self) -> WriteBuf<'a> {
        self.parent_view().unwrap().buf()
    }

    open spec fn with_buf(self, buf: WriteBuf<'a>) -> Self {
        self.with_parent(Some(self.parent_view().unwrap().with_buf(buf)))
    }

    proof fn lemma_with_buf(self) {
        self.parent_view().unwrap().lemma_with_buf();
        self.lemma_frame();
    }

    proof fn lemma_resolved(self) {
        self.lemma_parent_resolved();
        self.parent_view().unwrap().lemma_resolved();
    }

    fn get_buf_mut(&mut self) -> (r: &mut WriteBuf<'a>) {
        if let Some(parent) = self.parent.as_mut() {
            parent.get_buf_mut()
        } else {
            vstd::pervasive::unreached()
        }
    }
}

impl<'a, P> Encoder<'a> for ExchangeFiltersEncoder<P> where P: Encoder<'a> + Default {
    open spec fn limit_view(self) -> usize {
        self.parent_view().unwrap().limit_view()
    }

    open spec fn with_limit(self, limit: usize) -> Self {
        self.with_parent(Some(self.parent_view().unwrap().with_limit(limit)))
    }

    proof fn lemma_with_limit(self) {
        self.parent_view().unwrap().lemma_with_buf();
        self.parent_view().unwrap().lemma_with_limit();
        self.lemma_frame();
    }

    fn get_limit(&self) -> (r: usize) {
        self.parent.as_ref().expect("parent missing").get_limit()
    }

    fn set_limit(&mut self, limit: usize) {
        self.parent.as_mut().expect("parent missing").set_limit(limit);
    }
}

impl<'a, P> ExchangeFiltersEncoder<P> where P: Encoder<'a> + Default {
    /// This codec stands where `pre` stood, but for the limit, which is at
    /// `limit` (what the buffer holds may differ).
    pub open spec fn placed_as(self, pre: Self, limit: usize) -> bool {
        &&& self.buf_ok()
        &&& self.limit_view() == limit
        &&& self.count_view() == pre.count_view()
        &&& self.index_view() == pre.index_view()
        &&& self.offset_view() == pre.offset_view()
        &&& self.initial_limit_view() == pre.initial_limit_view()
    }

    /// The bytes that one element's fixed fields take.
    pub open spec fn block_length_view() -> u16 {
        0
    }

    /// Where the walk over the elements stands.
    pub open spec fn cursor(self) -> Cursor {
        Cursor {
            count: self.count_view() as u32,
            index: self.index_view(),
            offset: self.offset_view(),
            block_length: Self::block_length_view() as usize,
            limit: self.limit_view(),
        }
    }

    /// What `wrap` makes of `parent` and `count`: the size prefix is
    /// written at the parent's limit, the limit stands behind it, and the
    /// codec stands before the first element.
    pub open spec fn opened(self, parent: P, count: u32) -> bool {
        &&& self.count_view() == count
        &&& self.index_view() == usize::MAX
        &&& self.offset_view() == usize::MAX
        &&& self.initial_limit_view() == parent.limit_view()
        &&& self.buf_ok()
        &&& self.limit_view() == parent.limit_view() + 6
        &&& self.buf()@ == write_group_size(
            parent.buf()@,
            parent.limit_view() as int,
            Self::block_length_view(),
            count,
        )
        &&& self.buf()@.len() == parent.buf()@.len()
        &&& self.parent_view().unwrap() == parent.with_limit(
            (parent.limit_view() + 6) as usize,
        ).with_buf(self.buf())
    }

    /// Opens the group at the parent's limit for `count` elements.
    pub fn wrap(self, parent: P, count: u32) -> (r: Self)
        requires
            parent.buf_ok(),
            parent.limit_view() + 6 <= parent.buf()@.len(),
        ensures
            r.opened(parent, count),
            final(r.buf().target())@ == final(parent.buf().target())@,
    {
        let mut parent = parent;
        proof {
            parent.buf().lemma_len();
            parent.lemma_with_limit();
            parent.lemma_with_buf();
        }
        let initial_limit = parent.get_limit();
        parent.set_limit(initial_limit + 6);
        proof {
            parent.lemma_with_buf();
            parent.lemma_with_limit();
        }
        parent.get_buf_mut().put_u16_at(initial_limit, Self::block_length());
        proof {
            parent.lemma_with_buf();
            parent.lemma_with_limit();
        }
        parent.get_buf_mut().put_u32_at(initial_limit + 2, count);
        proof {
            self.lemma_frame();
        }
        let mut this = self;
        this.parent = Some(parent);
        this.count = count;
        this.index = usize::MAX;
        this.offset = usize::MAX;
        this.initial_limit = initial_limit;
        this
    }

    /// The bytes that one element's fixed fields take.
    pub fn block_length() -> (r: u16)
        ensures
            r == Self::block_length_view(),
    {
        0
    }

    /// Hands the parent back; after that this codec reaches no buffer.
    pub fn parent(&mut self) -> (r: SbeResult<P>)
        ensures
            r == match old(self).parent_view() {
                Some(p) => Ok::<P, SbeErr>(p),
                None => Err::<P, SbeErr>(SbeErr::ParentNotSet),
            },
            *final(self) == old(self).with_parent(None),
    {
        self.parent.take().ok_or(SbeErr::ParentNotSet)
    }

    /// An element is left to move to, and the parent is there to move in.
    pub open spec fn can_advance(self) -> bool {
        has_next(self.cursor()) && self.parent_view() is Some
    }

    /// What `advance` makes of `pre` where it moves: the cursor has taken
    /// one step, and all else is as it was.
    pub open spec fn advanced(self, pre: Self) -> bool {
        &&& self.cursor() == step(pre.cursor())
        &&& self.buf_ok()
        &&& self.buf() == pre.buf()
        &&& self.initial_limit_view() == pre.initial_limit_view()
        &&& self == pre.with_limit(step(pre.cursor()).limit).with_position(
            step(pre.cursor()).index,
            step(pre.cursor()).offset,
        )
    }

    /// Moves to the next element, if one is left: it begins at the limit,
    /// and the limit moves behind its fixed fields.
    pub fn advance(&mut self) -> (r: SbeResult<Option<usize>>)
        requires
            old(self).can_advance() ==> old(self).buf_ok() && old(self).limit_view() + old(
                self,
            ).cursor().block_length <= usize::MAX,
        ensures
            r == advance_result(old(self).cursor(), old(self).parent_view() is Some),
            old(self).can_advance() ==> final(self).advanced(*old(self)),
            !old(self).can_advance() ==> *final(self) == *old(self),
    {
        proof {
            self.lemma_frame();
            if self.parent_view() is Some {
                self.with_limit(step(self.cursor()).limit).lemma_frame();
            }
        }
        let index = self.index.wrapping_add(1);
        if index >= self.count as usize {
            return Ok(None);
        }
        if let Some(parent) = self.parent.as_mut() {
            proof {
                parent.lemma_with_limit();
            }
            self.offset = parent.get_limit();
            parent.set_limit(self.offset + Self::block_length() as usize);
            self.index = index;
            Ok(Some(index))
        } else {
            Err(SbeErr::ParentNotSet)
        }
    }

    /// `filter`: bytes behind a `u8` length, appended at the limit.
    /// A length that the prefix cannot hold is cut to its low bits.
    pub fn filter(&mut self, value: &[u8])
        requires
            old(self).buf_ok(),
            old(self).limit_view() + 1 + value@.len() <= old(self).buf()@.len(),
        ensures
            final(self).buf()@ == write_var_u8(
                old(self).buf()@,
                old(self).limit_view() as int,
                value@,
            ),
            final(self).buf()@.len() == old(self).buf()@.len(),
            final(final(self).buf().target())@ == final(old(self).buf().target())@,
            final(self).placed_as(
                *old(self),
                (old(self).limit_view() + 1 + value@.len()) as usize,
            ),
            *final(self) == old(self).with_limit(
                (old(self).limit_view() + 1 + value@.len()) as usize,
            ).with_buf(final(self).buf()),
    {
        proof {
            self.buf().lemma_len();
            self.lemma_with_buf();
            self.lemma_with_limit();
            self.lemma_frame();
        }
        let limit = self.get_limit();
        let data_length = value.len();
        self.set_limit(limit + 1 + data_length);
        proof {
            self.lemma_with_buf();
            self.lemma_with_limit();
            self.lemma_frame();
        }
        self.get_buf_mut().put_u8_at(limit, #[verifier::truncate] (data_length as u8));
        proof {
            self.lemma_with_buf();
            self.lemma_with_limit();
            self.lemma_frame();
        }
        self.get_buf_mut().put_slice_at(limit + 1, value);
    }
}

#[derive(Debug)]
pub struct SymbolsEncoder<P> {
    parent: Option<P>,
    count: u32,
    index: usize,
    offset: usize,
    initial_limit: usize,
}

impl<P> Default for SymbolsEncoder<P> {
    fn default() -> (r: Self)
        ensures
            r.parent_view() is None,
            r.count_view() == 0,
            r.index_view() == 0,
            r.offset_view() == 0,
            r.initial_limit_view() == 0,
    {
        Self { parent: None, count: 0, index: 0, offset: 0, initial_limit: 0 }
    }
}

impl<P> SymbolsEncoder<P> {
    /// Where nothing writes through this codec any more, nothing writes
    /// through its parent.
    proof fn lemma_parent_resolved(self)
        requires
            has_resolved(self),
            self.parent is Some,
        ensures
            has_resolved(self.parent->0),
    {
    }

    pub closed spec fn parent_view(self) -> Option<P> {
        self.parent
    }

    pub closed spec fn count_view(self) -> u32 {
        self.count
    }

    pub closed spec fn index_view(self) -> usize {
        self.index
    }

    pub closed spec fn offset_view(self) -> usize {
        self.offset
    }

    pub closed spec fn initial_limit_view(self) -> usize {
        self.initial_limit
    }

    /// This codec over another parent, all else kept.
    pub closed spec fn with_parent(self, parent: Option<P>) -> Self {
        Self { parent, ..self }
    }

    /// This codec at another element, all else kept.
    pub closed spec fn with_position(self, index: usize, offset: usize) -> Self {
        Self { index, offset, ..self }
    }

    /// What the exchanges above keep and what they put.
    pub proof fn lemma_frame(self)
        ensures
            forall|parent: Option<P>|
                #![trigger self.with_parent(parent)]
                {
                    let w = self.with_parent(parent);
                    &&& w.parent_view() == parent
                    &&& w.count_view() == self.count_view()
                    &&& w.index_view() == self.index_view()
                    &&& w.offset_view() == self.offset_view()
                    &&& w.initial_limit_view() == self.initial_limit_view()
                },
            forall|first: Option<P>, second: Option<P>|
                #![trigger self.with_parent(first).with_parent(second)]
                self.with_parent(first).with_parent(second) == self.with_parent(second),
            self.with_parent(self.parent_view()) == self,
            forall|index: usize, offset: usize|
                #![trigger self.with_position(index, offset)]
                {
                    let w = self.with_position(index, offset);
                    &&& w.parent_view() == self.parent_view()
                    &&& w.index_view() == index
                    &&& w.offset_view() == offset
                    &&& w.count_view() == self.count_view()
                    &&& w.initial_limit_view() == self.initial_limit_view()
                },
            forall|parent: Option<P>, index: usize, offset: usize|
                #![trigger self.with_parent(parent).with_position(index, offset)]
                self.with_parent(parent).with_position(index, offset) == self.with_position(
                    index,
                    offset,
                ).with_parent(parent),
    {
    }
}

impl<'a, P> Writer<'a> for SymbolsEncoder<P> where P: Writer<'a> + Default {
    open spec fn buf_ok(&self) -> bool {
        self.parent_view() is Some && self.parent_view().unwrap().buf_ok()
    }

    open spec fn buf(self) -> WriteBuf<'a> {
        self.parent_view().unwrap().buf()
    }

    open spec fn with_buf(self, buf: WriteBuf<'a>) -> Self {
        self.with_parent(Some(self.parent_view().unwrap().with_buf(buf)))
    }

    proof fn lemma_with_buf(self) {
        self.parent_view().unwrap().lemma_with_buf();
        self.lemma_frame();
    }

    proof fn lemma_resolved(self) {
        self.lemma_parent_resolved();
        self.parent_view().unwrap().lemma_resolved();
    }

    fn get_buf_mut(&mut self) -> (r: &mut WriteBuf<'a>) {
        if let Some(parent) = self.parent.as_mut() {
            parent.get_buf_mut()
        } else {
            vstd::pervasive::unreached()
        }
    }
}

impl<'a, P> Encoder<'a> for SymbolsEncoder<P> where P: Encoder<'a> + Default {
    open spec fn limit_view(self) -> usize {
        self.parent_view().unwrap().limit_view()
    }

    open spec fn with_limit(self, limit: usize) -> Self {
        self.with_parent(Some(self.parent_view().unwrap().with_limit(limit)))
    }

    proof fn lemma_with_limit(self) {
        self.parent_view().unwrap().lemma_with_buf();
        self.parent_view().unwrap().lemma_with_limit();
        self.lemma_frame();
    }

    fn get_limit(&self) -> (r: usize) {
        self.parent.as_ref().expect("parent missing").get_limit()
    }

    fn set_limit(&mut self, limit: usize) {
        self.parent.as_mut().expect("parent missing").set_limit(limit);
    }
}

impl<'a, P> SymbolsEncoder<P> where P: Encoder<'a> + Default {
    /// This codec stands where `pre` stood, but for the limit, which is at
    /// `limit` (what the buffer holds may differ).
    pub open spec fn placed_as(self, pre: Self, limit: usize) -> bool {
        &&& self.buf_ok()
        &&& self.limit_view() == limit
        &&& self.count_view() == pre.count_view()
        &&& self.index_view() == pre.index_view()
        &&& self.offset_view() == pre.offset_view()
        &&& self.initial_limit_view() == pre.initial_limit_view()
    }

    /// The bytes that one element's fixed fields take.
    pub open spec fn block_length_view() -> u16 {
        16
    }

    /// Where the walk over the elements stands.
    pub open spec fn cursor(self) -> Cursor {
        Cursor {
            count: self.count_view() as u32,
            index: self.index_view(),
            offset: self.offset_view(),
            block_length: Self::block_length_view() as usize,
            limit: self.limit_view(),
        }
    }

    /// What `wrap` makes of `parent` and `count`: the size prefix is
    /// written at the parent's limit, the limit stands behind it, and the
    /// codec stands before the first element.
    pub open spec fn opened(self, parent: P, count: u32) -> bool {
        &&& self.count_view() == count
        &&& self.index_view() == usize::MAX
        &&& self.offset_view() == usize::MAX
        &&& self.initial_limit_view() == parent.limit_view()
        &&& self.buf_ok()
        &&& self.limit_view() == parent.limit_view() + 6
        &&& self.buf()@ == write_group_size(
            parent.buf()@,
            parent.limit_view() as int,
            Self::block_length_view(),
            count,
        )
        &&& self.buf()@.len() == parent.buf()@.len()
        &&& self.parent_view().unwrap() == parent.with_limit(
            (parent.limit_view() + 6) as usize,
        ).with_buf(self.buf())
    }

    /// Opens the group at the parent's limit for `count` elements.
    pub fn wrap(self, parent: P, count: u32) -> (r: Self)
        requires
            parent.buf_ok(),
            parent.limit_view() + 6 <= parent.buf()@.len(),
        ensures
            r.opened(parent, count),
            final(r.buf().target())@ == final(parent.buf().target())@,
    {
        let mut parent = parent;
        proof {
            parent.buf().lemma_len();
            parent.lemma_with_limit();
            parent.lemma_with_buf();
        }
        let initial_limit = parent.get_limit();
        parent.set_limit(initial_limit + 6);
        proof {
            parent.lemma_with_buf();
            parent.lemma_with_limit();
        }
        parent.get_buf_mut().put_u16_at(initial_limit, Self::block_length());
        proof {
            parent.lemma_with_buf();
            parent.lemma_with_limit();
        }
        parent.get_buf_mut().put_u32_at(initial_limit + 2, count);
        proof {
            self.lemma_frame();
        }
        let mut this = self;
        this.parent = Some(parent);
        this.count = count;
        this.index = usize::MAX;
        this.offset = usize::MAX;
        this.initial_limit = initial_limit;
        this
    }

    /// The bytes that one element's fixed fields take.
    pub fn block_length() -> (r: u16)
        ensures
            r == Self::block_length_view(),
    {
        16
    }

    /// Hands the parent back; after that this codec reaches no buffer.
    pub fn parent(&mut self) -> (r: SbeResult<P>)
        ensures
            r == match old(self).parent_view() {
                Some(p) => Ok::<P, SbeErr>(p),
                None => Err::<P, SbeErr>(SbeErr::ParentNotSet),
            },
            *final(self) == old(self).with_parent(None),
    {
        self.parent.take().ok_or(SbeErr::ParentNotSet)
    }

    /// An element is left to move to, and the parent is there to move in.
    pub open spec fn can_advance(self) -> bool {
        has_next(self.cursor()) && self.parent_view() is Some
    }

    /// What `advance` makes of `pre` where it moves: the cursor has taken
    /// one step, and all else is as it was.
    pub open spec fn advanced(self, pre: Self) -> bool {
        &&& self.cursor() == step(pre.cursor())
        &&& self.buf_ok()
        &&& self.buf() == pre.buf()
        &&& self.initial_limit_view() == pre.initial_limit_view()
        &&& self == pre.with_limit(step(pre.cursor()).limit).with_position(
            step(pre.cursor()).index,
            step(pre.cursor()).offset,
        )
    }

    /// Moves to the next element, if one is left: it begins at the limit,
    /// and the limit moves behind its fixed fields.
    pub fn advance(&mut self) -> (r: SbeResult<Option<usize>>)
        requires
            old(self).can_advance() ==> old(self).buf_ok() && old(self).limit_view() + old(
                self,
            ).cursor().block_length <= usize::MAX,
        ensures
            r == advance_result(old(self).cursor(), old(self).parent_view() is Some),
            old(self).can_advance() ==> final(self).advanced(*old(self)),
            !old(self).can_advance() ==> *final(self) == *old(self),
    {
        proof {
            self.lemma_frame();
            if self.parent_view() is Some {
                self.with_limit(step(self.cursor()).limit).lemma_frame();
            }
        }
        let index = self.index.wrapping_add(1);
        if index >= self.count as usize {
            return Ok(None);
        }
        if let Some(parent) = self.parent.as_mut() {
            proof {
                parent.lemma_with_limit();
            }
            self.offset = parent.get_limit();
            parent.set_limit(self.offset + Self::block_length() as usize);
            self.index = index;
            Ok(Some(index))
        } else {
            Err(SbeErr::ParentNotSet)
        }
    }

    /// `status`: the code of a `SymbolStatus` at byte 0 of the block.
    pub fn status(&mut self, value: SymbolStatus)
        requires
            old(self).buf_ok(),
            old(self).offset_view() + 1 <= old(self).buf()@.len(),
        ensures
            final(self).buf()@ == write_u8(
                old(self).buf()@,
                old(self).offset_view() as int,
                value.code_view(),
            ),
            final(self).buf()@.len() == old(self).buf()@.len(),
            final(final(self).buf().target())@ == final(old(self).buf().target())@,
            final(self).placed_as(*old(self), old(self).limit_view()),
            *final(self) == old(self).with_buf(final(self).buf()),
    {
        proof {
            self.buf().lemma_len();
            self.lemma_with_buf();
            self.lemma_frame();
            self.lemma_with_limit();
        }
        let offset = self.offset;
        self.get_buf_mut().put_u8_at(offset, value.code());
    }

    /// `baseAssetPrecision`: a `u8` at byte 1 of the block.
    pub fn base_asset_precision(&mut self, value: u8)
        requires
            old(self).buf_ok(),
            old(self).offset_view() + 2 <= old(self).buf()@.len(),
        ensures
            final(self).buf()@ == write_u8(old(self).buf()@, old(self).offset_view() + 1, value),
            final(self).buf()@.len() == old(self).buf()@.len(),
            final(final(self).buf().target())@ == final(old(self).buf().target())@,
            final(self).placed_as(*old(self), old(self).limit_view()),
            *final(self) == old(self).with_buf(final(self).buf()),
    {
        proof {
            self.buf().lemma_len();
            self.lemma_with_buf();
            self.lemma_frame();
            self.lemma_with_limit();
        }
        let offset = self.offset + 1;
        self.get_buf_mut().put_u8_at(offset, value);
    }

    /// `quoteAssetPrecision`: a `u8` at byte 2 of the block.
    pub fn quote_asset_precision(&mut self, value: u8)
        requires
            old(self).buf_ok(),
            old(self).offset_view() + 3 <= old(self).buf()@.len(),
        ensures
            final(self).buf()@ == write_u8(old(self).buf()@, old(self).offset_view() + 2, value),
            final(self).buf()@.len() == old(self).buf()@.len(),
            final(final(self).buf().target())@ == final(old(self).buf().target())@,
            final(self).placed_as(*old(self), old(self).limit_view()),
            *final(self) == old(self).with_buf(final(self).buf()),
    {
        proof {
            self.buf().lemma_len();
            self.lemma_with_buf();
            self.lemma_frame();
            self.lemma_with_limit();
        }
        let offset = self.offset + 2;
        self.get_buf_mut().put_u8_at(offset, value);
    }

    /// `baseCommissionPrecision`: a `u8` at byte 3 of the block.
    pub fn base_commission_precision(&mut self, value: u8)
        requires
            old(self).buf_ok(),
            old(self).offset_view() + 4 <= old(self).buf()@.len(),
        ensures
            final(self).buf()@ == write_u8(old(self).buf()@, old(self).offset_view() + 3, value),
            final(self).buf()@.len() == old(self).buf()@.len(),
            final(final(self).buf().target())@ == final(old(self).buf().target())@,
            final(self).placed_as(*old(self), old(self).limit_view()),
            *final(self) == old(self).with_buf(final(self).buf()),
    {
        proof {
            self.buf().lemma_len();
            self.lemma_with_buf();
            self.lemma_frame();
            self.lemma_with_limit();
        }
        let offset = self.offset + 3;
        self.get_buf_mut().put_u8_at(offset, value);
    }

    /// `quoteCommissionPrecision`: a `u8` at byte 4 of the block.
    pub fn quote_commission_precision(&mut self, value: u8)
        requires
            old(self).buf_ok(),
            old(self).offset_view() + 5 <= old(self).buf()@.len(),
        ensures
            final(self).buf()@ == write_u8(old(self).buf()@, old(self).offset_view() + 4, value),
            final(self).buf()@.len() == old(self).buf()@.len(),
            final(final(self).buf().target())@ == final(old(self).buf().target())@,
            final(self).placed_as(*old(self), old(self).limit_view()),
            *final(self) == old(self).with_buf(final(self).buf()),
    {
        proof {
            self.buf().lemma_len();
            self.lemma_with_buf();
            self.lemma_frame();
            self.lemma_with_limit();
        }
        let offset = self.offset + 4;
        self.get_buf_mut().put_u8_at(offset, value);
    }

    /// `orderTypes`: the flags of an `OrderTypes` at byte 5 of the block.
    pub fn order_types(&mut self, value: OrderTypes)
        requires
            old(self).buf_ok(),
            old(self).offset_view() + 7 <= old(self).buf()@.len(),
        ensures
            final(self).buf()@ == write_u16(old(self).buf()@, old(self).offset_view() + 5, value.0),
            final(self).buf()@.len() == old(self).buf()@.len(),
            final(final(self).buf().target())@ == final(old(self).buf().target())@,
            final(self).placed_as(*old(self), old(self).limit_view()),
            *final(self) == old(self).with_buf(final(self).buf()),
    {
        proof {
            self.buf().lemma_len();
            self.lemma_with_buf();
            self.lemma_frame();
            self.lemma_with_limit();
        }
        let offset = self.offset + 5;
        self.get_buf_mut().put_u16_at(offset, value.0);
    }

    /// `icebergAllowed`: the code of a `BoolEnum` at byte 7 of the block.
    pub fn iceberg_allowed(&mut self, value: BoolEnum)
        requires
            old(self).buf_ok(),
            old(self).offset_view() + 8 <= old(self).buf()@.len(),
        ensures
            final(self).buf()@ == write_u8(
                old(self).buf()@,
                old(self).offset_view() + 7,
                value.code_view(),
            ),
            final(self).buf()@.len() == old(self).buf()@.len(),
            final(final(self).buf().target())@ == final(old(self).buf().target())@,
            final(self).placed_as(*old(self), old(self).limit_view()),
            *final(self) == old(self).with_buf(final(self).buf()),
    {
        proof {
            self.buf().lemma_len();
            self.lemma_with_buf();
            self.lemma_frame();
            self.lemma_with_limit();
        }
        let offset = self.offset + 7;
        self.get_buf_mut().put_u8_at(offset, value.code());
    }

    /// `ocoAllowed`: the code of a `BoolEnum` at byte 8 of the block.
    pub fn oco_allowed(&mut self, value: BoolEnum)
        requires
            old(self).buf_ok(),
            old(self).offset_view() + 9 <= old(self).buf()@.len(),
        ensures
            final(self).buf()@ == write_u8(
                old(self).buf()@,
                old(self).offset_view() + 8,
                value.code_view(),
            ),
            final(self).buf()@.len() == old(self).buf()@.len(),
            final(final(self).buf().target())@ == final(old(self).buf().target())@,
            final(self).placed_as(*old(self), old(self).limit_view()),
            *final(self) == old(self).with_buf(final(self).buf()),
    {
        proof {
            self.buf().lemma_len();
            self.lemma_with_buf();
            self.lemma_frame();
            self.lemma_with_limit();
        }
        let offset = self.offset + 8;
        self.get_buf_mut().put_u8_at(offset, value.code());
    }

    /// `quoteOrderQtyMarketAllowed`: the code of a `BoolEnum` at byte 9 of the block.
    pub fn quote_order_qty_market_allowed(&mut self, value: BoolEnum)
        requires
            old(self).buf_ok(),
            old(self).offset_view() + 10 <= old(self).buf()@.len(),
        ensures
            final(self).buf()@ == write_u8(
                old(self).buf()@,
                old(self).offset_view() + 9,
                value.code_view(),
            ),
            final(self).buf()@.len() == old(self).buf()@.len(),
            final(final(self).buf().target())@ == final(old(self).buf().target())@,
            final(self).placed_as(*old(self), old(self).limit_view()),
            *final(self) == old(self).with_buf(final(self).buf()),
    {
        proof {
            self.buf().lemma_len();
            self.lemma_with_buf();
            self.lemma_frame();
            self.lemma_with_limit();
        }
        let offset = self.offset + 9;
        self.get_buf_mut().put_u8_at(offset, value.code());
    }

    /// `allowTrailingStop`: the code of a `BoolEnum` at byte 10 of the block.
    pub fn allow_trailing_stop(&mut self, value: BoolEnum)
        requires
            old(self).buf_ok(),
            old(self).offset_view() + 11 <= old(self).buf()@.len(),
        ensures
            final(self).buf()@ == write_u8(
                old(self).buf()@,
                old(self).offset_view() + 10,
                value.code_view(),
            ),
            final(self).buf()@.len() == old(self).buf()@.len(),
            final(final(self).buf().target())@ == final(old(self).buf().target())@,
            final(self).placed_as(*old(self), old(self).limit_view()),
            *final(self) == old(self).with_buf(final(self).buf()),
    {
        proof {
            self.buf().lemma_len();
            self.lemma_with_buf();
            self.lemma_frame();
            self.lemma_with_limit();
        }
        let offset = self.offset + 10;
        self.get_buf_mut().put_u8_at(offset, value.code());
    }

    /// `cancelReplaceAllowed`: the code of a `BoolEnum` at byte 11 of the block.
    pub fn cancel_replace_allowed(&mut self, value: BoolEnum)
        requires
            old(self).buf_ok(),
            old(self).offset_view() + 12 <= old(self).buf()@.len(),
        ensures
            final(self).buf()@ == write_u8(
                old(self).buf()@,
                old(self).offset_view() + 11,
                value.code_view(),
            ),
            final(self).buf()@.len() == old(self).buf()@.len(),
            final(final(self).buf().target())@ == final(old(self).buf().target())@,
            final(self).placed_as(*old(self), old(self).limit_view()),
            *final(self) == old(self).with_buf(final(self).buf()),
    {
        proof {
            self.buf().lemma_len();
            self.lemma_with_buf();
            self.lemma_frame();
            self.lemma_with_limit();
        }
        let offset = self.offset + 11;
        self.get_buf_mut().put_u8_at(offset, value.code());
    }

    /// `isSpotTradingAllowed`: the code of a `BoolEnum` at byte 12 of the block.
    pub fn is_spot_trading_allowed(&mut self, value: BoolEnum)
        requires
            old(self).buf_ok(),
            old(self).offset_view() + 13 <= old(self).buf()@.len(),
        ensures
            final(self).buf()@ == write_u8(
                old(self).buf()@,
                old(self).offset_view() + 12,
                value.code_view(),
            ),
            final(self).buf()@.len() == old(self).buf()@.len(),
            final(final(self).buf().target())@ == final(old(self).buf().target())@,
            final(self).placed_as(*old(self), old(self).limit_view()),
            *final(self) == old(self).with_buf(final(self).buf()),
    {
        proof {
            self.buf().lemma_len();
            self.lemma_with_buf();
            self.lemma_frame();
            self.lemma_with_limit();
        }
        let offset = self.offset + 12;
        self.get_buf_mut().put_u8_at(offset, value.code());
    }

    /// `isMarginTradingAllowed`: the code of a `BoolEnum` at byte 13 of the block.
    pub fn is_margin_trading_allowed(&mut self, value: BoolEnum)
        requires
            old(self).buf_ok(),
            old(self).offset_view() + 14 <= old(self).buf()@.len(),
        ensures
            final(self).buf()@ == write_u8(
                old(self).buf()@,
                old(self).offset_view() + 13,
                value.code_view(),
            ),
            final(self).buf()@.len() == old(self).buf()@.len(),
            final(final(self).buf().target())@ == final(old(self).buf().target())@,
            final(self).placed_as(*old(self), old(self).limit_view()),
            *final(self) == old(self).with_buf(final(self).buf()),
    {
        proof {
            self.buf().lemma_len();
            self.lemma_with_buf();
            self.lemma_frame();
            self.lemma_with_limit();
        }
        let offset = self.offset + 13;
        self.get_buf_mut().put_u8_at(offset, value.code());
    }

    /// `defaultSelfTradePreventionMode`:
    /// the code of a `SelfTradePreventionMode` at byte 14 of the block.
    pub fn default_self_trade_prevention_mode(&mut self, value: SelfTradePreventionMode)
        requires
            old(self).buf_ok(),
            old(self).offset_view() + 15 <= old(self).buf()@.len(),
        ensures
            final(self).buf()@ == write_u8(
                old(self).buf()@,
                old(self).offset_view() + 14,
                value.code_view(),
            ),
            final(self).buf()@.len() == old(self).buf()@.len(),
            final(final(self).buf().target())@ == final(old(self).buf().target())@,
            final(self).placed_as(*old(self), old(self).limit_view()),
            *final(self) == old(self).with_buf(final(self).buf()),
    {
        proof {
            self.buf().lemma_len();
            self.lemma_with_buf();
            self.lemma_frame();
            self.lemma_with_limit();
        }
        let offset = self.offset + 14;
        self.get_buf_mut().put_u8_at(offset, value.code());
    }

    /// `allowedSelfTradePreventionModes`:
    /// the flags of an `AllowedSelfTradePreventionModes` at byte 15 of the block.
    pub fn allowed_self_trade_prevention_modes(&mut self, value: AllowedSelfTradePreventionModes)
        requires
            old(self).buf_ok(),
            old(self).offset_view() + 16 <= old(self).buf()@.len(),
        ensures
            final(self).buf()@ == write_u8(old(self).buf()@, old(self).offset_view() + 15, value.0),
            final(self).buf()@.len() == old(self).buf()@.len(),
            final(final(self).buf().target())@ == final(old(self).buf().target())@,
            final(self).placed_as(*old(self), old(self).limit_view()),
            *final(self) == old(self).with_buf(final(self).buf()),
    {
        proof {
            self.buf().lemma_len();
            self.lemma_with_buf();
            self.lemma_frame();
            self.lemma_with_limit();
        }
        let offset = self.offset + 15;
        self.get_buf_mut().put_u8_at(offset, value.0);
    }

    /// Opens the group `filters` for `count` elements: writes its size
    /// prefix at the limit and moves the limit behind it.
    pub fn filters_encoder(
        self,
        count: u32,
        filters_encoder: FiltersEncoder<Self>,
    ) -> (r: FiltersEncoder<Self>)
        requires
            self.buf_ok(),
            self.limit_view() + 6 <= self.buf()@.len(),
        ensures
            r.opened(self, count),
            final(r.buf().target())@ == final(self.buf().target())@,
    {
        filters_encoder.wrap(self, count)
    }

    /// Opens the group `permissions` for `count` elements: writes its size
    /// prefix at the limit and moves the limit behind it.
    pub fn permissions_encoder(
        self,
        count: u32,
        permissions_encoder: PermissionsEncoder<Self>,
    ) -> (r: PermissionsEncoder<Self>)
        requires
            self.buf_ok(),
            self.limit_view() + 6 <= self.buf()@.len(),
        ensures
            r.opened(self, count),
            final(r.buf().target())@ == final(self.buf().target())@,
    {
        permissions_encoder.wrap(self, count)
    }

    /// `symbol`: text behind a `u8` length, appended at the limit.
    /// A length that the prefix cannot hold is cut to its low bits.
    pub fn symbol(&mut self, value: &str)
        requires
            old(self).buf_ok(),
            old(self).limit_view() + 1 + value.spec_bytes().len() <= old(self).buf()@.len(),
        ensures
            final(self).buf()@ == write_var_u8(
                old(self).buf()@,
                old(self).limit_view() as int,
                value.spec_bytes(),
            ),
            final(self).buf()@.len() == old(self).buf()@.len(),
            final(final(self).buf().target())@ == final(old(self).buf().target())@,
            final(self).placed_as(
                *old(self),
                (old(self).limit_view() + 1 + value.spec_bytes().len()) as usize,
            ),
            *final(self) == old(self).with_limit(
                (old(self).limit_view() + 1 + value.spec_bytes().len()) as usize,
            ).with_buf(final(self).buf()),
    {
        proof {
            self.buf().lemma_len();
            self.lemma_with_buf();
            self.lemma_with_limit();
            self.lemma_frame();
        }
        let limit = self.get_limit();
        let data_length = value.len();
        self.set_limit(limit + 1 + data_length);
        proof {
            self.lemma_with_buf();
            self.lemma_with_limit();
            self.lemma_frame();
        }
        self.get_buf_mut().put_u8_at(limit, #[verifier::truncate] (data_length as u8));
        proof {
            self.lemma_with_buf();
            self.lemma_with_limit();
            self.lemma_frame();
        }
        self.get_buf_mut().put_slice_at(limit + 1, value.as_bytes());
    }

    /// `baseAsset`: text behind a `u8` length, appended at the limit.
    /// A length that the prefix cannot hold is cut to its low bits.
    pub fn base_asset(&mut self, value: &str)
        requires
            old(self).buf_ok(),
            old(self).limit_view() + 1 + value.spec_bytes().len() <= old(self).buf()@.len(),
        ensures
            final(self).buf()@ == write_var_u8(
                old(self).buf()@,
                old(self).limit_view() as int,
                value.spec_bytes(),
            ),
            final(self).buf()@.len() == old(self).buf()@.len(),
            final(final(self).buf().target())@ == final(old(self).buf().target())@,
            final(self).placed_as(
                *old(self),
                (old(self).limit_view() + 1 + value.spec_bytes().len()) as usize,
            ),
            *final(self) == old(self).with_limit(
                (old(self).limit_view() + 1 + value.spec_bytes().len()) as usize,
            ).with_buf(final(self).buf()),
    {
        proof {
            self.buf().lemma_len();
            self.lemma_with_buf();
            self.lemma_with_limit();
            self.lemma_frame();
        }
        let limit = self.get_limit();
        let data_length = value.len();
        self.set_limit(limit + 1 + data_length);
        proof {
            self.lemma_with_buf();
            self.lemma_with_limit();
            self.lemma_frame();
        }
        self.get_buf_mut().put_u8_at(limit, #[verifier::truncate] (data_length as u8));
        proof {
            self.lemma_with_buf();
            self.lemma_with_limit();
            self.lemma_frame();
        }
        self.get_buf_mut().put_slice_at(limit + 1, value.as_bytes());
    }

    /// `quoteAsset`: text behind a `u8` length, appended at the limit.
    /// A length that the prefix cannot hold is cut to its low bits.
    pub fn quote_asset(&mut self, value: &str)
        requires
            old(self).buf_ok(),
            old(self).limit_view() + 1 + value.spec_bytes().len() <= old(self).buf()@.len(),
        ensures
            final(self).buf()@ == write_var_u8(
                old(self).buf()@,
                old(self).limit_view() as int,
                value.spec_bytes(),
            ),
            final(self).buf()@.len() == old(self).buf()@.len(),
            final(final(self).buf().target())@ == final(old(self).buf().target())@,
            final(self).placed_as(
                *old(self),
                (old(self).limit_view() + 1 + value.spec_bytes().len()) as usize,
            ),
            *final(self) == old(self).with_limit(
                (old(self).limit_view() + 1 + value.spec_bytes().len()) as usize,
            ).with_buf(final(self).buf()),
    {
        proof {
            self.buf().lemma_len();
            self.lemma_with_buf();
            self.lemma_with_limit();
            self.lemma_frame();
        }
        let limit = self.get_limit();
        let data_length = value.len();
        self.set_limit(limit + 1 + data_length);
        proof {
            self.lemma_with_buf();
            self.lemma_with_limit();
            self.lemma_frame();
        }
        self.get_buf_mut().put_u8_at(limit, #[verifier::truncate] (data_length as u8));
        proof {
            self.lemma_with_buf();
            self.lemma_with_limit();
            self.lemma_frame();
        }
        self.get_buf_mut().put_slice_at(limit + 1, value.as_bytes());
    }
}

/// The bytes after every fixed field of an element of `symbols` at `base` was set
/// once, in the order of the fields: what the setters make of `s`.
#[verifier::opaque]
pub open spec fn symbols_block_written(
    s: Seq<u8>,
    base: int,
    status: SymbolStatus,
    base_asset_precision: u8,
    quote_asset_precision: u8,
    base_commission_precision: u8,
    quote_commission_precision: u8,
    order_types: OrderTypes,
    iceberg_allowed: BoolEnum,
    oco_allowed: BoolEnum,
    quote_order_qty_market_allowed: BoolEnum,
    allow_trailing_stop: BoolEnum,
    cancel_replace_allowed: BoolEnum,
    is_spot_trading_allowed: BoolEnum,
    is_margin_trading_allowed: BoolEnum,
    default_self_trade_prevention_mode: SelfTradePreventionMode,
    allowed_self_trade_prevention_modes: AllowedSelfTradePreventionModes,
) -> Seq<u8> {
    let s = write_u8(s, base, status.code_view());
    let s = write_u8(s, base + 1, base_asset_precision);
    let s = write_u8(s, base + 2, quote_asset_precision);
    let s = write_u8(s, base + 3, base_commission_precision);
    let s = write_u8(s, base + 4, quote_commission_precision);
    let s = write_u16(s, base + 5, order_types.0);
    let s = write_u8(s, base + 7, iceberg_allowed.code_view());
    let s = write_u8(s, base + 8, oco_allowed.code_view());
    let s = write_u8(s, base + 9, quote_order_qty_market_allowed.code_view());
    let s = write_u8(s, base + 10, allow_trailing_stop.code_view());
    let s = write_u8(s, base + 11, cancel_replace_allowed.code_view());
    let s = write_u8(s, base + 12, is_spot_trading_allowed.code_view());
    let s = write_u8(s, base + 13, is_margin_trading_allowed.code_view());
    let s = write_u8(s, base + 14, default_self_trade_prevention_mode.code_view());
    let s = write_u8(s, base + 15, allowed_self_trade_prevention_modes.0);
    s
}

/// Every fixed field of an element of `symbols` is read as it was set: the fields
/// lie side by side within the block, and the length is as it was.
pub proof fn lemma_symbols_block_round_trip(
    s: Seq<u8>,
    base: int,
    status: SymbolStatus,
    base_asset_precision: u8,
    quote_asset_precision: u8,
    base_commission_precision: u8,
    quote_commission_precision: u8,
    order_types: OrderTypes,
    iceberg_allowed: BoolEnum,
    oco_allowed: BoolEnum,
    quote_order_qty_market_allowed: BoolEnum,
    allow_trailing_stop: BoolEnum,
    cancel_replace_allowed: BoolEnum,
    is_spot_trading_allowed: BoolEnum,
    is_margin_trading_allowed: BoolEnum,
    default_self_trade_prevention_mode: SelfTradePreventionMode,
    allowed_self_trade_prevention_modes: AllowedSelfTradePreventionModes,
)
    requires
        0 <= base,
        base + 16 <= s.len(),
    ensures
        ({
            let t = symbols_block_written(
                s,
                base,
                status,
                base_asset_precision,
                quote_asset_precision,
                base_commission_precision,
                quote_commission_precision,
                order_types,
                iceberg_allowed,
                oco_allowed,
                quote_order_qty_market_allowed,
                allow_trailing_stop,
                cancel_replace_allowed,
                is_spot_trading_allowed,
                is_margin_trading_allowed,
                default_self_trade_prevention_mode,
                allowed_self_trade_prevention_modes,
            );
            &&& t.len() == s.len()
            &&& SymbolStatus::of_code(read_u8(t, base)) == status
            &&& read_u8(t, base + 1) == base_asset_precision
            &&& read_u8(t, base + 2) == quote_asset_precision
            &&& read_u8(t, base + 3) == base_commission_precision
            &&& read_u8(t, base + 4) == quote_commission_precision
            &&& read_u16(t, base + 5) == order_types.0
            &&& BoolEnum::of_code(read_u8(t, base + 7)) == iceberg_allowed
            &&& BoolEnum::of_code(read_u8(t, base + 8)) == oco_allowed
            &&& BoolEnum::of_code(read_u8(t, base + 9)) == quote_order_qty_market_allowed
            &&& BoolEnum::of_code(read_u8(t, base + 10)) == allow_trailing_stop
            &&& BoolEnum::of_code(read_u8(t, base + 11)) == cancel_replace_allowed
            &&& BoolEnum::of_code(read_u8(t, base + 12)) == is_spot_trading_allowed
            &&& BoolEnum::of_code(read_u8(t, base + 13)) == is_margin_trading_allowed
            &&& SelfTradePreventionMode::of_code(read_u8(t, base + 14)) == default_self_trade_prevention_mode
            &&& read_u8(t, base + 15) == allowed_self_trade_prevention_modes.0
        }),
{
    reveal(symbols_block_written);
    let b1 = seq![status.code_view()];
    let b2 = seq![base_asset_precision];
    let b3 = seq![quote_asset_precision];
    let b4 = seq![base_commission_precision];
    let b5 = seq![quote_commission_precision];
    let b6 = u16_to_le(order_types.0);
    lemma_u16_value(order_types.0);
    let b7 = seq![iceberg_allowed.code_view()];
    let b8 = seq![oco_allowed.code_view()];
    let b9 = seq![quote_order_qty_market_allowed.code_view()];
    let b10 = seq![allow_trailing_stop.code_view()];
    let b11 = seq![cancel_replace_allowed.code_view()];
    let b12 = seq![is_spot_trading_allowed.code_view()];
    let b13 = seq![is_margin_trading_allowed.code_view()];
    let b14 = seq![default_self_trade_prevention_mode.code_view()];
    let b15 = seq![allowed_self_trade_prevention_modes.0];
    let fields = |k: int|
        if k == 0 {
            (0int, b1)
        } else if k == 1 {
            (1int, b2)
        } else if k == 2 {
            (2int, b3)
        } else if k == 3 {
            (3int, b4)
        } else if k == 4 {
            (4int, b5)
        } else if k == 5 {
            (5int, b6)
        } else if k == 6 {
            (7int, b7)
        } else if k == 7 {
            (8int, b8)
        } else if k == 8 {
            (9int, b9)
        } else if k == 9 {
            (10int, b10)
        } else if k == 10 {
            (11int, b11)
        } else if k == 11 {
            (12int, b12)
        } else if k == 12 {
            (13int, b13)
        } else if k == 13 {
            (14int, b14)
        } else if k == 14 {
            (15int, b15)
        } else {
            (0int, Seq::<u8>::empty())
        };
    lemma_next_field(s, base, fields, 0, 0, 1);
    lemma_next_field(s, base, fields, 1, 1, 2);
    lemma_next_field(s, base, fields, 2, 2, 3);
    lemma_next_field(s, base, fields, 3, 3, 4);
    lemma_next_field(s, base, fields, 4, 4, 5);
    lemma_next_field(s, base, fields, 5, 5, 7);
    lemma_next_field(s, base, fields, 6, 7, 8);
    lemma_next_field(s, base, fields, 7, 8, 9);
    lemma_next_field(s, base, fields, 8, 9, 10);
    lemma_next_field(s, base, fields, 9, 10, 11);
    lemma_next_field(s, base, fields, 10, 11, 12);
    lemma_next_field(s, base, fields, 11, 12, 13);
    lemma_next_field(s, base, fields, 12, 13, 14);
    lemma_next_field(s, base, fields, 13, 14, 15);
    lemma_next_field(s, base, fields, 14, 15, 16);
    lemma_side_by_side_wider(fields, 15, 16, 16);
    let t = laid(s, base, fields, 15);
    lemma_laid(s, base, fields, 15, 16, 0);
    lemma_read_spelled_unsigned(t, base, status.code_view(), 0, 0, 0);
    SymbolStatus::lemma_codes(0, status);
    lemma_laid(s, base, fields, 15, 16, 1);
    lemma_read_spelled_unsigned(t, base + 1, base_asset_precision, 0, 0, 0);
    lemma_laid(s, base, fields, 15, 16, 2);
    lemma_read_spelled_unsigned(t, base + 2, quote_asset_precision, 0, 0, 0);
    lemma_laid(s, base, fields, 15, 16, 3);
    lemma_read_spelled_unsigned(t, base + 3, base_commission_precision, 0, 0, 0);
    lemma_laid(s, base, fields, 15, 16, 4);
    lemma_read_spelled_unsigned(t, base + 4, quote_commission_precision, 0, 0, 0);
    lemma_laid(s, base, fields, 15, 16, 5);
    lemma_read_spelled_unsigned(t, base + 5, 0, order_types.0, 0, 0);
    lemma_laid(s, base, fields, 15, 16, 6);
    lemma_read_spelled_unsigned(t, base + 7, iceberg_allowed.code_view(), 0, 0, 0);
    BoolEnum::lemma_codes(0, iceberg_allowed);
    lemma_laid(s, base, fields, 15, 16, 7);
    lemma_read_spelled_unsigned(t, base + 8, oco_allowed.code_view(), 0, 0, 0);
    BoolEnum::lemma_codes(0, oco_allowed);
    lemma_laid(s, base, fields, 15, 16, 8);
    lemma_read_spelled_unsigned(t, base + 9, quote_order_qty_market_allowed.code_view(), 0, 0, 0);
    BoolEnum::lemma_codes(0, quote_order_qty_market_allowed);
    lemma_laid(s, base, fields, 15, 16, 9);
    lemma_read_spelled_unsigned(t, base + 10, allow_trailing_stop.code_view(), 0, 0, 0);
    BoolEnum::lemma_codes(0, allow_trailing_stop);
    lemma_laid(s, base, fields, 15, 16, 10);
    lemma_read_spelled_unsigned(t, base + 11, cancel_replace_allowed.code_view(), 0, 0, 0);
    BoolEnum::lemma_codes(0, cancel_replace_allowed);
    lemma_laid(s, base, fields, 15, 16, 11);
    lemma_read_spelled_unsigned(t, base + 12, is_spot_trading_allowed.code_view(), 0, 0, 0);
    BoolEnum::lemma_codes(0, is_spot_trading_allowed);
    lemma_laid(s, base, fields, 15, 16, 12);
    lemma_read_spelled_unsigned(t, base + 13, is_margin_trading_allowed.code_view(), 0, 0, 0);
    BoolEnum::lemma_codes(0, is_margin_trading_allowed);
    lemma_laid(s, base, fields, 15, 16, 13);
    lemma_read_spelled_unsigned(t, base + 14, default_self_trade_prevention_mode.code_view(), 0, 0, 0);
    SelfTradePreventionMode::lemma_codes(0, default_self_trade_prevention_mode);
    lemma_laid(s, base, fields, 15, 16, 14);
    lemma_read_spelled_unsigned(t, base + 15, allowed_self_trade_prevention_modes.0, 0, 0, 0);
}

/// An element of `symbols` written with what is read from it is as it was, where each code in
/// it is one that the schema declares, or the null code.
pub proof fn lemma_symbols_block_written_back(s: Seq<u8>, base: int)
    requires
        0 <= base,
        base + 16 <= s.len(),
        SymbolStatus::declared(read_u8(s, base)) || read_u8(s, base) == 255,
        BoolEnum::declared(read_u8(s, base + 7)) || read_u8(s, base + 7) == 255,
        BoolEnum::declared(read_u8(s, base + 8)) || read_u8(s, base + 8) == 255,
        BoolEnum::declared(read_u8(s, base + 9)) || read_u8(s, base + 9) == 255,
        BoolEnum::declared(read_u8(s, base + 10)) || read_u8(s, base + 10) == 255,
        BoolEnum::declared(read_u8(s, base + 11)) || read_u8(s, base + 11) == 255,
        BoolEnum::declared(read_u8(s, base + 12)) || read_u8(s, base + 12) == 255,
        BoolEnum::declared(read_u8(s, base + 13)) || read_u8(s, base + 13) == 255,
        SelfTradePreventionMode::declared(read_u8(s, base + 14)) || read_u8(s, base + 14) == 255,
    ensures
        symbols_block_written(
            s,
            base,
            SymbolStatus::of_code(read_u8(s, base)),
            read_u8(s, base + 1),
            read_u8(s, base + 2),
            read_u8(s, base + 3),
            read_u8(s, base + 4),
            OrderTypes(read_u16(s, base + 5)),
            BoolEnum::of_code(read_u8(s, base + 7)),
            BoolEnum::of_code(read_u8(s, base + 8)),
            BoolEnum::of_code(read_u8(s, base + 9)),
            BoolEnum::of_code(read_u8(s, base + 10)),
            BoolEnum::of_code(read_u8(s, base + 11)),
            BoolEnum::of_code(read_u8(s, base + 12)),
            BoolEnum::of_code(read_u8(s, base + 13)),
            SelfTradePreventionMode::of_code(read_u8(s, base + 14)),
            AllowedSelfTradePreventionModes(read_u8(s, base + 15)),
        ) == s,
{
    reveal(symbols_block_written);
    lemma_round_trip_8(s, base, 0, 0);
    SymbolStatus::lemma_codes(read_u8(s, base), SymbolStatus::NullVal);
    lemma_round_trip_8(s, base + 1, 0, 0);
    lemma_round_trip_8(s, base + 2, 0, 0);
    lemma_round_trip_8(s, base + 3, 0, 0);
    lemma_round_trip_8(s, base + 4, 0, 0);
    lemma_round_trip_16(s, base + 5, 0, 0);
    lemma_round_trip_8(s, base + 7, 0, 0);
    BoolEnum::lemma_codes(read_u8(s, base + 7), BoolEnum::NullVal);
    lemma_round_trip_8(s, base + 8, 0, 0);
    BoolEnum::lemma_codes(read_u8(s, base + 8), BoolEnum::NullVal);
    lemma_round_trip_8(s, base + 9, 0, 0);
    BoolEnum::lemma_codes(read_u8(s, base + 9), BoolEnum::NullVal);
    lemma_round_trip_8(s, base + 10, 0, 0);
    BoolEnum::lemma_codes(read_u8(s, base + 10), BoolEnum::NullVal);
    lemma_round_trip_8(s, base + 11, 0, 0);
    BoolEnum::lemma_codes(read_u8(s, base + 11), BoolEnum::NullVal);
    lemma_round_trip_8(s, base + 12, 0, 0);
    BoolEnum::lemma_codes(read_u8(s, base + 12), BoolEnum::NullVal);
    lemma_round_trip_8(s, base + 13, 0, 0);
    BoolEnum::lemma_codes(read_u8(s, base + 13), BoolEnum::NullVal);
    lemma_round_trip_8(s, base + 14, 0, 0);
    SelfTradePreventionMode::lemma_codes(read_u8(s, base + 14), SelfTradePreventionMode::NullVal);
    lemma_round_trip_8(s, base + 15, 0, 0);
}

#[derive(Debug)]
pub struct FiltersEncoder<P> {
    parent: Option<P>,
    count: u32,
    index: usize,
    offset: usize,
    initial_limit: usize,
}

impl<P> Default for FiltersEncoder<P> {
    fn default() -> (r: Self)
        ensures
            r.parent_view() is None,
            r.count_view() == 0,
            r.index_view() == 0,
            r.offset_view() == 0,
            r.initial_limit_view() == 0,
    {
        Self { parent: None, count: 0, index: 0, offset: 0, initial_limit: 0 }
    }
}

impl<P> FiltersEncoder<P> {
    /// Where nothing writes through this codec any more, nothing writes
    /// through its parent.
    proof fn lemma_parent_resolved(self)
        requires
            has_resolved(self),
            self.parent is Some,
        ensures
            has_resolved(self.parent->0),
    {
    }

    pub closed spec fn parent_view(self) -> Option<P> {
        self.parent
    }

    pub closed spec fn count_view(self) -> u32 {
        self.count
    }

    pub closed spec fn index_view(self) -> usize {
        self.index
    }

    pub closed spec fn offset_view(self) -> usize {
        self.offset
    }

    pub closed spec fn initial_limit_view(self) -> usize {
        self.initial_limit
    }

    /// This codec over another parent, all else kept.
    pub closed spec fn with_parent(self, parent: Option<P>) -> Self {
        Self { parent, ..self }
    }

    /// This codec at another element, all else kept.
    pub closed spec fn with_position(self, index: usize, offset: usize) -> Self {
        Self { index, offset, ..self }
    }

    /// What the exchanges above keep and what they put.
    pub proof fn lemma_frame(self)
        ensures
            forall|parent: Option<P>|
                #![trigger self.with_parent(parent)]
                {
                    let w = self.with_parent(parent);
                    &&& w.parent_view() == parent
                    &&& w.count_view() == self.count_view()
                    &&& w.index_view() == self.index_view()
                    &&& w.offset_view() == self.offset_view()
                    &&& w.initial_limit_view() == self.initial_limit_view()
                },
            forall|first: Option<P>, second: Option<P>|
                #![trigger self.with_parent(first).with_parent(second)]
                self.with_parent(first).with_parent(second) == self.with_parent(second),
            self.with_parent(self.parent_view()) == self,
            forall|index: usize, offset: usize|
                #![trigger self.with_position(index, offset)]
                {
                    let w = self.with_position(index, offset);
                    &&& w.parent_view() == self.parent_view()
                    &&& w.index_view() == index
                    &&& w.offset_view() == offset
                    &&& w.count_view() == self.count_view()
                    &&& w.initial_limit_view() == self.initial_limit_view()
                },
            forall|parent: Option<P>, index: usize, offset: usize|
                #![trigger self.with_parent(parent).with_position(index, offset)]
                self.with_parent(parent).with_position(index, offset) == self.with_position(
                    index,
                    offset,
                ).with_parent(parent),
    {
    }
}

impl<'a, P> Writer<'a> for FiltersEncoder<P> where P: Writer<'a> + Default {
    open spec fn buf_ok(&self) -> bool {
        self.parent_view() is Some && self.parent_view().unwrap().buf_ok()
    }

    open spec fn buf(self) -> WriteBuf<'a> {
        self.parent_view().unwrap().buf()
    }

    open spec fn with_buf(self, buf: WriteBuf<'a>) -> Self {
        self.with_parent(Some(self.parent_view().unwrap().with_buf(buf)))
    }

    proof fn lemma_with_buf(self) {
        self.parent_view().unwrap().lemma_with_buf();
        self.lemma_frame();
    }

    proof fn lemma_resolved(self) {
        self.lemma_parent_resolved();
        self.parent_view().unwrap().lemma_resolved();
    }

    fn get_buf_mut(&mut self) -> (r: &mut WriteBuf<'a>) {
        if let Some(parent) = self.parent.as_mut() {
            parent.get_buf_mut()
        } else {
            vstd::pervasive::unreached()
        }
    }
}

impl<'a, P> Encoder<'a> for FiltersEncoder<P> where P: Encoder<'a> + Default {
    open spec fn limit_view(self) -> usize {
        self.parent_view().unwrap().limit_view()
    }

    open spec fn with_limit(self, limit: usize) -> Self {
        self.with_parent(Some(self.parent_view().unwrap().with_limit(limit)))
    }

    proof fn lemma_with_limit(self) {
        self.parent_view().unwrap().lemma_with_buf();
        self.parent_view().unwrap().lemma_with_limit();
        self.lemma_frame();
    }

    fn get_limit(&self) -> (r: usize) {
        self.parent.as_ref().expect("parent missing").get_limit()
    }

    fn set_limit(&mut self, limit: usize) {
        self.parent.as_mut().expect("parent missing").set_limit(limit);
    }
}

impl<'a, P> FiltersEncoder<P> where P: Encoder<'a> + Default {
    /// This codec stands where `pre` stood, but for the limit, which is at
    /// `limit` (what the buffer holds may differ).
    pub open spec fn placed_as(self, pre: Self, limit: usize) -> bool {
        &&& self.buf_ok()
        &&& self.limit_view() == limit
        &&& self.count_view() == pre.count_view()
        &&& self.index_view() == pre.index_view()
        &&& self.offset_view() == pre.offset_view()
        &&& self.initial_limit_view() == pre.initial_limit_view()
    }

    /// The bytes that one element's fixed fields take.
    pub open spec fn block_length_view() -> u16 {
        0
    }

    /// Where the walk over the elements stands.
    pub open spec fn cursor(self) -> Cursor {
        Cursor {
            count: self.count_view() as u32,
            index: self.index_view(),
            offset: self.offset_view(),
            block_length: Self::block_length_view() as usize,
            limit: self.limit_view(),
        }
    }

    /// What `wrap` makes of `parent` and `count`: the size prefix is
    /// written at the parent's limit, the limit stands behind it, and the
    /// codec stands before the first element.
    pub open spec fn opened(self, parent: P, count: u32) -> bool {
        &&& self.count_view() == count
        &&& self.index_view() == usize::MAX
        &&& self.offset_view() == usize::MAX
        &&& self.initial_limit_view() == parent.limit_view()
        &&& self.buf_ok()
        &&& self.limit_view() == parent.limit_view() + 6
        &&& self.buf()@ == write_group_size(
            parent.buf()@,
            parent.limit_view() as int,
            Self::block_length_view(),
            count,
        )
        &&& self.buf()@.len() == parent.buf()@.len()
        &&& self.parent_view().unwrap() == parent.with_limit(
            (parent.limit_view() + 6) as usize,
        ).with_buf(self.buf())
    }

    /// Opens the group at the parent's limit for `count` elements.
    pub fn wrap(self, parent: P, count: u32) -> (r: Self)
        requires
            parent.buf_ok(),
            parent.limit_view() + 6 <= parent.buf()@.len(),
        ensures
            r.opened(parent, count),
            final(r.buf().target())@ == final(parent.buf().target())@,
    {
        let mut parent = parent;
        proof {
            parent.buf().lemma_len();
            parent.lemma_with_limit();
            parent.lemma_with_buf();
        }
        let initial_limit = parent.get_limit();
        parent.set_limit(initial_limit + 6);
        proof {
            parent.lemma_with_buf();
            parent.lemma_with_limit();
        }
        parent.get_buf_mut().put_u16_at(initial_limit, Self::block_length());
        proof {
            parent.lemma_with_buf();
            parent.lemma_with_limit();
        }
        parent.get_buf_mut().put_u32_at(initial_limit + 2, count);
        proof {
            self.lemma_frame();
        }
        let mut this = self;
        this.parent = Some(parent);
        this.count = count;
        this.index = usize::MAX;
        this.offset = usize::MAX;
        this.initial_limit = initial_limit;
        this
    }

    /// The bytes that one element's fixed fields take.
    pub fn block_length() -> (r: u16)
        ensures
            r == Self::block_length_view(),
    {
        0
    }

    /// Hands the parent back; after that this codec reaches no buffer.
    pub fn parent(&mut self) -> (r: SbeResult<P>)
        ensures
            r == match old(self).parent_view() {
                Some(p) => Ok::<P, SbeErr>(p),
                None => Err::<P, SbeErr>(SbeErr::ParentNotSet),
            },
            *final(self) == old(self).with_parent(None),
    {
        self.parent.take().ok_or(SbeErr::ParentNotSet)
    }

    /// An element is left to move to, and the parent is there to move in.
    pub open spec fn can_advance(self) -> bool {
        has_next(self.cursor()) && self.parent_view() is Some
    }

    /// What `advance` makes of `pre` where it moves: the cursor has taken
    /// one step, and all else is as it was.
    pub open spec fn advanced(self, pre: Self) -> bool {
        &&& self.cursor() == step(pre.cursor())
        &&& self.buf_ok()
        &&& self.buf() == pre.buf()
        &&& self.initial_limit_view() == pre.initial_limit_view()
        &&& self == pre.with_limit(step(pre.cursor()).limit).with_position(
            step(pre.cursor()).index,
            step(pre.cursor()).offset,
        )
    }

    /// Moves to the next element, if one is left: it begins at the limit,
    /// and the limit moves behind its fixed fields.
    pub fn advance(&mut self) -> (r: SbeResult<Option<usize>>)
        requires
            old(self).can_advance() ==> old(self).buf_ok() && old(self).limit_view() + old(
                self,
            ).cursor().block_length <= usize::MAX,
        ensures
            r == advance_result(old(self).cursor(), old(self).parent_view() is Some),
            old(self).can_advance() ==> final(self).advanced(*old(self)),
            !old(self).can_advance() ==> *final(self) == *old(self),
    {
        proof {
            self.lemma_frame();
            if self.parent_view() is Some {
                self.with_limit(step(self.cursor()).limit).lemma_frame();
            }
        }
        let index = self.index.wrapping_add(1);
        if index >= self.count as usize {
            return Ok(None);
        }
        if let Some(parent) = self.parent.as_mut() {
            proof {
                parent.lemma_with_limit();
            }
            self.offset = parent.get_limit();
            parent.set_limit(self.offset + Self::block_length() as usize);
            self.index = index;
            Ok(Some(index))
        } else {
            Err(SbeErr::ParentNotSet)
        }
    }

    /// `filter`: bytes behind a `u8` length, appended at the limit.
    /// A length that the prefix cannot hold is cut to its low bits.
    pub fn filter(&mut self, value: &[u8])
        requires
            old(self).buf_ok(),
            old(self).limit_view() + 1 + value@.len() <= old(self).buf()@.len(),
        ensures
            final(self).buf()@ == write_var_u8(
                old(self).buf()@,
                old(self).limit_view() as int,
                value@,
            ),
            final(self).buf()@.len() == old(self).buf()@.len(),
            final(final(self).buf().target())@ == final(old(self).buf().target())@,
            final(self).placed_as(
                *old(self),
                (old(self).limit_view() + 1 + value@.len()) as usize,
            ),
            *final(self) == old(self).with_limit(
                (old(self).limit_view() + 1 + value@.len()) as usize,
            ).with_buf(final(self).buf()),
    {
        proof {
            self.buf().lemma_len();
            self.lemma_with_buf();
            self.lemma_with_limit();
            self.lemma_frame();
        }
        let limit = self.get_limit();
        let data_length = value.len();
        self.set_limit(limit + 1 + data_length);
        proof {
            self.lemma_with_buf();
            self.lemma_with_limit();
            self.lemma_frame();
        }
        self.get_buf_mut().put_u8_at(limit, #[verifier::truncate] (data_length as u8));
        proof {
            self.lemma_with_buf();
            self.lemma_with_limit();
            self.lemma_frame();
        }
        self.get_buf_mut().put_slice_at(limit + 1, value);
    }
}

#[derive(Debug)]
pub struct PermissionsEncoder<P> {
    parent: Option<P>,
    count: u32,
    index: usize,
    offset: usize,
    initial_limit: usize,
}

impl<P> Default for PermissionsEncoder<P> {
    fn default() -> (r: Self)
        ensures
            r.parent_view() is None,
            r.count_view() == 0,
            r.index_view() == 0,
            r.offset_view() == 0,
            r.initial_limit_view() == 0,
    {
        Self { parent: None, count: 0, index: 0, offset: 0, initial_limit: 0 }
    }
}

impl<P> PermissionsEncoder<P> {
    /// Where nothing writes through this codec any more, nothing writes
    /// through its parent.
    proof fn lemma_parent_resolved(self)
        requires
            has_resolved(self),
            self.parent is Some,
        ensures
            has_resolved(self.parent->0),
    {
    }

    pub closed spec fn parent_view(self) -> Option<P> {
        self.parent
    }

    pub closed spec fn count_view(self) -> u32 {
        self.count
    }

    pub closed spec fn index_view(self) -> usize {
        self.index
    }

    pub closed spec fn offset_view(self) -> usize {
        self.offset
    }

    pub closed spec fn initial_limit_view(self) -> usize {
        self.initial_limit
    }

    /// This codec over another parent, all else kept.
    pub closed spec fn with_parent(self, parent: Option<P>) -> Self {
        Self { parent, ..self }
    }

    /// This codec at another element, all else kept.
    pub closed spec fn with_position(self, index: usize, offset: usize) -> Self {
        Self { index, offset, ..self }
    }

    /// What the exchanges above keep and what they put.
    pub proof fn lemma_frame(self)
        ensures
            forall|parent: Option<P>|
                #![trigger self.with_parent(parent)]
                {
                    let w = self.with_parent(parent);
                    &&& w.parent_view() == parent
                    &&& w.count_view() == self.count_view()
                    &&& w.index_view() == self.index_view()
                    &&& w.offset_view() == self.offset_view()
                    &&& w.initial_limit_view() == self.initial_limit_view()
                },
            forall|first: Option<P>, second: Option<P>|
                #![trigger self.with_parent(first).with_parent(second)]
                self.with_parent(first).with_parent(second) == self.with_parent(second),
            self.with_parent(self.parent_view()) == self,
            forall|index: usize, offset: usize|
                #![trigger self.with_position(index, offset)]
                {
                    let w = self.with_position(index, offset);
                    &&& w.parent_view() == self.parent_view()
                    &&& w.index_view() == index
                    &&& w.offset_view() == offset
                    &&& w.count_view() == self.count_view()
                    &&& w.initial_limit_view() == self.initial_limit_view()
                },
            forall|parent: Option<P>, index: usize, offset: usize|
                #![trigger self.with_parent(parent).with_position(index, offset)]
                self.with_parent(parent).with_position(index, offset) == self.with_position(
                    index,
                    offset,
                ).with_parent(parent),
    {
    }
}

impl<'a, P> Writer<'a> for PermissionsEncoder<P> where P: Writer<'a> + Default {
    open spec fn buf_ok(&self) -> bool {
        self.parent_view() is Some && self.parent_view().unwrap().buf_ok()
    }

    open spec fn buf(self) -> WriteBuf<'a> {
        self.parent_view().unwrap().buf()
    }

    open spec fn with_buf(self, buf: WriteBuf<'a>) -> Self {
        self.with_parent(Some(self.parent_view().unwrap().with_buf(buf)))
    }

    proof fn lemma_with_buf(self) {
        self.parent_view().unwrap().lemma_with_buf();
        self.lemma_frame();
    }

    proof fn lemma_resolved(self) {
        self.lemma_parent_resolved();
        self.parent_view().unwrap().lemma_resolved();
    }

    fn get_buf_mut(&mut self) -> (r: &mut WriteBuf<'a>) {
        if let Some(parent) = self.parent.as_mut() {
            parent.get_buf_mut()
        } else {
            vstd::pervasive::unreached()
        }
    }
}

impl<'a, P> Encoder<'a> for PermissionsEncoder<P> where P: Encoder<'a> + Default {
    open spec fn limit_view(self) -> usize {
        self.parent_view().unwrap().limit_view()
    }

    open spec fn with_limit(self, limit: usize) -> Self {
        self.with_parent(Some(self.parent_view().unwrap().with_limit(limit)))
    }

    proof fn lemma_with_limit(self) {
        self.parent_view().unwrap().lemma_with_buf();
        self.parent_view().unwrap().lemma_with_limit();
        self.lemma_frame();
    }

    fn get_limit(&self) -> (r: usize) {
        self.parent.as_ref().expect("parent missing").get_limit()
    }

    fn set_limit(&mut self, limit: usize) {
        self.parent.as_mut().expect("parent missing").set_limit(limit);
    }
}

impl<'a, P> PermissionsEncoder<P> where P: Encoder<'a> + Default {
    /// This codec stands where `pre` stood, but for the limit, which is at
    /// `limit` (what the buffer holds may differ).
    pub open spec fn placed_as(self, pre: Self, limit: usize) -> bool {
        &&& self.buf_ok()
        &&& self.limit_view() == limit
        &&& self.count_view() == pre.count_view()
        &&& self.index_view() == pre.index_view()
        &&& self.offset_view() == pre.offset_view()
        &&& self.initial_limit_view() == pre.initial_limit_view()
    }

    /// The bytes that one element's fixed fields take.
    pub open spec fn block_length_view() -> u16 {
        0
    }

    /// Where the walk over the elements stands.
    pub open spec fn cursor(self) -> Cursor {
        Cursor {
            count: self.count_view() as u32,
            index: self.index_view(),
            offset: self.offset_view(),
            block_length: Self::block_length_view() as usize,
            limit: self.limit_view(),
        }
    }

    /// What `wrap` makes of `parent` and `count`: the size prefix is
    /// written at the parent's limit, the limit stands behind it, and the
    /// codec stands before the first element.
    pub open spec fn opened(self, parent: P, count: u32) -> bool {
        &&& self.count_view() == count
        &&& self.index_view() == usize::MAX
        &&& self.offset_view() == usize::MAX
        &&& self.initial_limit_view() == parent.limit_view()
        &&& self.buf_ok()
        &&& self.limit_view() == parent.limit_view() + 6
        &&& self.buf()@ == write_group_size(
            parent.buf()@,
            parent.limit_view() as int,
            Self::block_length_view(),
            count,
        )
        &&& self.buf()@.len() == parent.buf()@.len()
        &&& self.parent_view().unwrap() == parent.with_limit(
            (parent.limit_view() + 6) as usize,
        ).with_buf(self.buf())
    }

    /// Opens the group at the parent's limit for `count` elements.
    pub fn wrap(self, parent: P, count: u32) -> (r: Self)
        requires
            parent.buf_ok(),
            parent.limit_view() + 6 <= parent.buf()@.len(),
        ensures
            r.opened(parent, count),
            final(r.buf().target())@ == final(parent.buf().target())@,
    {
        let mut parent = parent;
        proof {
            parent.buf().lemma_len();
            parent.lemma_with_limit();
            parent.lemma_with_buf();
        }
        let initial_limit = parent.get_limit();
        parent.set_limit(initial_limit + 6);
        proof {
            parent.lemma_with_buf();
            parent.lemma_with_limit();
        }
        parent.get_buf_mut().put_u16_at(initial_limit, Self::block_length());
        proof {
            parent.lemma_with_buf();
            parent.lemma_with_limit();
        }
        parent.get_buf_mut().put_u32_at(initial_limit + 2, count);
        proof {
            self.lemma_frame();
        }
        let mut this = self;
        this.parent = Some(parent);
        this.count = count;
        this.index = usize::MAX;
        this.offset = usize::MAX;
        this.initial_limit = initial_limit;
        this
    }

    /// The bytes that one element's fixed fields take.
    pub fn block_length() -> (r: u16)
        ensures
            r == Self::block_length_view(),
    {
        0
    }

    /// Hands the parent back; after that this codec reaches no buffer.
    pub fn parent(&mut self) -> (r: SbeResult<P>)
        ensures
            r == match old(self).parent_view() {
                Some(p) => Ok::<P, SbeErr>(p),
                None => Err::<P, SbeErr>(SbeErr::ParentNotSet),
            },
            *final(self) == old(self).with_parent(None),
    {
        self.parent.take().ok_or(SbeErr::ParentNotSet)
    }

    /// An element is left to move to, and the parent is there to move in.
    pub open spec fn can_advance(self) -> bool {
        has_next(self.cursor()) && self.parent_view() is Some
    }

    /// What `advance` makes of `pre` where it moves: the cursor has taken
    /// one step, and all else is as it was.
    pub open spec fn advanced(self, pre: Self) -> bool {
        &&& self.cursor() == step(pre.cursor())
        &&& self.buf_ok()
        &&& self.buf() == pre.buf()
        &&& self.initial_limit_view() == pre.initial_limit_view()
        &&& self == pre.with_limit(step(pre.cursor()).limit).with_position(
            step(pre.cursor()).index,
            step(pre.cursor()).offset,
        )
    }

    /// Moves to the next element, if one is left: it begins at the limit,
    /// and the limit moves behind its fixed fields.
    pub fn advance(&mut self) -> (r: SbeResult<Option<usize>>)
        requires
            old(self).can_advance() ==> old(self).buf_ok() && old(self).limit_view() + old(
                self,
            ).cursor().block_length <= usize::MAX,
        ensures
            r == advance_result(old(self).cursor(), old(self).parent_view() is Some),
            old(self).can_advance() ==> final(self).advanced(*old(self)),
            !old(self).can_advance() ==> *final(self) == *old(self),
    {
        proof {
            self.lemma_frame();
            if self.parent_view() is Some {
                self.with_limit(step(self.cursor()).limit).lemma_frame();
            }
        }
        let index = self.index.wrapping_add(1);
        if index >= self.count as usize {
            return Ok(None);
        }
        if let Some(parent) = self.parent.as_mut() {
            proof {
                parent.lemma_with_limit();
            }
            self.offset = parent.get_limit();
            parent.set_limit(self.offset + Self::block_length() as usize);
            self.index = index;
            Ok(Some(index))
        } else {
            Err(SbeErr::ParentNotSet)
        }
    }

    /// `permission`: text behind a `u8` length, appended at the limit.
    /// A length that the prefix cannot hold is cut to its low bits.
    pub fn permission(&mut self, value: &str)
        requires
            old(self).buf_ok(),
            old(self).limit_view() + 1 + value.spec_bytes().len() <= old(self).buf()@.len(),
        ensures
            final(self).buf()@ == write_var_u8(
                old(self).buf()@,
                old(self).limit_view() as int,
                value.spec_bytes(),
            ),
            final(self).buf()@.len() == old(self).buf()@.len(),
            final(final(self).buf().target())@ == final(old(self).buf().target())@,
            final(self).placed_as(
                *old(self),
                (old(self).limit_view() + 1 + value.spec_bytes().len()) as usize,
            ),
            *final(self) == old(self).with_limit(
                (old(self).limit_view() + 1 + value.spec_bytes().len()) as usize,
            ).with_buf(final(self).buf()),
    {
        proof {
            self.buf().lemma_len();
            self.lemma_with_buf();
            self.lemma_with_limit();
            self.lemma_frame();
        }
        let limit = self.get_limit();
        let data_length = value.len();
        self.set_limit(limit + 1 + data_length);
        proof {
            self.lemma_with_buf();
            self.lemma_with_limit();
            self.lemma_frame();
        }
        self.get_buf_mut().put_u8_at(limit, #[verifier::truncate] (data_length as u8));
        proof {
            self.lemma_with_buf();
            self.lemma_with_limit();
            self.lemma_frame();
        }
        self.get_buf_mut().put_slice_at(limit + 1, value.as_bytes());
    }
}

#[derive(Debug)]
pub struct SorsEncoder<P> {
    parent: Option<P>,
    count: u32,
    index: usize,
    offset: usize,
    initial_limit: usize,
}

impl<P> Default for SorsEncoder<P> {
    fn default() -> (r: Self)
        ensures
            r.parent_view() is None,
            r.count_view() == 0,
            r.index_view() == 0,
            r.offset_view() == 0,
            r.initial_limit_view() == 0,
    {
        Self { parent: None, count: 0, index: 0, offset: 0, initial_limit: 0 }
    }
}

impl<P> SorsEncoder<P> {
    /// Where nothing writes through this codec any more, nothing writes
    /// through its parent.
    proof fn lemma_parent_resolved(self)
        requires
            has_resolved(self),
            self.parent is Some,
        ensures
            has_resolved(self.parent->0),
    {
    }

    pub closed spec fn parent_view(self) -> Option<P> {
        self.parent
    }

    pub closed spec fn count_view(self) -> u32 {
        self.count
    }

    pub closed spec fn index_view(self) -> usize {
        self.index
    }

    pub closed spec fn offset_view(self) -> usize {
        self.offset
    }

    pub closed spec fn initial_limit_view(self) -> usize {
        self.initial_limit
    }

    /// This codec over another parent, all else kept.
    pub closed spec fn with_parent(self, parent: Option<P>) -> Self {
        Self { parent, ..self }
    }

    /// This codec at another element, all else kept.
    pub closed spec fn with_position(self, index: usize, offset: usize) -> Self {
        Self { index, offset, ..self }
    }

    /// What the exchanges above keep and what they put.
    pub proof fn lemma_frame(self)
        ensures
            forall|parent: Option<P>|
                #![trigger self.with_parent(parent)]
                {
                    let w = self.with_parent(parent);
                    &&& w.parent_view() == parent
                    &&& w.count_view() == self.count_view()
                    &&& w.index_view() == self.index_view()
                    &&& w.offset_view() == self.offset_view()
                    &&& w.initial_limit_view() == self.initial_limit_view()
                },
            forall|first: Option<P>, second: Option<P>|
                #![trigger self.with_parent(first).with_parent(second)]
                self.with_parent(first).with_parent(second) == self.with_parent(second),
            self.with_parent(self.parent_view()) == self,
            forall|index: usize, offset: usize|
                #![trigger self.with_position(index, offset)]
                {
                    let w = self.with_position(index, offset);
                    &&& w.parent_view() == self.parent_view()
                    &&& w.index_view() == index
                    &&& w.offset_view() == offset
                    &&& w.count_view() == self.count_view()
                    &&& w.initial_limit_view() == self.initial_limit_view()
                },
            forall|parent: Option<P>, index: usize, offset: usize|
                #![trigger self.with_parent(parent).with_position(index, offset)]
                self.with_parent(parent).with_position(index, offset) == self.with_position(
                    index,
                    offset,
                ).with_parent(parent),
    {
    }
}

impl<'a, P> Writer<'a> for SorsEncoder<P> where P: Writer<'a> + Default {
    open spec fn buf_ok(&self) -> bool {
        self.parent_view() is Some && self.parent_view().unwrap().buf_ok()
    }

    open spec fn buf(self) -> WriteBuf<'a> {
        self.parent_view().unwrap().buf()
    }

    open spec fn with_buf(self, buf: WriteBuf<'a>) -> Self {
        self.with_parent(Some(self.parent_view().unwrap().with_buf(buf)))
    }

    proof fn lemma_with_buf(self) {
        self.parent_view().unwrap().lemma_with_buf();
        self.lemma_frame();
    }

    proof fn lemma_resolved(self) {
        self.lemma_parent_resolved();
        self.parent_view().unwrap().lemma_resolved();
    }

    fn get_buf_mut(&mut self) -> (r: &mut WriteBuf<'a>) {
        if let Some(parent) = self.parent.as_mut() {
            parent.get_buf_mut()
        } else {
            vstd::pervasive::unreached()
        }
    }
}

impl<'a, P> Encoder<'a> for SorsEncoder<P> where P: Encoder<'a> + Default {
    open spec fn limit_view(self) -> usize {
        self.parent_view().unwrap().limit_view()
    }

    open spec fn with_limit(self, limit: usize) -> Self {
        self.with_parent(Some(self.parent_view().unwrap().with_limit(limit)))
    }

    proof fn lemma_with_limit(self) {
        self.parent_view().unwrap().lemma_with_buf();
        self.parent_view().unwrap().lemma_with_limit();
        self.lemma_frame();
    }

    fn get_limit(&self) -> (r: usize) {
        self.parent.as_ref().expect("parent missing").get_limit()
    }

    fn set_limit(&mut self, limit: usize) {
        self.parent.as_mut().expect("parent missing").set_limit(limit);
    }
}

impl<'a, P> SorsEncoder<P> where P: Encoder<'a> + Default {
    /// This codec stands where `pre` stood, but for the limit, which is at
    /// `limit` (what the buffer holds may differ).
    pub open spec fn placed_as(self, pre: Self, limit: usize) -> bool {
        &&& self.buf_ok()
        &&& self.limit_view() == limit
        &&& self.count_view() == pre.count_view()
        &&& self.index_view() == pre.index_view()
        &&& self.offset_view() == pre.offset_view()
        &&& self.initial_limit_view() == pre.initial_limit_view()
    }

    /// The bytes that one element's fixed fields take.
    pub open spec fn block_length_view() -> u16 {
        0
    }

    /// Where the walk over the elements stands.
    pub open spec fn cursor(self) -> Cursor {
        Cursor {
            count: self.count_view() as u32,
            index: self.index_view(),
            offset: self.offset_view(),
            block_length: Self::block_length_view() as usize,
            limit: self.limit_view(),
        }
    }

    /// What `wrap` makes of `parent` and `count`: the size prefix is
    /// written at the parent's limit, the limit stands behind it, and the
    /// codec stands before the first element.
    pub open spec fn opened(self, parent: P, count: u32) -> bool {
        &&& self.count_view() == count
        &&& self.index_view() == usize::MAX
        &&& self.offset_view() == usize::MAX
        &&& self.initial_limit_view() == parent.limit_view()
        &&& self.buf_ok()
        &&& self.limit_view() == parent.limit_view() + 6
        &&& self.buf()@ == write_group_size(
            parent.buf()@,
            parent.limit_view() as int,
            Self::block_length_view(),
            count,
        )
        &&& self.buf()@.len() == parent.buf()@.len()
        &&& self.parent_view().unwrap() == parent.with_limit(
            (parent.limit_view() + 6) as usize,
        ).with_buf(self.buf())
    }

    /// Opens the group at the parent's limit for `count` elements.
    pub fn wrap(self, parent: P, count: u32) -> (r: Self)
        requires
            parent.buf_ok(),
            parent.limit_view() + 6 <= parent.buf()@.len(),
        ensures
            r.opened(parent, count),
            final(r.buf().target())@ == final(parent.buf().target())@,
    {
        let mut parent = parent;
        proof {
            parent.buf().lemma_len();
            parent.lemma_with_limit();
            parent.lemma_with_buf();
        }
        let initial_limit = parent.get_limit();
        parent.set_limit(initial_limit + 6);
        proof {
            parent.lemma_with_buf();
            parent.lemma_with_limit();
        }
        parent.get_buf_mut().put_u16_at(initial_limit, Self::block_length());
        proof {
            parent.lemma_with_buf();
            parent.lemma_with_limit();
        }
        parent.get_buf_mut().put_u32_at(initial_limit + 2, count);
        proof {
            self.lemma_frame();
        }
        let mut this = self;
        this.parent = Some(parent);
        this.count = count;
        this.index = usize::MAX;
        this.offset = usize::MAX;
        this.initial_limit = initial_limit;
        this
    }

    /// The bytes that one element's fixed fields take.
    pub fn block_length() -> (r: u16)
        ensures
            r == Self::block_length_view(),
    {
        0
    }

    /// Hands the parent back; after that this codec reaches no buffer.
    pub fn parent(&mut self) -> (r: SbeResult<P>)
        ensures
            r == match old(self).parent_view() {
                Some(p) => Ok::<P, SbeErr>(p),
                None => Err::<P, SbeErr>(SbeErr::ParentNotSet),
            },
            *final(self) == old(self).with_parent(None),
    {
        self.parent.take().ok_or(SbeErr::ParentNotSet)
    }

    /// An element is left to move to, and the parent is there to move in.
    pub open spec fn can_advance(self) -> bool {
        has_next(self.cursor()) && self.parent_view() is Some
    }

    /// What `advance` makes of `pre` where it moves: the cursor has taken
    /// one step, and all else is as it was.
    pub open spec fn advanced(self, pre: Self) -> bool {
        &&& self.cursor() == step(pre.cursor())
        &&& self.buf_ok()
        &&& self.buf() == pre.buf()
        &&& self.initial_limit_view() == pre.initial_limit_view()
        &&& self == pre.with_limit(step(pre.cursor()).limit).with_position(
            step(pre.cursor()).index,
            step(pre.cursor()).offset,
        )
    }

    /// Moves to the next element, if one is left: it begins at the limit,
    /// and the limit moves behind its fixed fields.
    pub fn advance(&mut self) -> (r: SbeResult<Option<usize>>)
        requires
            old(self).can_advance() ==> old(self).buf_ok() && old(self).limit_view() + old(
                self,
            ).cursor().block_length <= usize::MAX,
        ensures
            r == advance_result(old(self).cursor(), old(self).parent_view() is Some),
            old(self).can_advance() ==> final(self).advanced(*old(self)),
            !old(self).can_advance() ==> *final(self) == *old(self),
    {
        proof {
            self.lemma_frame();
            if self.parent_view() is Some {
                self.with_limit(step(self.cursor()).limit).lemma_frame();
            }
        }
        let index = self.index.wrapping_add(1);
        if index >= self.count as usize {
            return Ok(None);
        }
        if let Some(parent) = self.parent.as_mut() {
            proof {
                parent.lemma_with_limit();
            }
            self.offset = parent.get_limit();
            parent.set_limit(self.offset + Self::block_length() as usize);
            self.index = index;
            Ok(Some(index))
        } else {
            Err(SbeErr::ParentNotSet)
        }
    }

    /// Opens the group `sorSymbols` for `count` elements: writes its size
    /// prefix at the limit and moves the limit behind it.
    pub fn sor_symbols_encoder(
        self,
        count: u32,
        sor_symbols_encoder: SorSymbolsEncoder<Self>,
    ) -> (r: SorSymbolsEncoder<Self>)
        requires
            self.buf_ok(),
            self.limit_view() + 6 <= self.buf()@.len(),
        ensures
            r.opened(self, count),
            final(r.buf().target())@ == final(self.buf().target())@,
    {
        sor_symbols_encoder.wrap(self, count)
    }

    /// `baseAsset`: text behind a `u8` length, appended at the limit.
    /// A length that the prefix cannot hold is cut to its low bits.
    pub fn base_asset(&mut self, value: &str)
        requires
            old(self).buf_ok(),
            old(self).limit_view() + 1 + value.spec_bytes().len() <= old(self).buf()@.len(),
        ensures
            final(self).buf()@ == write_var_u8(
                old(self).buf()@,
                old(self).limit_view() as int,
                value.spec_bytes(),
            ),
            final(self).buf()@.len() == old(self).buf()@.len(),
            final(final(self).buf().target())@ == final(old(self).buf().target())@,
            final(self).placed_as(
                *old(self),
                (old(self).limit_view() + 1 + value.spec_bytes().len()) as usize,
            ),
            *final(self) == old(self).with_limit(
                (old(self).limit_view() + 1 + value.spec_bytes().len()) as usize,
            ).with_buf(final(self).buf()),
    {
        proof {
            self.buf().lemma_len();
            self.lemma_with_buf();
            self.lemma_with_limit();
            self.lemma_frame();
        }
        let limit = self.get_limit();
        let data_length = value.len();
        self.set_limit(limit + 1 + data_length);
        proof {
            self.lemma_with_buf();
            self.lemma_with_limit();
            self.lemma_frame();
        }
        self.get_buf_mut().put_u8_at(limit, #[verifier::truncate] (data_length as u8));
        proof {
            self.lemma_with_buf();
            self.lemma_with_limit();
            self.lemma_frame();
        }
        self.get_buf_mut().put_slice_at(limit + 1, value.as_bytes());
    }
}

#[derive(Debug)]
pub struct SorSymbolsEncoder<P> {
    parent: Option<P>,
    count: u32,
    index: usize,
    offset: usize,
    initial_limit: usize,
}

impl<P> Default for SorSymbolsEncoder<P> {
    fn default() -> (r: Self)
        ensures
            r.parent_view() is None,
            r.count_view() == 0,
            r.index_view() == 0,
            r.offset_view() == 0,
            r.initial_limit_view() == 0,
    {
        Self { parent: None, count: 0, index: 0, offset: 0, initial_limit: 0 }
    }
}

impl<P> SorSymbolsEncoder<P> {
    /// Where nothing writes through this codec any more, nothing writes
    /// through its parent.
    proof fn lemma_parent_resolved(self)
        requires
            has_resolved(self),
            self.parent is Some,
        ensures
            has_resolved(self.parent->0),
    {
    }

    pub closed spec fn parent_view(self) -> Option<P> {
        self.parent
    }

    pub closed spec fn count_view(self) -> u32 {
        self.count
    }

    pub closed spec fn index_view(self) -> usize {
        self.index
    }

    pub closed spec fn offset_view(self) -> usize {
        self.offset
    }

    pub closed spec fn initial_limit_view(self) -> usize {
        self.initial_limit
    }

    /// This codec over another parent, all else kept.
    pub closed spec fn with_parent(self, parent: Option<P>) -> Self {
        Self { parent, ..self }
    }

    /// This codec at another element, all else kept.
    pub closed spec fn with_position(self, index: usize, offset: usize) -> Self {
        Self { index, offset, ..self }
    }

    /// What the exchanges above keep and what they put.
    pub proof fn lemma_frame(self)
        ensures
            forall|parent: Option<P>|
                #![trigger self.with_parent(parent)]
                {
                    let w = self.with_parent(parent);
                    &&& w.parent_view() == parent
                    &&& w.count_view() == self.count_view()
                    &&& w.index_view() == self.index_view()
                    &&& w.offset_view() == self.offset_view()
                    &&& w.initial_limit_view() == self.initial_limit_view()
                },
            forall|first: Option<P>, second: Option<P>|
                #![trigger self.with_parent(first).with_parent(second)]
                self.with_parent(first).with_parent(second) == self.with_parent(second),
            self.with_parent(self.parent_view()) == self,
            forall|index: usize, offset: usize|
                #![trigger self.with_position(index, offset)]
                {
                    let w = self.with_position(index, offset);
                    &&& w.parent_view() == self.parent_view()
                    &&& w.index_view() == index
                    &&& w.offset_view() == offset
                    &&& w.count_view() == self.count_view()
                    &&& w.initial_limit_view() == self.initial_limit_view()
                },
            forall|parent: Option<P>, index: usize, offset: usize|
                #![trigger self.with_parent(parent).with_position(index, offset)]
                self.with_parent(parent).with_position(index, offset) == self.with_position(
                    index,
                    offset,
                ).with_parent(parent),
    {
    }
}

impl<'a, P> Writer<'a> for SorSymbolsEncoder<P> where P: Writer<'a> + Default {
    open spec fn buf_ok(&self) -> bool {
        self.parent_view() is Some && self.parent_view().unwrap().buf_ok()
    }

    open spec fn buf(self) -> WriteBuf<'a> {
        self.parent_view().unwrap().buf()
    }

    open spec fn with_buf(self, buf: WriteBuf<'a>) -> Self {
        self.with_parent(Some(self.parent_view().unwrap().with_buf(buf)))
    }

    proof fn lemma_with_buf(self) {
        self.parent_view().unwrap().lemma_with_buf();
        self.lemma_frame();
    }

    proof fn lemma_resolved(self) {
        self.lemma_parent_resolved();
        self.parent_view().unwrap().lemma_resolved();
    }

    fn get_buf_mut(&mut self) -> (r: &mut WriteBuf<'a>) {
        if let Some(parent) = self.parent.as_mut() {
            parent.get_buf_mut()
        } else {
            vstd::pervasive::unreached()
        }
    }
}

impl<'a, P> Encoder<'a> for SorSymbolsEncoder<P> where P: Encoder<'a> + Default {
    open spec fn limit_view(self) -> usize {
        self.parent_view().unwrap().limit_view()
    }

    open spec fn with_limit(self, limit: usize) -> Self {
        self.with_parent(Some(self.parent_view().unwrap().with_limit(limit)))
    }

    proof fn lemma_with_limit(self) {
        self.parent_view().unwrap().lemma_with_buf();
        self.parent_view().unwrap().lemma_with_limit();
        self.lemma_frame();
    }

    fn get_limit(&self) -> (r: usize) {
        self.parent.as_ref().expect("parent missing").get_limit()
    }

    fn set_limit(&mut self, limit: usize) {
        self.parent.as_mut().expect("parent missing").set_limit(limit);
    }
}

impl<'a, P> SorSymbolsEncoder<P> where P: Encoder<'a> + Default {
    /// This codec stands where `pre` stood, but for the limit, which is at
    /// `limit` (what the buffer holds may differ).
    pub open spec fn placed_as(self, pre: Self, limit: usize) -> bool {
        &&& self.buf_ok()
        &&& self.limit_view() == limit
        &&& self.count_view() == pre.count_view()
        &&& self.index_view() == pre.index_view()
        &&& self.offset_view() == pre.offset_view()
        &&& self.initial_limit_view() == pre.initial_limit_view()
    }

    /// The bytes that one element's fixed fields take.
    pub open spec fn block_length_view() -> u16 {
        0
    }

    /// Where the walk over the elements stands.
    pub open spec fn cursor(self) -> Cursor {
        Cursor {
            count: self.count_view() as u32,
            index: self.index_view(),
            offset: self.offset_view(),
            block_length: Self::block_length_view() as usize,
            limit: self.limit_view(),
        }
    }

    /// What `wrap` makes of `parent` and `count`: the size prefix is
    /// written at the parent's limit, the limit stands behind it, and the
    /// codec stands before the first element.
    pub open spec fn opened(self, parent: P, count: u32) -> bool {
        &&& self.count_view() == count
        &&& self.index_view() == usize::MAX
        &&& self.offset_view() == usize::MAX
        &&& self.initial_limit_view() == parent.limit_view()
        &&& self.buf_ok()
        &&& self.limit_view() == parent.limit_view() + 6
        &&& self.buf()@ == write_group_size(
            parent.buf()@,
            parent.limit_view() as int,
            Self::block_length_view(),
            count,
        )
        &&& self.buf()@.len() == parent.buf()@.len()
        &&& self.parent_view().unwrap() == parent.with_limit(
            (parent.limit_view() + 6) as usize,
        ).with_buf(self.buf())
    }

    /// Opens the group at the parent's limit for `count` elements.
    pub fn wrap(self, parent: P, count: u32) -> (r: Self)
        requires
            parent.buf_ok(),
            parent.limit_view() + 6 <= parent.buf()@.len(),
        ensures
            r.opened(parent, count),
            final(r.buf().target())@ == final(parent.buf().target())@,
    {
        let mut parent = parent;
        proof {
            parent.buf().lemma_len();
            parent.lemma_with_limit();
            parent.lemma_with_buf();
        }
        let initial_limit = parent.get_limit();
        parent.set_limit(initial_limit + 6);
        proof {
            parent.lemma_with_buf();
            parent.lemma_with_limit();
        }
        parent.get_buf_mut().put_u16_at(initial_limit, Self::block_length());
        proof {
            parent.lemma_with_buf();
            parent.lemma_with_limit();
        }
        parent.get_buf_mut().put_u32_at(initial_limit + 2, count);
        proof {
            self.lemma_frame();
        }
        let mut this = self;
        this.parent = Some(parent);
        this.count = count;
        this.index = usize::MAX;
        this.offset = usize::MAX;
        this.initial_limit = initial_limit;
        this
    }

    /// The bytes that one element's fixed fields take.
    pub fn block_length() -> (r: u16)
        ensures
            r == Self::block_length_view(),
    {
        0
    }

    /// Hands the parent back; after that this codec reaches no buffer.
    pub fn parent(&mut self) -> (r: SbeResult<P>)
        ensures
            r == match old(self).parent_view() {
                Some(p) => Ok::<P, SbeErr>(p),
                None => Err::<P, SbeErr>(SbeErr::ParentNotSet),
            },
            *final(self) == old(self).with_parent(None),
    {
        self.parent.take().ok_or(SbeErr::ParentNotSet)
    }

    /// An element is left to move to, and the parent is there to move in.
    pub open spec fn can_advance(self) -> bool {
        has_next(self.cursor()) && self.parent_view() is Some
    }

    /// What `advance` makes of `pre` where it moves: the cursor has taken
    /// one step, and all else is as it was.
    pub open spec fn advanced(self, pre: Self) -> bool {
        &&& self.cursor() == step(pre.cursor())
        &&& self.buf_ok()
        &&& self.buf() == pre.buf()
        &&& self.initial_limit_view() == pre.initial_limit_view()
        &&& self == pre.with_limit(step(pre.cursor()).limit).with_position(
            step(pre.cursor()).index,
            step(pre.cursor()).offset,
        )
    }

    /// Moves to the next element, if one is left: it begins at the limit,
    /// and the limit moves behind its fixed fields.
    pub fn advance(&mut self) -> (r: SbeResult<Option<usize>>)
        requires
            old(self).can_advance() ==> old(self).buf_ok() && old(self).limit_view() + old(
                self,
            ).cursor().block_length <= usize::MAX,
        ensures
            r == advance_result(old(self).cursor(), old(self).parent_view() is Some),
            old(self).can_advance() ==> final(self).advanced(*old(self)),
            !old(self).can_advance() ==> *final(self) == *old(self),
    {
        proof {
            self.lemma_frame();
            if self.parent_view() is Some {
                self.with_limit(step(self.cursor()).limit).lemma_frame();
            }
        }
        let index = self.index.wrapping_add(1);
        if index >= self.count as usize {
            return Ok(None);
        }
        if let Some(parent) = self.parent.as_mut() {
            proof {
                parent.lemma_with_limit();
            }
            self.offset = parent.get_limit();
            parent.set_limit(self.offset + Self::block_length() as usize);
            self.index = index;
            Ok(Some(index))
        } else {
            Err(SbeErr::ParentNotSet)
        }
    }

    /// `symbol`: text behind a `u8` length, appended at the limit.
    /// A length that the prefix cannot hold is cut to its low bits.
    pub fn symbol(&mut self, value: &str)
        requires
            old(self).buf_ok(),
            old(self).limit_view() + 1 + value.spec_bytes().len() <= old(self).buf()@.len(),
        ensures
            final(self).buf()@ == write_var_u8(
                old(self).buf()@,
                old(self).limit_view() as int,
                value.spec_bytes(),
            ),
            final(self).buf()@.len() == old(self).buf()@.len(),
            final(final(self).buf().target())@ == final(old(self).buf().target())@,
            final(self).placed_as(
                *old(self),
                (old(self).limit_view() + 1 + value.spec_bytes().len()) as usize,
            ),
            *final(self) == old(self).with_limit(
                (old(self).limit_view() + 1 + value.spec_bytes().len()) as usize,
            ).with_buf(final(self).buf()),
    {
        proof {
            self.buf().lemma_len();
            self.lemma_with_buf();
            self.lemma_with_limit();
            self.lemma_frame();
        }
        let limit = self.get_limit();
        let data_length = value.len();
        self.set_limit(limit + 1 + data_length);
        proof {
            self.lemma_with_buf();
            self.lemma_with_limit();
            self.lemma_frame();
        }
        self.get_buf_mut().put_u8_at(limit, #[verifier::truncate] (data_length as u8));
        proof {
            self.lemma_with_buf();
            self.lemma_with_limit();
            self.lemma_frame();
        }
        self.get_buf_mut().put_slice_at(limit + 1, value.as_bytes());
    }
}

#[derive(Clone, Copy, Debug)]
pub struct ExchangeInfoResponseDecoder<'a> {
    buf: ReadBuf<'a>,
    initial_offset: usize,
    offset: usize,
    limit: usize,
    pub acting_block_length: u16,
    pub acting_version: u16,
}

impl<'a> Default for ExchangeInfoResponseDecoder<'a> {
    fn default() -> (r: Self)
        ensures
            r.buf()@.len() == 0,
            r.initial_offset_view() == 0,
            r.offset_view() == 0,
            r.limit_view() == 0,
            r.acting_block_length_view() == 0,
            r.acting_version_view() == 0,
    {
        Self {
            buf: ReadBuf::default(),
            initial_offset: 0,
            offset: 0,
            limit: 0,
            acting_block_length: 0,
            acting_version: 0,
        }
    }
}

impl<'a> Reader<'a> for ExchangeInfoResponseDecoder<'a> {
    open spec fn buf_ok(&self) -> bool {
        true
    }

    closed spec fn buf(self) -> ReadBuf<'a> {
        self.buf
    }

    fn get_buf(&self) -> (r: &ReadBuf<'a>) {
        &self.buf
    }
}

impl<'a> Decoder<'a> for ExchangeInfoResponseDecoder<'a> {
    closed spec fn limit_view(self) -> usize {
        self.limit
    }

    closed spec fn with_limit(self, limit: usize) -> Self {
        Self { limit, ..self }
    }

    proof fn lemma_with_limit(self) {
    }

    fn get_limit(&self) -> (r: usize) {
        self.limit
    }

    fn set_limit(&mut self, limit: usize) {
        self.limit = limit;
    }
}

impl<'a> ExchangeInfoResponseDecoder<'a> {
    pub closed spec fn initial_offset_view(self) -> usize {
        self.initial_offset
    }

    /// Where the fixed block begins.
    pub closed spec fn offset_view(self) -> usize {
        self.offset
    }

    /// The block length that the sender declared.
    pub closed spec fn acting_block_length_view(self) -> u16 {
        self.acting_block_length
    }

    /// The schema version that the sender declared.
    pub closed spec fn acting_version_view(self) -> u16 {
        self.acting_version
    }

    /// This decoder stands where `pre` stood, but for the limit, which is
    /// at `limit`.
    pub open spec fn placed_as(self, pre: Self, limit: usize) -> bool {
        &&& self.limit_view() == limit
        &&& self.buf() == pre.buf()
        &&& self.offset_view() == pre.offset_view()
        &&& self.initial_offset_view() == pre.initial_offset_view()
        &&& self.acting_block_length_view() == pre.acting_block_length_view()
        &&& self.acting_version_view() == pre.acting_version_view()
    }

    /// Moving the limit leaves all else alone.
    pub proof fn lemma_frame(self)
        ensures
            forall|limit: usize|
                #![trigger self.with_limit(limit)]
                {
                    let w = self.with_limit(limit);
                    &&& w.offset_view() == self.offset_view()
                    &&& w.initial_offset_view() == self.initial_offset_view()
                    &&& w.acting_block_length_view() == self.acting_block_length_view()
                    &&& w.acting_version_view() == self.acting_version_view()
                },
    {
    }

    /// Places the decoder over `buf` with its fixed block at `offset`; the
    /// limit stands behind the block, whose length the sender declared.
    pub fn wrap(
        self,
        buf: ReadBuf<'a>,
        offset: usize,
        acting_block_length: u16,
        acting_version: u16,
    ) -> (r: Self)
        requires
            offset + acting_block_length <= usize::MAX,
        ensures
            r.buf() == buf,
            r.initial_offset_view() == offset,
            r.offset_view() == offset,
            r.limit_view() == offset + acting_block_length,
            r.acting_block_length_view() == acting_block_length,
            r.acting_version_view() == acting_version,
    {
        let limit = offset + acting_block_length as usize;
        let mut this = self;
        this.buf = buf;
        this.initial_offset = offset;
        this.offset = offset;
        this.limit = limit;
        this.acting_block_length = acting_block_length;
        this.acting_version = acting_version;
        this
    }

    /// The bytes from the start of the block to the limit.
    pub fn encoded_length(&self) -> (r: usize)
        requires
            self.offset_view() <= self.limit_view(),
        ensures
            r == self.limit_view() - self.offset_view(),
    {
        self.limit - self.offset
    }

    /// The block length that the sender declared.
    pub fn acting_block_length(&self) -> (r: u16)
        ensures
            r == self.acting_block_length_view(),
    {
        self.acting_block_length
    }

    /// The schema version that the sender declared.
    pub fn acting_version(&self) -> (r: u16)
        ensures
            r == self.acting_version_view(),
    {
        self.acting_version
    }

    /// Takes over from a header that announces this message: the decoder
    /// stands behind the header, on the header's buffer, with the block
    /// length and version that the header declares.
    pub fn header(self, header: MessageHeaderDecoder<ReadBuf<'a>>) -> (r: Self)
        requires
            header.buf_ok(),
            header.offset_view() + 8 <= header.buf()@.len(),
            read_u16(header.buf()@, header.offset_view() + 2) == SBE_TEMPLATE_ID,
            header.offset_view() + 8 + read_u16(header.buf()@, header.offset_view() as int)
                <= usize::MAX,
        ensures
            r.buf() == header.buf(),
            r.initial_offset_view() == header.offset_view() + 8,
            r.offset_view() == header.offset_view() + 8,
            r.acting_block_length_view() == read_u16(header.buf()@, header.offset_view() as int),
            r.acting_version_view() == read_u16(header.buf()@, header.offset_view() + 6),
            r.limit_view() == header.offset_view() + 8 + r.acting_block_length_view(),
    {
        let mut header = header;
        proof {
            header.buf().lemma_len();
        }
        let acting_block_length = header.block_length();
        let acting_version = header.version();
        let offset = header.offset() + crate::message_header_codec::ENCODED_LENGTH;
        self.wrap(header.parent().unwrap(), offset, acting_block_length, acting_version)
    }

    /// Opens the group `rateLimits`: reads its size prefix at the limit and
    /// moves the limit behind it.
    pub fn rate_limits_decoder(self) -> (r: RateLimitsDecoder<Self>)
        requires
            self.limit_view() + 6 <= self.buf()@.len(),
        ensures
            r.opened(self),
    {
        RateLimitsDecoder::default().wrap(self)
    }

    /// Opens the group `exchangeFilters`: reads its size prefix at the limit and
    /// moves the limit behind it.
    pub fn exchange_filters_decoder(self) -> (r: ExchangeFiltersDecoder<Self>)
        requires
            self.limit_view() + 6 <= self.buf()@.len(),
        ensures
            r.opened(self),
    {
        ExchangeFiltersDecoder::default().wrap(self)
    }

    /// Opens the group `symbols`: reads its size prefix at the limit and
    /// moves the limit behind it.
    pub fn symbols_decoder(self) -> (r: SymbolsDecoder<Self>)
        requires
            self.limit_view() + 6 <= self.buf()@.len(),
        ensures
            r.opened(self),
    {
        SymbolsDecoder::default().wrap(self)
    }

    /// Opens the group `sors`: reads its size prefix at the limit and
    /// moves the limit behind it.
    pub fn sors_decoder(self) -> (r: SorsDecoder<Self>)
        requires
            self.limit_view() + 6 <= self.buf()@.len(),
        ensures
            r.opened(self),
    {
        SorsDecoder::default().wrap(self)
    }
}

#[derive(Debug)]
pub struct RateLimitsDecoder<P> {
    parent: Option<P>,
    block_length: usize,
    count: u32,
    index: usize,
    offset: usize,
}

impl<P> Default for RateLimitsDecoder<P> {
    fn default() -> (r: Self)
        ensures
            r.parent_view() is None,
            r.block_length_view() == 0,
            r.count_view() == 0,
            r.index_view() == 0,
            r.offset_view() == 0,
    {
        Self { parent: None, block_length: 0, count: 0, index: 0, offset: 0 }
    }
}

impl<P> RateLimitsDecoder<P> {
    pub closed spec fn parent_view(self) -> Option<P> {
        self.parent
    }

    pub closed spec fn block_length_view(self) -> usize {
        self.block_length
    }

    pub closed spec fn count_view(self) -> u32 {
        self.count
    }

    pub closed spec fn index_view(self) -> usize {
        self.index
    }

    pub closed spec fn offset_view(self) -> usize {
        self.offset
    }

    /// This codec over another parent, all else kept.
    pub closed spec fn with_parent(self, parent: Option<P>) -> Self {
        Self { parent, ..self }
    }

    /// This codec at another element, all else kept.
    pub closed spec fn with_position(self, index: usize, offset: usize) -> Self {
        Self { index, offset, ..self }
    }

    /// What the exchanges above keep and what they put.
    pub proof fn lemma_frame(self)
        ensures
            forall|parent: Option<P>|
                #![trigger self.with_parent(parent)]
                {
                    let w = self.with_parent(parent);
                    &&& w.parent_view() == parent
                    &&& w.block_length_view() == self.block_length_view()
                    &&& w.count_view() == self.count_view()
                    &&& w.index_view() == self.index_view()
                    &&& w.offset_view() == self.offset_view()
                },
            forall|first: Option<P>, second: Option<P>|
                #![trigger self.with_parent(first).with_parent(second)]
                self.with_parent(first).with_parent(second) == self.with_parent(second),
            self.with_parent(self.parent_view()) == self,
            forall|index: usize, offset: usize|
                #![trigger self.with_position(index, offset)]
                {
                    let w = self.with_position(index, offset);
                    &&& w.parent_view() == self.parent_view()
                    &&& w.index_view() == index
                    &&& w.offset_view() == offset
                    &&& w.block_length_view() == self.block_length_view()
                    &&& w.count_view() == self.count_view()
                },
            forall|parent: Option<P>, index: usize, offset: usize|
                #![trigger self.with_parent(parent).with_position(index, offset)]
                self.with_parent(parent).with_position(index, offset) == self.with_position(
                    index,
                    offset,
                ).with_parent(parent),
    {
    }
}

impl<'a, P> Reader<'a> for RateLimitsDecoder<P> where P: Reader<'a> + Default {
    open spec fn buf_ok(&self) -> bool {
        self.parent_view() is Some && self.parent_view().unwrap().buf_ok()
    }

    open spec fn buf(self) -> ReadBuf<'a> {
        self.parent_view().unwrap().buf()
    }

    fn get_buf(&self) -> (r: &ReadBuf<'a>) {
        self.parent.as_ref().expect("parent missing").get_buf()
    }
}

impl<'a, P> Decoder<'a> for RateLimitsDecoder<P> where P: Decoder<'a> + Default {
    open spec fn limit_view(self) -> usize {
        self.parent_view().unwrap().limit_view()
    }

    open spec fn with_limit(self, limit: usize) -> Self {
        self.with_parent(Some(self.parent_view().unwrap().with_limit(limit)))
    }

    proof fn lemma_with_limit(self) {
        self.parent_view().unwrap().lemma_with_limit();
        self.lemma_frame();
    }

    fn get_limit(&self) -> (r: usize) {
        self.parent.as_ref().expect("parent missing").get_limit()
    }

    fn set_limit(&mut self, limit: usize) {
        self.parent.as_mut().expect("parent missing").set_limit(limit);
    }
}

impl<'a, P> RateLimitsDecoder<P> where P: Decoder<'a> + Default {
    /// This codec stands where `pre` stood, but for the limit, which is at
    /// `limit`.
    pub open spec fn placed_as(self, pre: Self, limit: usize) -> bool {
        &&& self.buf_ok()
        &&& self.limit_view() == limit
        &&& self.block_length_view() == pre.block_length_view()
        &&& self.count_view() == pre.count_view()
        &&& self.index_view() == pre.index_view()
        &&& self.offset_view() == pre.offset_view()
        &&& self.buf() == pre.buf()
    }

    /// Where the walk over the elements stands.
    pub open spec fn cursor(self) -> Cursor {
        Cursor {
            count: self.count_view() as u32,
            index: self.index_view(),
            offset: self.offset_view(),
            block_length: self.block_length_view(),
            limit: self.limit_view(),
        }
    }

    /// What `wrap` makes of `parent`: block length and count are those of
    /// the size prefix at the parent's limit, the limit stands behind the
    /// prefix, and the codec stands before the first element.
    pub open spec fn opened(self, parent: P) -> bool {
        &&& self.block_length_view() == read_u16(parent.buf()@, parent.limit_view() as int)
        &&& self.count_view() == read_u32(parent.buf()@, parent.limit_view() + 2)
        &&& self.index_view() == usize::MAX
        &&& self.offset_view() == 0
        &&& self.buf_ok()
        &&& self.buf() == parent.buf()
        &&& self.limit_view() == parent.limit_view() + 6
        &&& self.parent_view() == Some(parent.with_limit((parent.limit_view() + 6) as usize))
    }

    /// Opens the group at the parent's limit.
    pub fn wrap(self, parent: P) -> (r: Self)
        requires
            parent.buf_ok(),
            parent.limit_view() + 6 <= parent.buf()@.len(),
        ensures
            r.opened(parent),
    {
        let mut parent = parent;
        proof {
            parent.buf().lemma_len();
            parent.lemma_with_limit();
            self.lemma_frame();
        }
        let initial_offset = parent.get_limit();
        let block_length = parent.get_buf().get_u16_at(initial_offset) as usize;
        let count = parent.get_buf().get_u32_at(initial_offset + 2);
        parent.set_limit(initial_offset + 6);
        let mut this = self;
        this.parent = Some(parent);
        this.block_length = block_length;
        this.count = count;
        this.index = usize::MAX;
        this.offset = 0;
        this
    }

    /// Hands the parent back; after that this codec reaches no buffer.
    pub fn parent(&mut self) -> (r: SbeResult<P>)
        ensures
            r == match old(self).parent_view() {
                Some(p) => Ok::<P, SbeErr>(p),
                None => Err::<P, SbeErr>(SbeErr::ParentNotSet),
            },
            *final(self) == old(self).with_parent(None),
    {
        self.parent.take().ok_or(SbeErr::ParentNotSet)
    }

    /// The number of elements that the group declares.
    pub fn count(&self) -> (r: u32)
        ensures
            r == self.count_view(),
    {
        self.count
    }

    /// An element is left to move to, and the parent is there to move in.
    pub open spec fn can_advance(self) -> bool {
        has_next(self.cursor()) && self.parent_view() is Some
    }

    /// What `advance` makes of `pre` where it moves: the cursor has taken
    /// one step, and all else is as it was.
    pub open spec fn advanced(self, pre: Self) -> bool {
        &&& self.cursor() == step(pre.cursor())
        &&& self.buf_ok()
        &&& self.buf() == pre.buf()
        &&& self == pre.with_limit(step(pre.cursor()).limit).with_position(
            step(pre.cursor()).index,
            step(pre.cursor()).offset,
        )
    }

    /// Moves to the next element, if one is left: it begins at the limit,
    /// and the limit moves behind its fixed fields.
    pub fn advance(&mut self) -> (r: SbeResult<Option<usize>>)
        requires
            old(self).can_advance() ==> old(self).buf_ok() && old(self).limit_view() + old(
                self,
            ).cursor().block_length <= usize::MAX,
        ensures
            r == advance_result(old(self).cursor(), old(self).parent_view() is Some),
            old(self).can_advance() ==> final(self).advanced(*old(self)),
            !old(self).can_advance() ==> *final(self) == *old(self),
    {
        proof {
            self.lemma_frame();
            if self.parent_view() is Some {
                self.with_limit(step(self.cursor()).limit).lemma_frame();
            }
        }
        let index = self.index.wrapping_add(1);
        if index >= self.count as usize {
            return Ok(None);
        }
        if let Some(parent) = self.parent.as_mut() {
            proof {
                parent.lemma_with_limit();
            }
            self.offset = parent.get_limit();
            parent.set_limit(self.offset + self.block_length);
            self.index = index;
            Ok(Some(index))
        } else {
            Err(SbeErr::ParentNotSet)
        }
    }

    /// `rateLimitType`: the code of a `RateLimitType` at byte 0 of the block.
    pub fn rate_limit_type(&self) -> (r: RateLimitType)
        requires
            self.buf_ok(),
            self.offset_view() + 1 <= self.buf()@.len(),
        ensures
            r == RateLimitType::of_code(read_u8(self.buf()@, self.offset_view() as int)),
    {
        proof {
            self.buf().lemma_len();
        }
        RateLimitType::from(self.get_buf().get_u8_at(self.offset))
    }

    /// `interval`: the code of a `RateLimitInterval` at byte 1 of the block.
    pub fn interval(&self) -> (r: RateLimitInterval)
        requires
            self.buf_ok(),
            self.offset_view() + 2 <= self.buf()@.len(),
        ensures
            r == RateLimitInterval::of_code(read_u8(self.buf()@, self.offset_view() + 1)),
    {
        proof {
            self.buf().lemma_len();
        }
        RateLimitInterval::from(self.get_buf().get_u8_at(self.offset + 1))
    }

    /// `intervalNum`: a `u8` at byte 2 of the block.
    pub fn interval_num(&self) -> (r: u8)
        requires
            self.buf_ok(),
            self.offset_view() + 3 <= self.buf()@.len(),
        ensures
            r == read_u8(self.buf()@, self.offset_view() + 2),
    {
        proof {
            self.buf().lemma_len();
        }
        self.get_buf().get_u8_at(self.offset + 2)
    }

    /// `rateLimit`: an `i64` at byte 3 of the block.
    pub fn rate_limit(&self) -> (r: i64)
        requires
            self.buf_ok(),
            self.offset_view() + 11 <= self.buf()@.len(),
        ensures
            r == read_i64(self.buf()@, self.offset_view() + 3),
    {
        proof {
            self.buf().lemma_len();
        }
        self.get_buf().get_i64_at(self.offset + 3)
    }
}

#[derive(Debug)]
pub struct ExchangeFiltersDecoder<P> {
    parent: Option<P>,
    block_length: usize,
    count: u32,
    index: usize,
    offset: usize,
}

impl<P> Default for ExchangeFiltersDecoder<P> {
    fn default() -> (r: Self)
        ensures
            r.parent_view() is None,
            r.block_length_view() == 0,
            r.count_view() == 0,
            r.index_view() == 0,
            r.offset_view() == 0,
    {
        Self { parent: None, block_length: 0, count: 0, index: 0, offset: 0 }
    }
}

impl<P> ExchangeFiltersDecoder<P> {
    pub closed spec fn parent_view(self) -> Option<P> {
        self.parent
    }

    pub closed spec fn block_length_view(self) -> usize {
        self.block_length
    }

    pub closed spec fn count_view(self) -> u32 {
        self.count
    }

    pub closed spec fn index_view(self) -> usize {
        self.index
    }

    pub closed spec fn offset_view(self) -> usize {
        self.offset
    }

    /// This codec over another parent, all else kept.
    pub closed spec fn with_parent(self, parent: Option<P>) -> Self {
        Self { parent, ..self }
    }

    /// This codec at another element, all else kept.
    pub closed spec fn with_position(self, index: usize, offset: usize) -> Self {
        Self { index, offset, ..self }
    }

    /// What the exchanges above keep and what they put.
    pub proof fn lemma_frame(self)
        ensures
            forall|parent: Option<P>|
                #![trigger self.with_parent(parent)]
                {
                    let w = self.with_parent(parent);
                    &&& w.parent_view() == parent
                    &&& w.block_length_view() == self.block_length_view()
                    &&& w.count_view() == self.count_view()
                    &&& w.index_view() == self.index_view()
                    &&& w.offset_view() == self.offset_view()
                },
            forall|first: Option<P>, second: Option<P>|
                #![trigger self.with_parent(first).with_parent(second)]
                self.with_parent(first).with_parent(second) == self.with_parent(second),
            self.with_parent(self.parent_view()) == self,
            forall|index: usize, offset: usize|
                #![trigger self.with_position(index, offset)]
                {
                    let w = self.with_position(index, offset);
                    &&& w.parent_view() == self.parent_view()
                    &&& w.index_view() == index
                    &&& w.offset_view() == offset
                    &&& w.block_length_view() == self.block_length_view()
                    &&& w.count_view() == self.count_view()
                },
            forall|parent: Option<P>, index: usize, offset: usize|
                #![trigger self.with_parent(parent).with_position(index, offset)]
                self.with_parent(parent).with_position(index, offset) == self.with_position(
                    index,
                    offset,
                ).with_parent(parent),
    {
    }
}

impl<'a, P> Reader<'a> for ExchangeFiltersDecoder<P> where P: Reader<'a> + Default {
    open spec fn buf_ok(&self) -> bool {
        self.parent_view() is Some && self.parent_view().unwrap().buf_ok()
    }

    open spec fn buf(self) -> ReadBuf<'a> {
        self.parent_view().unwrap().buf()
    }

    fn get_buf(&self) -> (r: &ReadBuf<'a>) {
        self.parent.as_ref().expect("parent missing").get_buf()
    }
}

impl<'a, P> Decoder<'a> for ExchangeFiltersDecoder<P> where P: Decoder<'a> + Default {
    open spec fn limit_view(self) -> usize {
        self.parent_view().unwrap().limit_view()
    }

    open spec fn with_limit(self, limit: usize) -> Self {
        self.with_parent(Some(self.parent_view().unwrap().with_limit(limit)))
    }

    proof fn lemma_with_limit(self) {
        self.parent_view().unwrap().lemma_with_limit();
        self.lemma_frame();
    }

    fn get_limit(&self) -> (r: usize) {
        self.parent.as_ref().expect("parent missing").get_limit()
    }

    fn set_limit(&mut self, limit: usize) {
        self.parent.as_mut().expect("parent missing").set_limit(limit);
    }
}

impl<'a, P> ExchangeFiltersDecoder<P> where P: Decoder<'a> + Default {
    /// This codec stands where `pre` stood, but for the limit, which is at
    /// `limit`.
    pub open spec fn placed_as(self, pre: Self, limit: usize) -> bool {
        &&& self.buf_ok()
        &&& self.limit_view() == limit
        &&& self.block_length_view() == pre.block_length_view()
        &&& self.count_view() == pre.count_view()
        &&& self.index_view() == pre.index_view()
        &&& self.offset_view() == pre.offset_view()
        &&& self.buf() == pre.buf()
    }

    /// Where the walk over the elements stands.
    pub open spec fn cursor(self) -> Cursor {
        Cursor {
            count: self.count_view() as u32,
            index: self.index_view(),
            offset: self.offset_view(),
            block_length: self.block_length_view(),
            limit: self.limit_view(),
        }
    }

    /// What `wrap` makes of `parent`: block length and count are those of
    /// the size prefix at the parent's limit, the limit stands behind the
    /// prefix, and the codec stands before the first element.
    pub open spec fn opened(self, parent: P) -> bool {
        &&& self.block_length_view() == read_u16(parent.buf()@, parent.limit_view() as int)
        &&& self.count_view() == read_u32(parent.buf()@, parent.limit_view() + 2)
        &&& self.index_view() == usize::MAX
        &&& self.offset_view() == 0
        &&& self.buf_ok()
        &&& self.buf() == parent.buf()
        &&& self.limit_view() == parent.limit_view() + 6
        &&& self.parent_view() == Some(parent.with_limit((parent.limit_view() + 6) as usize))
    }

    /// Opens the group at the parent's limit.
    pub fn wrap(self, parent: P) -> (r: Self)
        requires
            parent.buf_ok(),
            parent.limit_view() + 6 <= parent.buf()@.len(),
        ensures
            r.opened(parent),
    {
        let mut parent = parent;
        proof {
            parent.buf().lemma_len();
            parent.lemma_with_limit();
            self.lemma_frame();
        }
        let initial_offset = parent.get_limit();
        let block_length = parent.get_buf().get_u16_at(initial_offset) as usize;
        let count = parent.get_buf().get_u32_at(initial_offset + 2);
        parent.set_limit(initial_offset + 6);
        let mut this = self;
        this.parent = Some(parent);
        this.block_length = block_length;
        this.count = count;
        this.index = usize::MAX;
        this.offset = 0;
        this
    }

    /// Hands the parent back; after that this codec reaches no buffer.
    pub fn parent(&mut self) -> (r: SbeResult<P>)
        ensures
            r == match old(self).parent_view() {
                Some(p) => Ok::<P, SbeErr>(p),
                None => Err::<P, SbeErr>(SbeErr::ParentNotSet),
            },
            *final(self) == old(self).with_parent(None),
    {
        self.parent.take().ok_or(SbeErr::ParentNotSet)
    }

    /// The number of elements that the group declares.
    pub fn count(&self) -> (r: u32)
        ensures
            r == self.count_view(),
    {
        self.count
    }

    /// An element is left to move to, and the parent is there to move in.
    pub open spec fn can_advance(self) -> bool {
        has_next(self.cursor()) && self.parent_view() is Some
    }

    /// What `advance` makes of `pre` where it moves: the cursor has taken
    /// one step, and all else is as it was.
    pub open spec fn advanced(self, pre: Self) -> bool {
        &&& self.cursor() == step(pre.cursor())
        &&& self.buf_ok()
        &&& self.buf() == pre.buf()
        &&& self == pre.with_limit(step(pre.cursor()).limit).with_position(
            step(pre.cursor()).index,
            step(pre.cursor()).offset,
        )
    }

    /// Moves to the next element, if one is left: it begins at the limit,
    /// and the limit moves behind its fixed fields.
    pub fn advance(&mut self) -> (r: SbeResult<Option<usize>>)
        requires
            old(self).can_advance() ==> old(self).buf_ok() && old(self).limit_view() + old(
                self,
            ).cursor().block_length <= usize::MAX,
        ensures
            r == advance_result(old(self).cursor(), old(self).parent_view() is Some),
            old(self).can_advance() ==> final(self).advanced(*old(self)),
            !old(self).can_advance() ==> *final(self) == *old(self),
    {
        proof {
            self.lemma_frame();
            if self.parent_view() is Some {
                self.with_limit(step(self.cursor()).limit).lemma_frame();
            }
        }
        let index = self.index.wrapping_add(1);
        if index >= self.count as usize {
            return Ok(None);
        }
        if let Some(parent) = self.parent.as_mut() {
            proof {
                parent.lemma_with_limit();
            }
            self.offset = parent.get_limit();
            parent.set_limit(self.offset + self.block_length);
            self.index = index;
            Ok(Some(index))
        } else {
            Err(SbeErr::ParentNotSet)
        }
    }

    /// `filter`: where its bytes begin and how many they are, by the `u8`
    /// length at the limit. The limit moves behind them.
    pub fn filter_decoder(&mut self) -> (r: (usize, usize))
        requires
            old(self).buf_ok(),
            old(self).limit_view() + 1 <= old(self).buf()@.len(),
            old(self).limit_view() + 1 + read_u8(old(self).buf()@, old(self).limit_view() as int)
                <= usize::MAX,
        ensures
            r.0 == old(self).limit_view() + 1,
            r.1 == read_u8(old(self).buf()@, old(self).limit_view() as int),
            final(self).placed_as(*old(self), (r.0 + r.1) as usize),
            *final(self) == old(self).with_limit((r.0 + r.1) as usize),
    {
        proof {
            self.buf().lemma_len();
            self.lemma_with_limit();
            self.lemma_frame();
        }
        let offset = self.get_limit();
        let data_length = self.get_buf().get_u8_at(offset) as usize;
        self.set_limit(offset + 1 + data_length);
        (offset + 1, data_length)
    }

    /// The bytes of `filter` at the coordinates that `filter_decoder` gave.
    pub fn filter_slice(&'a self, coordinates: (usize, usize)) -> (r: &'a [u8])
        requires
            self.buf_ok(),
            coordinates.0 + coordinates.1 <= self.limit_view(),
            coordinates.0 + coordinates.1 <= self.buf()@.len(),
        ensures
            r@ == self.buf()@.subrange(coordinates.0 as int, coordinates.0 + coordinates.1),
    {
        self.get_buf().get_slice_at(coordinates.0, coordinates.1)
    }
}

#[derive(Debug)]
pub struct SymbolsDecoder<P> {
    parent: Option<P>,
    block_length: usize,
    count: u32,
    index: usize,
    offset: usize,
}

impl<P> Default for SymbolsDecoder<P> {
    fn default() -> (r: Self)
        ensures
            r.parent_view() is None,
            r.block_length_view() == 0,
            r.count_view() == 0,
            r.index_view() == 0,
            r.offset_view() == 0,
    {
        Self { parent: None, block_length: 0, count: 0, index: 0, offset: 0 }
    }
}

impl<P> SymbolsDecoder<P> {
    pub closed spec fn parent_view(self) -> Option<P> {
        self.parent
    }

    pub closed spec fn block_length_view(self) -> usize {
        self.block_length
    }

    pub closed spec fn count_view(self) -> u32 {
        self.count
    }

    pub closed spec fn index_view(self) -> usize {
        self.index
    }

    pub closed spec fn offset_view(self) -> usize {
        self.offset
    }

    /// This codec over another parent, all else kept.
    pub closed spec fn with_parent(self, parent: Option<P>) -> Self {
        Self { parent, ..self }
    }

    /// This codec at another element, all else kept.
    pub closed spec fn with_position(self, index: usize, offset: usize) -> Self {
        Self { index, offset, ..self }
    }

    /// What the exchanges above keep and what they put.
    pub proof fn lemma_frame(self)
        ensures
            forall|parent: Option<P>|
                #![trigger self.with_parent(parent)]
                {
                    let w = self.with_parent(parent);
                    &&& w.parent_view() == parent
                    &&& w.block_length_view() == self.block_length_view()
                    &&& w.count_view() == self.count_view()
                    &&& w.index_view() == self.index_view()
                    &&& w.offset_view() == self.offset_view()
                },
            forall|first: Option<P>, second: Option<P>|
                #![trigger self.with_parent(first).with_parent(second)]
                self.with_parent(first).with_parent(second) == self.with_parent(second),
            self.with_parent(self.parent_view()) == self,
            forall|index: usize, offset: usize|
                #![trigger self.with_position(index, offset)]
                {
                    let w = self.with_position(index, offset);
                    &&& w.parent_view() == self.parent_view()
                    &&& w.index_view() == index
                    &&& w.offset_view() == offset
                    &&& w.block_length_view() == self.block_length_view()
                    &&& w.count_view() == self.count_view()
                },
            forall|parent: Option<P>, index: usize, offset: usize|
                #![trigger self.with_parent(parent).with_position(index, offset)]
                self.with_parent(parent).with_position(index, offset) == self.with_position(
                    index,
                    offset,
                ).with_parent(parent),
    {
    }
}

impl<'a, P> Reader<'a> for SymbolsDecoder<P> where P: Reader<'a> + Default {
    open spec fn buf_ok(&self) -> bool {
        self.parent_view() is Some && self.parent_view().unwrap().buf_ok()
    }

    open spec fn buf(self) -> ReadBuf<'a> {
        self.parent_view().unwrap().buf()
    }

    fn get_buf(&self) -> (r: &ReadBuf<'a>) {
        self.parent.as_ref().expect("parent missing").get_buf()
    }
}

impl<'a, P> Decoder<'a> for SymbolsDecoder<P> where P: Decoder<'a> + Default {
    open spec fn limit_view(self) -> usize {
        self.parent_view().unwrap().limit_view()
    }

    open spec fn with_limit(self, limit: usize) -> Self {
        self.with_parent(Some(self.parent_view().unwrap().with_limit(limit)))
    }

    proof fn lemma_with_limit(self) {
        self.parent_view().unwrap().lemma_with_limit();
        self.lemma_frame();
    }

    fn get_limit(&self) -> (r: usize) {
        self.parent.as_ref().expect("parent missing").get_limit()
    }

    fn set_limit(&mut self, limit: usize) {
        self.parent.as_mut().expect("parent missing").set_limit(limit);
    }
}

impl<'a, P> SymbolsDecoder<P> where P: Decoder<'a> + Default {
    /// This codec stands where `pre` stood, but for the limit, which is at
    /// `limit`.
    pub open spec fn placed_as(self, pre: Self, limit: usize) -> bool {
        &&& self.buf_ok()
        &&& self.limit_view() == limit
        &&& self.block_length_view() == pre.block_length_view()
        &&& self.count_view() == pre.count_view()
        &&& self.index_view() == pre.index_view()
        &&& self.offset_view() == pre.offset_view()
        &&& self.buf() == pre.buf()
    }

    /// Where the walk over the elements stands.
    pub open spec fn cursor(self) -> Cursor {
        Cursor {
            count: self.count_view() as u32,
            index: self.index_view(),
            offset: self.offset_view(),
            block_length: self.block_length_view(),
            limit: self.limit_view(),
        }
    }

    /// What `wrap` makes of `parent`: block length and count are those of
    /// the size prefix at the parent's limit, the limit stands behind the
    /// prefix, and the codec stands before the first element.
    pub open spec fn opened(self, parent: P) -> bool {
        &&& self.block_length_view() == read_u16(parent.buf()@, parent.limit_view() as int)
        &&& self.count_view() == read_u32(parent.buf()@, parent.limit_view() + 2)
        &&& self.index_view() == usize::MAX
        &&& self.offset_view() == 0
        &&& self.buf_ok()
        &&& self.buf() == parent.buf()
        &&& self.limit_view() == parent.limit_view() + 6
        &&& self.parent_view() == Some(parent.with_limit((parent.limit_view() + 6) as usize))
    }

    /// Opens the group at the parent's limit.
    pub fn wrap(self, parent: P) -> (r: Self)
        requires
            parent.buf_ok(),
            parent.limit_view() + 6 <= parent.buf()@.len(),
        ensures
            r.opened(parent),
    {
        let mut parent = parent;
        proof {
            parent.buf().lemma_len();
            parent.lemma_with_limit();
            self.lemma_frame();
        }
        let initial_offset = parent.get_limit();
        let block_length = parent.get_buf().get_u16_at(initial_offset) as usize;
        let count = parent.get_buf().get_u32_at(initial_offset + 2);
        parent.set_limit(initial_offset + 6);
        let mut this = self;
        this.parent = Some(parent);
        this.block_length = block_length;
        this.count = count;
        this.index = usize::MAX;
        this.offset = 0;
        this
    }

    /// Hands the parent back; after that this codec reaches no buffer.
    pub fn parent(&mut self) -> (r: SbeResult<P>)
        ensures
            r == match old(self).parent_view() {
                Some(p) => Ok::<P, SbeErr>(p),
                None => Err::<P, SbeErr>(SbeErr::ParentNotSet),
            },
            *final(self) == old(self).with_parent(None),
    {
        self.parent.take().ok_or(SbeErr::ParentNotSet)
    }

    /// The number of elements that the group declares.
    pub fn count(&self) -> (r: u32)
        ensures
            r == self.count_view(),
    {
        self.count
    }

    /// An element is left to move to, and the parent is there to move in.
    pub open spec fn can_advance(self) -> bool {
        has_next(self.cursor()) && self.parent_view() is Some
    }

    /// What `advance` makes of `pre` where it moves: the cursor has taken
    /// one step, and all else is as it was.
    pub open spec fn advanced(self, pre: Self) -> bool {
        &&& self.cursor() == step(pre.cursor())
        &&& self.buf_ok()
        &&& self.buf() == pre.buf()
        &&& self == pre.with_limit(step(pre.cursor()).limit).with_position(
            step(pre.cursor()).index,
            step(pre.cursor()).offset,
        )
    }

    /// Moves to the next element, if one is left: it begins at the limit,
    /// and the limit moves behind its fixed fields.
    pub fn advance(&mut self) -> (r: SbeResult<Option<usize>>)
        requires
            old(self).can_advance() ==> old(self).buf_ok() && old(self).limit_view() + old(
                self,
            ).cursor().block_length <= usize::MAX,
        ensures
            r == advance_result(old(self).cursor(), old(self).parent_view() is Some),
            old(self).can_advance() ==> final(self).advanced(*old(self)),
            !old(self).can_advance() ==> *final(self) == *old(self),
    {
        proof {
            self.lemma_frame();
            if self.parent_view() is Some {
                self.with_limit(step(self.cursor()).limit).lemma_frame();
            }
        }
        let index = self.index.wrapping_add(1);
        if index >= self.count as usize {
            return Ok(None);
        }
        if let Some(parent) = self.parent.as_mut() {
            proof {
                parent.lemma_with_limit();
            }
            self.offset = parent.get_limit();
            parent.set_limit(self.offset + self.block_length);
            self.index = index;
            Ok(Some(index))
        } else {
            Err(SbeErr::ParentNotSet)
        }
    }

    /// `status`: the code of a `SymbolStatus` at byte 0 of the block.
    pub fn status(&self) -> (r: SymbolStatus)
        requires
            self.buf_ok(),
            self.offset_view() + 1 <= self.buf()@.len(),
        ensures
            r == SymbolStatus::of_code(read_u8(self.buf()@, self.offset_view() as int)),
    {
        proof {
            self.buf().lemma_len();
        }
        SymbolStatus::from(self.get_buf().get_u8_at(self.offset))
    }

    /// `baseAssetPrecision`: a `u8` at byte 1 of the block.
    pub fn base_asset_precision(&self) -> (r: u8)
        requires
            self.buf_ok(),
            self.offset_view() + 2 <= self.buf()@.len(),
        ensures
            r == read_u8(self.buf()@, self.offset_view() + 1),
    {
        proof {
            self.buf().lemma_len();
        }
        self.get_buf().get_u8_at(self.offset + 1)
    }

    /// `quoteAssetPrecision`: a `u8` at byte 2 of the block.
    pub fn quote_asset_precision(&self) -> (r: u8)
        requires
            self.buf_ok(),
            self.offset_view() + 3 <= self.buf()@.len(),
        ensures
            r == read_u8(self.buf()@, self.offset_view() + 2),
    {
        proof {
            self.buf().lemma_len();
        }
        self.get_buf().get_u8_at(self.offset + 2)
    }

    /// `baseCommissionPrecision`: a `u8` at byte 3 of the block.
    pub fn base_commission_precision(&self) -> (r: u8)
        requires
            self.buf_ok(),
            self.offset_view() + 4 <= self.buf()@.len(),
        ensures
            r == read_u8(self.buf()@, self.offset_view() + 3),
    {
        proof {
            self.buf().lemma_len();
        }
        self.get_buf().get_u8_at(self.offset + 3)
    }

    /// `quoteCommissionPrecision`: a `u8` at byte 4 of the block.
    pub fn quote_commission_precision(&self) -> (r: u8)
        requires
            self.buf_ok(),
            self.offset_view() + 5 <= self.buf()@.len(),
        ensures
            r == read_u8(self.buf()@, self.offset_view() + 4),
    {
        proof {
            self.buf().lemma_len();
        }
        self.get_buf().get_u8_at(self.offset + 4)
    }

    /// `orderTypes`: the flags of an `OrderTypes` at byte 5 of the block.
    pub fn order_types(&self) -> (r: OrderTypes)
        requires
            self.buf_ok(),
            self.offset_view() + 7 <= self.buf()@.len(),
        ensures
            r == OrderTypes(read_u16(self.buf()@, self.offset_view() + 5)),
    {
        proof {
            self.buf().lemma_len();
        }
        OrderTypes::new(self.get_buf().get_u16_at(self.offset + 5))
    }

    /// `icebergAllowed`: the code of a `BoolEnum` at byte 7 of the block.
    pub fn iceberg_allowed(&self) -> (r: BoolEnum)
        requires
            self.buf_ok(),
            self.offset_view() + 8 <= self.buf()@.len(),
        ensures
            r == BoolEnum::of_code(read_u8(self.buf()@, self.offset_view() + 7)),
    {
        proof {
            self.buf().lemma_len();
        }
        BoolEnum::from(self.get_buf().get_u8_at(self.offset + 7))
    }

    /// `ocoAllowed`: the code of a `BoolEnum` at byte 8 of the block.
    pub fn oco_allowed(&self) -> (r: BoolEnum)
        requires
            self.buf_ok(),
            self.offset_view() + 9 <= self.buf()@.len(),
        ensures
            r == BoolEnum::of_code(read_u8(self.buf()@, self.offset_view() + 8)),
    {
        proof {
            self.buf().lemma_len();
        }
        BoolEnum::from(self.get_buf().get_u8_at(self.offset + 8))
    }

    /// `quoteOrderQtyMarketAllowed`: the code of a `BoolEnum` at byte 9 of the block.
    pub fn quote_order_qty_market_allowed(&self) -> (r: BoolEnum)
        requires
            self.buf_ok(),
            self.offset_view() + 10 <= self.buf()@.len(),
        ensures
            r == BoolEnum::of_code(read_u8(self.buf()@, self.offset_view() + 9)),
    {
        proof {
            self.buf().lemma_len();
        }
        BoolEnum::from(self.get_buf().get_u8_at(self.offset + 9))
    }

    /// `allowTrailingStop`: the code of a `BoolEnum` at byte 10 of the block.
    pub fn allow_trailing_stop(&self) -> (r: BoolEnum)
        requires
            self.buf_ok(),
            self.offset_view() + 11 <= self.buf()@.len(),
        ensures
            r == BoolEnum::of_code(read_u8(self.buf()@, self.offset_view() + 10)),
    {
        proof {
            self.buf().lemma_len();
        }
        BoolEnum::from(self.get_buf().get_u8_at(self.offset + 10))
    }

    /// `cancelReplaceAllowed`: the code of a `BoolEnum` at byte 11 of the block.
    pub fn cancel_replace_allowed(&self) -> (r: BoolEnum)
        requires
            self.buf_ok(),
            self.offset_view() + 12 <= self.buf()@.len(),
        ensures
            r == BoolEnum::of_code(read_u8(self.buf()@, self.offset_view() + 11)),
    {
        proof {
            self.buf().lemma_len();
        }
        BoolEnum::from(self.get_buf().get_u8_at(self.offset + 11))
    }

    /// `isSpotTradingAllowed`: the code of a `BoolEnum` at byte 12 of the block.
    pub fn is_spot_trading_allowed(&self) -> (r: BoolEnum)
        requires
            self.buf_ok(),
            self.offset_view() + 13 <= self.buf()@.len(),
        ensures
            r == BoolEnum::of_code(read_u8(self.buf()@, self.offset_view() + 12)),
    {
        proof {
            self.buf().lemma_len();
        }
        BoolEnum::from(self.get_buf().get_u8_at(self.offset + 12))
    }

    /// `isMarginTradingAllowed`: the code of a `BoolEnum` at byte 13 of the block.
    pub fn is_margin_trading_allowed(&self) -> (r: BoolEnum)
        requires
            self.buf_ok(),
            self.offset_view() + 14 <= self.buf()@.len(),
        ensures
            r == BoolEnum::of_code(read_u8(self.buf()@, self.offset_view() + 13)),
    {
        proof {
            self.buf().lemma_len();
        }
        BoolEnum::from(self.get_buf().get_u8_at(self.offset + 13))
    }

    /// `defaultSelfTradePreventionMode`:
    /// the code of a `SelfTradePreventionMode` at byte 14 of the block.
    pub fn default_self_trade_prevention_mode(&self) -> (r: SelfTradePreventionMode)
        requires
            self.buf_ok(),
            self.offset_view() + 15 <= self.buf()@.len(),
        ensures
            r == SelfTradePreventionMode::of_code(read_u8(self.buf()@, self.offset_view() + 14)),
    {
        proof {
            self.buf().lemma_len();
        }
        SelfTradePreventionMode::from(self.get_buf().get_u8_at(self.offset + 14))
    }

    /// `allowedSelfTradePreventionModes`:
    /// the flags of an `AllowedSelfTradePreventionModes` at byte 15 of the block.
    pub fn allowed_self_trade_prevention_modes(&self) -> (r: AllowedSelfTradePreventionModes)
        requires
            self.buf_ok(),
            self.offset_view() + 16 <= self.buf()@.len(),
        ensures
            r == AllowedSelfTradePreventionModes(read_u8(self.buf()@, self.offset_view() + 15)),
    {
        proof {
            self.buf().lemma_len();
        }
        AllowedSelfTradePreventionModes::new(self.get_buf().get_u8_at(self.offset + 15))
    }

    /// Opens the group `filters`: reads its size prefix at the limit and
    /// moves the limit behind it.
    pub fn filters_decoder(self) -> (r: FiltersDecoder<Self>)
        requires
            self.buf_ok(),
            self.limit_view() + 6 <= self.buf()@.len(),
        ensures
            r.opened(self),
    {
        FiltersDecoder::default().wrap(self)
    }

    /// Opens the group `permissions`: reads its size prefix at the limit and
    /// moves the limit behind it.
    pub fn permissions_decoder(self) -> (r: PermissionsDecoder<Self>)
        requires
            self.buf_ok(),
            self.limit_view() + 6 <= self.buf()@.len(),
        ensures
            r.opened(self),
    {
        PermissionsDecoder::default().wrap(self)
    }

    /// `symbol`: where its bytes begin and how many they are, by the `u8`
    /// length at the limit. The limit moves behind them.
    pub fn symbol_decoder(&mut self) -> (r: (usize, usize))
        requires
            old(self).buf_ok(),
            old(self).limit_view() + 1 <= old(self).buf()@.len(),
            old(self).limit_view() + 1 + read_u8(old(self).buf()@, old(self).limit_view() as int)
                <= usize::MAX,
        ensures
            r.0 == old(self).limit_view() + 1,
            r.1 == read_u8(old(self).buf()@, old(self).limit_view() as int),
            final(self).placed_as(*old(self), (r.0 + r.1) as usize),
            *final(self) == old(self).with_limit((r.0 + r.1) as usize),
    {
        proof {
            self.buf().lemma_len();
            self.lemma_with_limit();
            self.lemma_frame();
        }
        let offset = self.get_limit();
        let data_length = self.get_buf().get_u8_at(offset) as usize;
        self.set_limit(offset + 1 + data_length);
        (offset + 1, data_length)
    }

    /// The bytes of `symbol` at the coordinates that `symbol_decoder` gave.
    pub fn symbol_slice(&'a self, coordinates: (usize, usize)) -> (r: &'a [u8])
        requires
            self.buf_ok(),
            coordinates.0 + coordinates.1 <= self.limit_view(),
            coordinates.0 + coordinates.1 <= self.buf()@.len(),
        ensures
            r@ == self.buf()@.subrange(coordinates.0 as int, coordinates.0 + coordinates.1),
    {
        self.get_buf().get_slice_at(coordinates.0, coordinates.1)
    }

    /// `baseAsset`: where its bytes begin and how many they are, by the `u8`
    /// length at the limit. The limit moves behind them.
    pub fn base_asset_decoder(&mut self) -> (r: (usize, usize))
        requires
            old(self).buf_ok(),
            old(self).limit_view() + 1 <= old(self).buf()@.len(),
            old(self).limit_view() + 1 + read_u8(old(self).buf()@, old(self).limit_view() as int)
                <= usize::MAX,
        ensures
            r.0 == old(self).limit_view() + 1,
            r.1 == read_u8(old(self).buf()@, old(self).limit_view() as int),
            final(self).placed_as(*old(self), (r.0 + r.1) as usize),
            *final(self) == old(self).with_limit((r.0 + r.1) as usize),
    {
        proof {
            self.buf().lemma_len();
            self.lemma_with_limit();
            self.lemma_frame();
        }
        let offset = self.get_limit();
        let data_length = self.get_buf().get_u8_at(offset) as usize;
        self.set_limit(offset + 1 + data_length);
        (offset + 1, data_length)
    }

    /// The bytes of `baseAsset` at the coordinates that `base_asset_decoder` gave.
    pub fn base_asset_slice(&'a self, coordinates: (usize, usize)) -> (r: &'a [u8])
        requires
            self.buf_ok(),
            coordinates.0 + coordinates.1 <= self.limit_view(),
            coordinates.0 + coordinates.1 <= self.buf()@.len(),
        ensures
            r@ == self.buf()@.subrange(coordinates.0 as int, coordinates.0 + coordinates.1),
    {
        self.get_buf().get_slice_at(coordinates.0, coordinates.1)
    }

    /// `quoteAsset`: where its bytes begin and how many they are, by the `u8`
    /// length at the limit. The limit moves behind them.
    pub fn quote_asset_decoder(&mut self) -> (r: (usize, usize))
        requires
            old(self).buf_ok(),
            old(self).limit_view() + 1 <= old(self).buf()@.len(),
            old(self).limit_view() + 1 + read_u8(old(self).buf()@, old(self).limit_view() as int)
                <= usize::MAX,
        ensures
            r.0 == old(self).limit_view() + 1,
            r.1 == read_u8(old(self).buf()@, old(self).limit_view() as int),
            final(self).placed_as(*old(self), (r.0 + r.1) as usize),
            *final(self) == old(self).with_limit((r.0 + r.1) as usize),
    {
        proof {
            self.buf().lemma_len();
            self.lemma_with_limit();
            self.lemma_frame();
        }
        let offset = self.get_limit();
        let data_length = self.get_buf().get_u8_at(offset) as usize;
        self.set_limit(offset + 1 + data_length);
        (offset + 1, data_length)
    }

    /// The bytes of `quoteAsset` at the coordinates that `quote_asset_decoder` gave.
    pub fn quote_asset_slice(&'a self, coordinates: (usize, usize)) -> (r: &'a [u8])
        requires
            self.buf_ok(),
            coordinates.0 + coordinates.1 <= self.limit_view(),
            coordinates.0 + coordinates.1 <= self.buf()@.len(),
        ensures
            r@ == self.buf()@.subrange(coordinates.0 as int, coordinates.0 + coordinates.1),
    {
        self.get_buf().get_slice_at(coordinates.0, coordinates.1)
    }
}

#[derive(Debug)]
pub struct FiltersDecoder<P> {
    parent: Option<P>,
    block_length: usize,
    count: u32,
    index: usize,
    offset: usize,
}

impl<P> Default for FiltersDecoder<P> {
    fn default() -> (r: Self)
        ensures
            r.parent_view() is None,
            r.block_length_view() == 0,
            r.count_view() == 0,
            r.index_view() == 0,
            r.offset_view() == 0,
    {
        Self { parent: None, block_length: 0, count: 0, index: 0, offset: 0 }
    }
}

impl<P> FiltersDecoder<P> {
    pub closed spec fn parent_view(self) -> Option<P> {
        self.parent
    }

    pub closed spec fn block_length_view(self) -> usize {
        self.block_length
    }

    pub closed spec fn count_view(self) -> u32 {
        self.count
    }

    pub closed spec fn index_view(self) -> usize {
        self.index
    }

    pub closed spec fn offset_view(self) -> usize {
        self.offset
    }

    /// This codec over another parent, all else kept.
    pub closed spec fn with_parent(self, parent: Option<P>) -> Self {
        Self { parent, ..self }
    }

    /// This codec at another element, all else kept.
    pub closed spec fn with_position(self, index: usize, offset: usize) -> Self {
        Self { index, offset, ..self }
    }

    /// What the exchanges above keep and what they put.
    pub proof fn lemma_frame(self)
        ensures
            forall|parent: Option<P>|
                #![trigger self.with_parent(parent)]
                {
                    let w = self.with_parent(parent);
                    &&& w.parent_view() == parent
                    &&& w.block_length_view() == self.block_length_view()
                    &&& w.count_view() == self.count_view()
                    &&& w.index_view() == self.index_view()
                    &&& w.offset_view() == self.offset_view()
                },
            forall|first: Option<P>, second: Option<P>|
                #![trigger self.with_parent(first).with_parent(second)]
                self.with_parent(first).with_parent(second) == self.with_parent(second),
            self.with_parent(self.parent_view()) == self,
            forall|index: usize, offset: usize|
                #![trigger self.with_position(index, offset)]
                {
                    let w = self.with_position(index, offset);
                    &&& w.parent_view() == self.parent_view()
                    &&& w.index_view() == index
                    &&& w.offset_view() == offset
                    &&& w.block_length_view() == self.block_length_view()
                    &&& w.count_view() == self.count_view()
                },
            forall|parent: Option<P>, index: usize, offset: usize|
                #![trigger self.with_parent(parent).with_position(index, offset)]
                self.with_parent(parent).with_position(index, offset) == self.with_position(
                    index,
                    offset,
                ).with_parent(parent),
    {
    }
}

impl<'a, P> Reader<'a> for FiltersDecoder<P> where P: Reader<'a> + Default {
    open spec fn buf_ok(&self) -> bool {
        self.parent_view() is Some && self.parent_view().unwrap().buf_ok()
    }

    open spec fn buf(self) -> ReadBuf<'a> {
        self.parent_view().unwrap().buf()
    }

    fn get_buf(&self) -> (r: &ReadBuf<'a>) {
        self.parent.as_ref().expect("parent missing").get_buf()
    }
}

impl<'a, P> Decoder<'a> for FiltersDecoder<P> where P: Decoder<'a> + Default {
    open spec fn limit_view(self) -> usize {
        self.parent_view().unwrap().limit_view()
    }

    open spec fn with_limit(self, limit: usize) -> Self {
        self.with_parent(Some(self.parent_view().unwrap().with_limit(limit)))
    }

    proof fn lemma_with_limit(self) {
        self.parent_view().unwrap().lemma_with_limit();
        self.lemma_frame();
    }

    fn get_limit(&self) -> (r: usize) {
        self.parent.as_ref().expect("parent missing").get_limit()
    }

    fn set_limit(&mut self, limit: usize) {
        self.parent.as_mut().expect("parent missing").set_limit(limit);
    }
}

impl<'a, P> FiltersDecoder<P> where P: Decoder<'a> + Default {
    /// This codec stands where `pre` stood, but for the limit, which is at
    /// `limit`.
    pub open spec fn placed_as(self, pre: Self, limit: usize) -> bool {
        &&& self.buf_ok()
        &&& self.limit_view() == limit
        &&& self.block_length_view() == pre.block_length_view()
        &&& self.count_view() == pre.count_view()
        &&& self.index_view() == pre.index_view()
        &&& self.offset_view() == pre.offset_view()
        &&& self.buf() == pre.buf()
    }

    /// Where the walk over the elements stands.
    pub open spec fn cursor(self) -> Cursor {
        Cursor {
            count: self.count_view() as u32,
            index: self.index_view(),
            offset: self.offset_view(),
            block_length: self.block_length_view(),
            limit: self.limit_view(),
        }
    }

    /// What `wrap` makes of `parent`: block length and count are those of
    /// the size prefix at the parent's limit, the limit stands behind the
    /// prefix, and the codec stands before the first element.
    pub open spec fn opened(self, parent: P) -> bool {
        &&& self.block_length_view() == read_u16(parent.buf()@, parent.limit_view() as int)
        &&& self.count_view() == read_u32(parent.buf()@, parent.limit_view() + 2)
        &&& self.index_view() == usize::MAX
        &&& self.offset_view() == 0
        &&& self.buf_ok()
        &&& self.buf() == parent.buf()
        &&& self.limit_view() == parent.limit_view() + 6
        &&& self.parent_view() == Some(parent.with_limit((parent.limit_view() + 6) as usize))
    }

    /// Opens the group at the parent's limit.
    pub fn wrap(self, parent: P) -> (r: Self)
        requires
            parent.buf_ok(),
            parent.limit_view() + 6 <= parent.buf()@.len(),
        ensures
            r.opened(parent),
    {
        let mut parent = parent;
        proof {
            parent.buf().lemma_len();
            parent.lemma_with_limit();
            self.lemma_frame();
        }
        let initial_offset = parent.get_limit();
        let block_length = parent.get_buf().get_u16_at(initial_offset) as usize;
        let count = parent.get_buf().get_u32_at(initial_offset + 2);
        parent.set_limit(initial_offset + 6);
        let mut this = self;
        this.parent = Some(parent);
        this.block_length = block_length;
        this.count = count;
        this.index = usize::MAX;
        this.offset = 0;
        this
    }

    /// Hands the parent back; after that this codec reaches no buffer.
    pub fn parent(&mut self) -> (r: SbeResult<P>)
        ensures
            r == match old(self).parent_view() {
                Some(p) => Ok::<P, SbeErr>(p),
                None => Err::<P, SbeErr>(SbeErr::ParentNotSet),
            },
            *final(self) == old(self).with_parent(None),
    {
        self.parent.take().ok_or(SbeErr::ParentNotSet)
    }

    /// The number of elements that the group declares.
    pub fn count(&self) -> (r: u32)
        ensures
            r == self.count_view(),
    {
        self.count
    }

    /// An element is left to move to, and the parent is there to move in.
    pub open spec fn can_advance(self) -> bool {
        has_next(self.cursor()) && self.parent_view() is Some
    }

    /// What `advance` makes of `pre` where it moves: the cursor has taken
    /// one step, and all else is as it was.
    pub open spec fn advanced(self, pre: Self) -> bool {
        &&& self.cursor() == step(pre.cursor())
        &&& self.buf_ok()
        &&& self.buf() == pre.buf()
        &&& self == pre.with_limit(step(pre.cursor()).limit).with_position(
            step(pre.cursor()).index,
            step(pre.cursor()).offset,
        )
    }

    /// Moves to the next element, if one is left: it begins at the limit,
    /// and the limit moves behind its fixed fields.
    pub fn advance(&mut self) -> (r: SbeResult<Option<usize>>)
        requires
            old(self).can_advance() ==> old(self).buf_ok() && old(self).limit_view() + old(
                self,
            ).cursor().block_length <= usize::MAX,
        ensures
            r == advance_result(old(self).cursor(), old(self).parent_view() is Some),
            old(self).can_advance() ==> final(self).advanced(*old(self)),
            !old(self).can_advance() ==> *final(self) == *old(self),
    {
        proof {
            self.lemma_frame();
            if self.parent_view() is Some {
                self.with_limit(step(self.cursor()).limit).lemma_frame();
            }
        }
        let index = self.index.wrapping_add(1);
        if index >= self.count as usize {
            return Ok(None);
        }
        if let Some(parent) = self.parent.as_mut() {
            proof {
                parent.lemma_with_limit();
            }
            self.offset = parent.get_limit();
            parent.set_limit(self.offset + self.block_length);
            self.index = index;
            Ok(Some(index))
        } else {
            Err(SbeErr::ParentNotSet)
        }
    }

    /// `filter`: where its bytes begin and how many they are, by the `u8`
    /// length at the limit. The limit moves behind them.
    pub fn filter_decoder(&mut self) -> (r: (usize, usize))
        requires
            old(self).buf_ok(),
            old(self).limit_view() + 1 <= old(self).buf()@.len(),
            old(self).limit_view() + 1 + read_u8(old(self).buf()@, old(self).limit_view() as int)
                <= usize::MAX,
        ensures
            r.0 == old(self).limit_view() + 1,
            r.1 == read_u8(old(self).buf()@, old(self).limit_view() as int),
            final(self).placed_as(*old(self), (r.0 + r.1) as usize),
            *final(self) == old(self).with_limit((r.0 + r.1) as usize),
    {
        proof {
            self.buf().lemma_len();
            self.lemma_with_limit();
            self.lemma_frame();
        }
        let offset = self.get_limit();
        let data_length = self.get_buf().get_u8_at(offset) as usize;
        self.set_limit(offset + 1 + data_length);
        (offset + 1, data_length)
    }

    /// The bytes of `filter` at the coordinates that `filter_decoder` gave.
    pub fn filter_slice(&'a self, coordinates: (usize, usize)) -> (r: &'a [u8])
        requires
            self.buf_ok(),
            coordinates.0 + coordinates.1 <= self.limit_view(),
            coordinates.0 + coordinates.1 <= self.buf()@.len(),
        ensures
            r@ == self.buf()@.subrange(coordinates.0 as int, coordinates.0 + coordinates.1),
    {
        self.get_buf().get_slice_at(coordinates.0, coordinates.1)
    }
}

#[derive(Debug)]
pub struct PermissionsDecoder<P> {
    parent: Option<P>,
    block_length: usize,
    count: u32,
    index: usize,
    offset: usize,
}

impl<P> Default for PermissionsDecoder<P> {
    fn default() -> (r: Self)
        ensures
            r.parent_view() is None,
            r.block_length_view() == 0,
            r.count_view() == 0,
            r.index_view() == 0,
            r.offset_view() == 0,
    {
        Self { parent: None, block_length: 0, count: 0, index: 0, offset: 0 }
    }
}

impl<P> PermissionsDecoder<P> {
    pub closed spec fn parent_view(self) -> Option<P> {
        self.parent
    }

    pub closed spec fn block_length_view(self) -> usize {
        self.block_length
    }

    pub closed spec fn count_view(self) -> u32 {
        self.count
    }

    pub closed spec fn index_view(self) -> usize {
        self.index
    }

    pub closed spec fn offset_view(self) -> usize {
        self.offset
    }

    /// This codec over another parent, all else kept.
    pub closed spec fn with_parent(self, parent: Option<P>) -> Self {
        Self { parent, ..self }
    }

    /// This codec at another element, all else kept.
    pub closed spec fn with_position(self, index: usize, offset: usize) -> Self {
        Self { index, offset, ..self }
    }

    /// What the exchanges above keep and what they put.
    pub proof fn lemma_frame(self)
        ensures
            forall|parent: Option<P>|
                #![trigger self.with_parent(parent)]
                {
                    let w = self.with_parent(parent);
                    &&& w.parent_view() == parent
                    &&& w.block_length_view() == self.block_length_view()
                    &&& w.count_view() == self.count_view()
                    &&& w.index_view() == self.index_view()
                    &&& w.offset_view() == self.offset_view()
                },
            forall|first: Option<P>, second: Option<P>|
                #![trigger self.with_parent(first).with_parent(second)]
                self.with_parent(first).with_parent(second) == self.with_parent(second),
            self.with_parent(self.parent_view()) == self,
            forall|index: usize, offset: usize|
                #![trigger self.with_position(index, offset)]
                {
                    let w = self.with_position(index, offset);
                    &&& w.parent_view() == self.parent_view()
                    &&& w.index_view() == index
                    &&& w.offset_view() == offset
                    &&& w.block_length_view() == self.block_length_view()
                    &&& w.count_view() == self.count_view()
                },
            forall|parent: Option<P>, index: usize, offset: usize|
                #![trigger self.with_parent(parent).with_position(index, offset)]
                self.with_parent(parent).with_position(index, offset) == self.with_position(
                    index,
                    offset,
                ).with_parent(parent),
    {
    }
}

impl<'a, P> Reader<'a> for PermissionsDecoder<P> where P: Reader<'a> + Default {
    open spec fn buf_ok(&self) -> bool {
        self.parent_view() is Some && self.parent_view().unwrap().buf_ok()
    }

    open spec fn buf(self) -> ReadBuf<'a> {
        self.parent_view().unwrap().buf()
    }

    fn get_buf(&self) -> (r: &ReadBuf<'a>) {
        self.parent.as_ref().expect("parent missing").get_buf()
    }
}

impl<'a, P> Decoder<'a> for PermissionsDecoder<P> where P: Decoder<'a> + Default {
    open spec fn limit_view(self) -> usize {
        self.parent_view().unwrap().limit_view()
    }

    open spec fn with_limit(self, limit: usize) -> Self {
        self.with_parent(Some(self.parent_view().unwrap().with_limit(limit)))
    }

    proof fn lemma_with_limit(self) {
        self.parent_view().unwrap().lemma_with_limit();
        self.lemma_frame();
    }

    fn get_limit(&self) -> (r: usize) {
        self.parent.as_ref().expect("parent missing").get_limit()
    }

    fn set_limit(&mut self, limit: usize) {
        self.parent.as_mut().expect("parent missing").set_limit(limit);
    }
}

impl<'a, P> PermissionsDecoder<P> where P: Decoder<'a> + Default {
    /// This codec stands where `pre` stood, but for the limit, which is at
    /// `limit`.
    pub open spec fn placed_as(self, pre: Self, limit: usize) -> bool {
        &&& self.buf_ok()
        &&& self.limit_view() == limit
        &&& self.block_length_view() == pre.block_length_view()
        &&& self.count_view() == pre.count_view()
        &&& self.index_view() == pre.index_view()
        &&& self.offset_view() == pre.offset_view()
        &&& self.buf() == pre.buf()
    }

    /// Where the walk over the elements stands.
    pub open spec fn cursor(self) -> Cursor {
        Cursor {
            count: self.count_view() as u32,
            index: self.index_view(),
            offset: self.offset_view(),
            block_length: self.block_length_view(),
            limit: self.limit_view(),
        }
    }

    /// What `wrap` makes of `parent`: block length and count are those of
    /// the size prefix at the parent's limit, the limit stands behind the
    /// prefix, and the codec stands before the first element.
    pub open spec fn opened(self, parent: P) -> bool {
        &&& self.block_length_view() == read_u16(parent.buf()@, parent.limit_view() as int)
        &&& self.count_view() == read_u32(parent.buf()@, parent.limit_view() + 2)
        &&& self.index_view() == usize::MAX
        &&& self.offset_view() == 0
        &&& self.buf_ok()
        &&& self.buf() == parent.buf()
        &&& self.limit_view() == parent.limit_view() + 6
        &&& self.parent_view() == Some(parent.with_limit((parent.limit_view() + 6) as usize))
    }

    /// Opens the group at the parent's limit.
    pub fn wrap(self, parent: P) -> (r: Self)
        requires
            parent.buf_ok(),
            parent.limit_view() + 6 <= parent.buf()@.len(),
        ensures
            r.opened(parent),
    {
        let mut parent = parent;
        proof {
            parent.buf().lemma_len();
            parent.lemma_with_limit();
            self.lemma_frame();
        }
        let initial_offset = parent.get_limit();
        let block_length = parent.get_buf().get_u16_at(initial_offset) as usize;
        let count = parent.get_buf().get_u32_at(initial_offset + 2);
        parent.set_limit(initial_offset + 6);
        let mut this = self;
        this.parent = Some(parent);
        this.block_length = block_length;
        this.count = count;
        this.index = usize::MAX;
        this.offset = 0;
        this
    }

    /// Hands the parent back; after that this codec reaches no buffer.
    pub fn parent(&mut self) -> (r: SbeResult<P>)
        ensures
            r == match old(self).parent_view() {
                Some(p) => Ok::<P, SbeErr>(p),
                None => Err::<P, SbeErr>(SbeErr::ParentNotSet),
            },
            *final(self) == old(self).with_parent(None),
    {
        self.parent.take().ok_or(SbeErr::ParentNotSet)
    }

    /// The number of elements that the group declares.
    pub fn count(&self) -> (r: u32)
        ensures
            r == self.count_view(),
    {
        self.count
    }

    /// An element is left to move to, and the parent is there to move in.
    pub open spec fn can_advance(self) -> bool {
        has_next(self.cursor()) && self.parent_view() is Some
    }

    /// What `advance` makes of `pre` where it moves: the cursor has taken
    /// one step, and all else is as it was.
    pub open spec fn advanced(self, pre: Self) -> bool {
        &&& self.cursor() == step(pre.cursor())
        &&& self.buf_ok()
        &&& self.buf() == pre.buf()
        &&& self == pre.with_limit(step(pre.cursor()).limit).with_position(
            step(pre.cursor()).index,
            step(pre.cursor()).offset,
        )
    }

    /// Moves to the next element, if one is left: it begins at the limit,
    /// and the limit moves behind its fixed fields.
    pub fn advance(&mut self) -> (r: SbeResult<Option<usize>>)
        requires
            old(self).can_advance() ==> old(self).buf_ok() && old(self).limit_view() + old(
                self,
            ).cursor().block_length <= usize::MAX,
        ensures
            r == advance_result(old(self).cursor(), old(self).parent_view() is Some),
            old(self).can_advance() ==> final(self).advanced(*old(self)),
            !old(self).can_advance() ==> *final(self) == *old(self),
    {
        proof {
            self.lemma_frame();
            if self.parent_view() is Some {
                self.with_limit(step(self.cursor()).limit).lemma_frame();
            }
        }
        let index = self.index.wrapping_add(1);
        if index >= self.count as usize {
            return Ok(None);
        }
        if let Some(parent) = self.parent.as_mut() {
            proof {
                parent.lemma_with_limit();
            }
            self.offset = parent.get_limit();
            parent.set_limit(self.offset + self.block_length);
            self.index = index;
            Ok(Some(index))
        } else {
            Err(SbeErr::ParentNotSet)
        }
    }

    /// `permission`: where its bytes begin and how many they are, by the `u8`
    /// length at the limit. The limit moves behind them.
    pub fn permission_decoder(&mut self) -> (r: (usize, usize))
        requires
            old(self).buf_ok(),
            old(self).limit_view() + 1 <= old(self).buf()@.len(),
            old(self).limit_view() + 1 + read_u8(old(self).buf()@, old(self).limit_view() as int)
                <= usize::MAX,
        ensures
            r.0 == old(self).limit_view() + 1,
            r.1 == read_u8(old(self).buf()@, old(self).limit_view() as int),
            final(self).placed_as(*old(self), (r.0 + r.1) as usize),
            *final(self) == old(self).with_limit((r.0 + r.1) as usize),
    {
        proof {
            self.buf().lemma_len();
            self.lemma_with_limit();
            self.lemma_frame();
        }
        let offset = self.get_limit();
        let data_length = self.get_buf().get_u8_at(offset) as usize;
        self.set_limit(offset + 1 + data_length);
        (offset + 1, data_length)
    }

    /// The bytes of `permission` at the coordinates that `permission_decoder` gave.
    pub fn permission_slice(&'a self, coordinates: (usize, usize)) -> (r: &'a [u8])
        requires
            self.buf_ok(),
            coordinates.0 + coordinates.1 <= self.limit_view(),
            coordinates.0 + coordinates.1 <= self.buf()@.len(),
        ensures
            r@ == self.buf()@.subrange(coordinates.0 as int, coordinates.0 + coordinates.1),
    {
        self.get_buf().get_slice_at(coordinates.0, coordinates.1)
    }
}

#[derive(Debug)]
pub struct SorsDecoder<P> {
    parent: Option<P>,
    block_length: usize,
    count: u32,
    index: usize,
    offset: usize,
}

impl<P> Default for SorsDecoder<P> {
    fn default() -> (r: Self)
        ensures
            r.parent_view() is None,
            r.block_length_view() == 0,
            r.count_view() == 0,
            r.index_view() == 0,
            r.offset_view() == 0,
    {
        Self { parent: None, block_length: 0, count: 0, index: 0, offset: 0 }
    }
}

impl<P> SorsDecoder<P> {
    pub closed spec fn parent_view(self) -> Option<P> {
        self.parent
    }

    pub closed spec fn block_length_view(self) -> usize {
        self.block_length
    }

    pub closed spec fn count_view(self) -> u32 {
        self.count
    }

    pub closed spec fn index_view(self) -> usize {
        self.index
    }

    pub closed spec fn offset_view(self) -> usize {
        self.offset
    }

    /// This codec over another parent, all else kept.
    pub closed spec fn with_parent(self, parent: Option<P>) -> Self {
        Self { parent, ..self }
    }

    /// This codec at another element, all else kept.
    pub closed spec fn with_position(self, index: usize, offset: usize) -> Self {
        Self { index, offset, ..self }
    }

    /// What the exchanges above keep and what they put.
    pub proof fn lemma_frame(self)
        ensures
            forall|parent: Option<P>|
                #![trigger self.with_parent(parent)]
                {
                    let w = self.with_parent(parent);
                    &&& w.parent_view() == parent
                    &&& w.block_length_view() == self.block_length_view()
                    &&& w.count_view() == self.count_view()
                    &&& w.index_view() == self.index_view()
                    &&& w.offset_view() == self.offset_view()
                },
            forall|first: Option<P>, second: Option<P>|
                #![trigger self.with_parent(first).with_parent(second)]
                self.with_parent(first).with_parent(second) == self.with_parent(second),
            self.with_parent(self.parent_view()) == self,
            forall|index: usize, offset: usize|
                #![trigger self.with_position(index, offset)]
                {
                    let w = self.with_position(index, offset);
                    &&& w.parent_view() == self.parent_view()
                    &&& w.index_view() == index
                    &&& w.offset_view() == offset
                    &&& w.block_length_view() == self.block_length_view()
                    &&& w.count_view() == self.count_view()
                },
            forall|parent: Option<P>, index: usize, offset: usize|
                #![trigger self.with_parent(parent).with_position(index, offset)]
                self.with_parent(parent).with_position(index, offset) == self.with_position(
                    index,
                    offset,
                ).with_parent(parent),
    {
    }
}

impl<'a, P> Reader<'a> for SorsDecoder<P> where P: Reader<'a> + Default {
    open spec fn buf_ok(&self) -> bool {
        self.parent_view() is Some && self.parent_view().unwrap().buf_ok()
    }

    open spec fn buf(self) -> ReadBuf<'a> {
        self.parent_view().unwrap().buf()
    }

    fn get_buf(&self) -> (r: &ReadBuf<'a>) {
        self.parent.as_ref().expect("parent missing").get_buf()
    }
}

impl<'a, P> Decoder<'a> for SorsDecoder<P> where P: Decoder<'a> + Default {
    open spec fn limit_view(self) -> usize {
        self.parent_view().unwrap().limit_view()
    }

    open spec fn with_limit(self, limit: usize) -> Self {
        self.with_parent(Some(self.parent_view().unwrap().with_limit(limit)))
    }

    proof fn lemma_with_limit(self) {
        self.parent_view().unwrap().lemma_with_limit();
        self.lemma_frame();
    }

    fn get_limit(&self) -> (r: usize) {
        self.parent.as_ref().expect("parent missing").get_limit()
    }

    fn set_limit(&mut self, limit: usize) {
        self.parent.as_mut().expect("parent missing").set_limit(limit);
    }
}

impl<'a, P> SorsDecoder<P> where P: Decoder<'a> + Default {
    /// This codec stands where `pre` stood, but for the limit, which is at
    /// `limit`.
    pub open spec fn placed_as(self, pre: Self, limit: usize) -> bool {
        &&& self.buf_ok()
        &&& self.limit_view() == limit
        &&& self.block_length_view() == pre.block_length_view()
        &&& self.count_view() == pre.count_view()
        &&& self.index_view() == pre.index_view()
        &&& self.offset_view() == pre.offset_view()
        &&& self.buf() == pre.buf()
    }

    /// Where the walk over the elements stands.
    pub open spec fn cursor(self) -> Cursor {
        Cursor {
            count: self.count_view() as u32,
            index: self.index_view(),
            offset: self.offset_view(),
            block_length: self.block_length_view(),
            limit: self.limit_view(),
        }
    }

    /// What `wrap` makes of `parent`: block length and count are those of
    /// the size prefix at the parent's limit, the limit stands behind the
    /// prefix, and the codec stands before the first element.
    pub open spec fn opened(self, parent: P) -> bool {
        &&& self.block_length_view() == read_u16(parent.buf()@, parent.limit_view() as int)
        &&& self.count_view() == read_u32(parent.buf()@, parent.limit_view() + 2)
        &&& self.index_view() == usize::MAX
        &&& self.offset_view() == 0
        &&& self.buf_ok()
        &&& self.buf() == parent.buf()
        &&& self.limit_view() == parent.limit_view() + 6
        &&& self.parent_view() == Some(parent.with_limit((parent.limit_view() + 6) as usize))
    }

    /// Opens the group at the parent's limit.
    pub fn wrap(self, parent: P) -> (r: Self)
        requires
            parent.buf_ok(),
            parent.limit_view() + 6 <= parent.buf()@.len(),
        ensures
            r.opened(parent),
    {
        let mut parent = parent;
        proof {
            parent.buf().lemma_len();
            parent.lemma_with_limit();
            self.lemma_frame();
        }
        let initial_offset = parent.get_limit();
        let block_length = parent.get_buf().get_u16_at(initial_offset) as usize;
        let count = parent.get_buf().get_u32_at(initial_offset + 2);
        parent.set_limit(initial_offset + 6);
        let mut this = self;
        this.parent = Some(parent);
        this.block_length = block_length;
        this.count = count;
        this.index = usize::MAX;
        this.offset = 0;
        this
    }

    /// Hands the parent back; after that this codec reaches no buffer.
    pub fn parent(&mut self) -> (r: SbeResult<P>)
        ensures
            r == match old(self).parent_view() {
                Some(p) => Ok::<P, SbeErr>(p),
                None => Err::<P, SbeErr>(SbeErr::ParentNotSet),
            },
            *final(self) == old(self).with_parent(None),
    {
        self.parent.take().ok_or(SbeErr::ParentNotSet)
    }

    /// The number of elements that the group declares.
    pub fn count(&self) -> (r: u32)
        ensures
            r == self.count_view(),
    {
        self.count
    }

    /// An element is left to move to, and the parent is there to move in.
    pub open spec fn can_advance(self) -> bool {
        has_next(self.cursor()) && self.parent_view() is Some
    }

    /// What `advance` makes of `pre` where it moves: the cursor has taken
    /// one step, and all else is as it was.
    pub open spec fn advanced(self, pre: Self) -> bool {
        &&& self.cursor() == step(pre.cursor())
        &&& self.buf_ok()
        &&& self.buf() == pre.buf()
        &&& self == pre.with_limit(step(pre.cursor()).limit).with_position(
            step(pre.cursor()).index,
            step(pre.cursor()).offset,
        )
    }

    /// Moves to the next element, if one is left: it begins at the limit,
    /// and the limit moves behind its fixed fields.
    pub fn advance(&mut self) -> (r: SbeResult<Option<usize>>)
        requires
            old(self).can_advance() ==> old(self).buf_ok() && old(self).limit_view() + old(
                self,
            ).cursor().block_length <= usize::MAX,
        ensures
            r == advance_result(old(self).cursor(), old(self).parent_view() is Some),
            old(self).can_advance() ==> final(self).advanced(*old(self)),
            !old(self).can_advance() ==> *final(self) == *old(self),
    {
        proof {
            self.lemma_frame();
            if self.parent_view() is Some {
                self.with_limit(step(self.cursor()).limit).lemma_frame();
            }
        }
        let index = self.index.wrapping_add(1);
        if index >= self.count as usize {
            return Ok(None);
        }
        if let Some(parent) = self.parent.as_mut() {
            proof {
                parent.lemma_with_limit();
            }
            self.offset = parent.get_limit();
            parent.set_limit(self.offset + self.block_length);
            self.index = index;
            Ok(Some(index))
        } else {
            Err(SbeErr::ParentNotSet)
        }
    }

    /// Opens the group `sorSymbols`: reads its size prefix at the limit and
    /// moves the limit behind it.
    pub fn sor_symbols_decoder(self) -> (r: SorSymbolsDecoder<Self>)
        requires
            self.buf_ok(),
            self.limit_view() + 6 <= self.buf()@.len(),
        ensures
            r.opened(self),
    {
        SorSymbolsDecoder::default().wrap(self)
    }

    /// `baseAsset`: where its bytes begin and how many they are, by the `u8`
    /// length at the limit. The limit moves behind them.
    pub fn base_asset_decoder(&mut self) -> (r: (usize, usize))
        requires
            old(self).buf_ok(),
            old(self).limit_view() + 1 <= old(self).buf()@.len(),
            old(self).limit_view() + 1 + read_u8(old(self).buf()@, old(self).limit_view() as int)
                <= usize::MAX,
        ensures
            r.0 == old(self).limit_view() + 1,
            r.1 == read_u8(old(self).buf()@, old(self).limit_view() as int),
            final(self).placed_as(*old(self), (r.0 + r.1) as usize),
            *final(self) == old(self).with_limit((r.0 + r.1) as usize),
    {
        proof {
            self.buf().lemma_len();
            self.lemma_with_limit();
            self.lemma_frame();
        }
        let offset = self.get_limit();
        let data_length = self.get_buf().get_u8_at(offset) as usize;
        self.set_limit(offset + 1 + data_length);
        (offset + 1, data_length)
    }

    /// The bytes of `baseAsset` at the coordinates that `base_asset_decoder` gave.
    pub fn base_asset_slice(&'a self, coordinates: (usize, usize)) -> (r: &'a [u8])
        requires
            self.buf_ok(),
            coordinates.0 + coordinates.1 <= self.limit_view(),
            coordinates.0 + coordinates.1 <= self.buf()@.len(),
        ensures
            r@ == self.buf()@.subrange(coordinates.0 as int, coordinates.0 + coordinates.1),
    {
        self.get_buf().get_slice_at(coordinates.0, coordinates.1)
    }
}

#[derive(Debug)]
pub struct SorSymbolsDecoder<P> {
    parent: Option<P>,
    block_length: usize,
    count: u32,
    index: usize,
    offset: usize,
}

impl<P> Default for SorSymbolsDecoder<P> {
    fn default() -> (r: Self)
        ensures
            r.parent_view() is None,
            r.block_length_view() == 0,
            r.count_view() == 0,
            r.index_view() == 0,
            r.offset_view() == 0,
    {
        Self { parent: None, block_length: 0, count: 0, index: 0, offset: 0 }
    }
}

impl<P> SorSymbolsDecoder<P> {
    pub closed spec fn parent_view(self) -> Option<P> {
        self.parent
    }

    pub closed spec fn block_length_view(self) -> usize {
        self.block_length
    }

    pub closed spec fn count_view(self) -> u32 {
        self.count
    }

    pub closed spec fn index_view(self) -> usize {
        self.index
    }

    pub closed spec fn offset_view(self) -> usize {
        self.offset
    }

    /// This codec over another parent, all else kept.
    pub closed spec fn with_parent(self, parent: Option<P>) -> Self {
        Self { parent, ..self }
    }

    /// This codec at another element, all else kept.
    pub closed spec fn with_position(self, index: usize, offset: usize) -> Self {
        Self { index, offset, ..self }
    }

    /// What the exchanges above keep and what they put.
    pub proof fn lemma_frame(self)
        ensures
            forall|parent: Option<P>|
                #![trigger self.with_parent(parent)]
                {
                    let w = self.with_parent(parent);
                    &&& w.parent_view() == parent
                    &&& w.block_length_view() == self.block_length_view()
                    &&& w.count_view() == self.count_view()
                    &&& w.index_view() == self.index_view()
                    &&& w.offset_view() == self.offset_view()
                },
            forall|first: Option<P>, second: Option<P>|
                #![trigger self.with_parent(first).with_parent(second)]
                self.with_parent(first).with_parent(second) == self.with_parent(second),
            self.with_parent(self.parent_view()) == self,
            forall|index: usize, offset: usize|
                #![trigger self.with_position(index, offset)]
                {
                    let w = self.with_position(index, offset);
                    &&& w.parent_view() == self.parent_view()
                    &&& w.index_view() == index
                    &&& w.offset_view() == offset
                    &&& w.block_length_view() == self.block_length_view()
                    &&& w.count_view() == self.count_view()
                },
            forall|parent: Option<P>, index: usize, offset: usize|
                #![trigger self.with_parent(parent).with_position(index, offset)]
                self.with_parent(parent).with_position(index, offset) == self.with_position(
                    index,
                    offset,
                ).with_parent(parent),
    {
    }
}

impl<'a, P> Reader<'a> for SorSymbolsDecoder<P> where P: Reader<'a> + Default {
    open spec fn buf_ok(&self) -> bool {
        self.parent_view() is Some && self.parent_view().unwrap().buf_ok()
    }

    open spec fn buf(self) -> ReadBuf<'a> {
        self.parent_view().unwrap().buf()
    }

    fn get_buf(&self) -> (r: &ReadBuf<'a>) {
        self.parent.as_ref().expect("parent missing").get_buf()
    }
}

impl<'a, P> Decoder<'a> for SorSymbolsDecoder<P> where P: Decoder<'a> + Default {
    open spec fn limit_view(self) -> usize {
        self.parent_view().unwrap().limit_view()
    }

    open spec fn with_limit(self, limit: usize) -> Self {
        self.with_parent(Some(self.parent_view().unwrap().with_limit(limit)))
    }

    proof fn lemma_with_limit(self) {
        self.parent_view().unwrap().lemma_with_limit();
        self.lemma_frame();
    }

    fn get_limit(&self) -> (r: usize) {
        self.parent.as_ref().expect("parent missing").get_limit()
    }

    fn set_limit(&mut self, limit: usize) {
        self.parent.as_mut().expect("parent missing").set_limit(limit);
    }
}

impl<'a, P> SorSymbolsDecoder<P> where P: Decoder<'a> + Default {
    /// This codec stands where `pre` stood, but for the limit, which is at
    /// `limit`.
    pub open spec fn placed_as(self, pre: Self, limit: usize) -> bool {
        &&& self.buf_ok()
        &&& self.limit_view() == limit
        &&& self.block_length_view() == pre.block_length_view()
        &&& self.count_view() == pre.count_view()
        &&& self.index_view() == pre.index_view()
        &&& self.offset_view() == pre.offset_view()
        &&& self.buf() == pre.buf()
    }

    /// Where the walk over the elements stands.
    pub open spec fn cursor(self) -> Cursor {
        Cursor {
            count: self.count_view() as u32,
            index: self.index_view(),
            offset: self.offset_view(),
            block_length: self.block_length_view(),
            limit: self.limit_view(),
        }
    }

    /// What `wrap` makes of `parent`: block length and count are those of
    /// the size prefix at the parent's limit, the limit stands behind the
    /// prefix, and the codec stands before the first element.
    pub open spec fn opened(self, parent: P) -> bool {
        &&& self.block_length_view() == read_u16(parent.buf()@, parent.limit_view() as int)
        &&& self.count_view() == read_u32(parent.buf()@, parent.limit_view() + 2)
        &&& self.index_view() == usize::MAX
        &&& self.offset_view() == 0
        &&& self.buf_ok()
        &&& self.buf() == parent.buf()
        &&& self.limit_view() == parent.limit_view() + 6
        &&& self.parent_view() == Some(parent.with_limit((parent.limit_view() + 6) as usize))
    }

    /// Opens the group at the parent's limit.
    pub fn wrap(self, parent: P) -> (r: Self)
        requires
            parent.buf_ok(),
            parent.limit_view() + 6 <= parent.buf()@.len(),
        ensures
            r.opened(parent),
    {
        let mut parent = parent;
        proof {
            parent.buf().lemma_len();
            parent.lemma_with_limit();
            self.lemma_frame();
        }
        let initial_offset = parent.get_limit();
        let block_length = parent.get_buf().get_u16_at(initial_offset) as usize;
        let count = parent.get_buf().get_u32_at(initial_offset + 2);
        parent.set_limit(initial_offset + 6);
        let mut this = self;
        this.parent = Some(parent);
        this.block_length = block_length;
        this.count = count;
        this.index = usize::MAX;
        this.offset = 0;
        this
    }

    /// Hands the parent back; after that this codec reaches no buffer.
    pub fn parent(&mut self) -> (r: SbeResult<P>)
        ensures
            r == match old(self).parent_view() {
                Some(p) => Ok::<P, SbeErr>(p),
                None => Err::<P, SbeErr>(SbeErr::ParentNotSet),
            },
            *final(self) == old(self).with_parent(None),
    {
        self.parent.take().ok_or(SbeErr::ParentNotSet)
    }

    /// The number of elements that the group declares.
    pub fn count(&self) -> (r: u32)
        ensures
            r == self.count_view(),
    {
        self.count
    }

    /// An element is left to move to, and the parent is there to move in.
    pub open spec fn can_advance(self) -> bool {
        has_next(self.cursor()) && self.parent_view() is Some
    }

    /// What `advance` makes of `pre` where it moves: the cursor has taken
    /// one step, and all else is as it was.
    pub open spec fn advanced(self, pre: Self) -> bool {
        &&& self.cursor() == step(pre.cursor())
        &&& self.buf_ok()
        &&& self.buf() == pre.buf()
        &&& self == pre.with_limit(step(pre.cursor()).limit).with_position(
            step(pre.cursor()).index,
            step(pre.cursor()).offset,
        )
    }

    /// Moves to the next element, if one is left: it begins at the limit,
    /// and the limit moves behind its fixed fields.
    pub fn advance(&mut self) -> (r: SbeResult<Option<usize>>)
        requires
            old(self).can_advance() ==> old(self).buf_ok() && old(self).limit_view() + old(
                self,
            ).cursor().block_length <= usize::MAX,
        ensures
            r == advance_result(old(self).cursor(), old(self).parent_view() is Some),
            old(self).can_advance() ==> final(self).advanced(*old(self)),
            !old(self).can_advance() ==> *final(self) == *old(self),
    {
        proof {
            self.lemma_frame();
            if self.parent_view() is Some {
                self.with_limit(step(self.cursor()).limit).lemma_frame();
            }
        }
        let index = self.index.wrapping_add(1);
        if index >= self.count as usize {
            return Ok(None);
        }
        if let Some(parent) = self.parent.as_mut() {
            proof {
                parent.lemma_with_limit();
            }
            self.offset = parent.get_limit();
            parent.set_limit(self.offset + self.block_length);
            self.index = index;
            Ok(Some(index))
        } else {
            Err(SbeErr::ParentNotSet)
        }
    }

    /// `symbol`: where its bytes begin and how many they are, by the `u8`
    /// length at the limit. The limit moves behind them.
    pub fn symbol_decoder(&mut self) -> (r: (usize, usize))
        requires
            old(self).buf_ok(),
            old(self).limit_view() + 1 <= old(self).buf()@.len(),
            old(self).limit_view() + 1 + read_u8(old(self).buf()@, old(self).limit_view() as int)
                <= usize::MAX,
        ensures
            r.0 == old(self).limit_view() + 1,
            r.1 == read_u8(old(self).buf()@, old(self).limit_view() as int),
            final(self).placed_as(*old(self), (r.0 + r.1) as usize),
            *final(self) == old(self).with_limit((r.0 + r.1) as usize),
    {
        proof {
            self.buf().lemma_len();
            self.lemma_with_limit();
            self.lemma_frame();
        }
        let offset = self.get_limit();
        let data_length = self.get_buf().get_u8_at(offset) as usize;
        self.set_limit(offset + 1 + data_length);
        (offset + 1, data_length)
    }

    /// The bytes of `symbol` at the coordinates that `symbol_decoder` gave.
    pub fn symbol_slice(&'a self, coordinates: (usize, usize)) -> (r: &'a [u8])
        requires
            self.buf_ok(),
            coordinates.0 + coordinates.1 <= self.limit_view(),
            coordinates.0 + coordinates.1 <= self.buf()@.len(),
        ensures
            r@ == self.buf()@.subrange(coordinates.0 as int, coordinates.0 + coordinates.1),
    {
        self.get_buf().get_slice_at(coordinates.0, coordinates.1)
    }
}

} // verus!
