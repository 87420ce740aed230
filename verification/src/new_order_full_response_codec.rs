//! The message `NewOrderFullResponse`, template 302 of schema 1.
use crate::bool_enum::BoolEnum;
use crate::buffer::{ReadBuf, WriteBuf};
use crate::codec::{Decoder, Encoder, Reader, SbeErr, SbeResult, Writer};
use crate::floor::Floor;
use crate::group::{Cursor, advance_result, has_next, step};
use crate::match_type::MatchType;
use crate::message_header_codec::{MessageHeaderDecoder, MessageHeaderEncoder, write_header};
use crate::order_capacity::OrderCapacity;
use crate::order_side::OrderSide;
use crate::order_status::OrderStatus;
use crate::order_type::OrderType;
use crate::self_trade_prevention_mode::SelfTradePreventionMode;
use crate::time_in_force::TimeInForce;
use crate::wire::{
    absent_if, laid, lemma_laid, lemma_next_field, lemma_read_spelled,
    lemma_read_spelled_unsigned, lemma_round_trip_32, lemma_round_trip_64, lemma_round_trip_8,
    lemma_side_by_side_wider, lemma_u32_value, lemma_u64_value, read_i32, read_i64, read_i8,
    read_u16, read_u32, read_u8, u32_of, u32_to_le, u64_of, u64_to_le, u8_of, write_group_size,
    write_i32, write_i64, write_i8, write_u8, write_var_u8,
};
use vstd::string::StringSliceAdditionalSpecFns;
use vstd::prelude::*;

verus! {

/// The bytes that the fixed block of this message takes.
pub const SBE_BLOCK_LENGTH: u16 = 134;

pub const SBE_TEMPLATE_ID: u16 = 302;

pub const SBE_SCHEMA_ID: u16 = 1;

pub const SBE_SCHEMA_VERSION: u16 = 0;

pub const SBE_SEMANTIC_VERSION: &'static str = "5.2";

#[derive(Debug)]
pub struct NewOrderFullResponseEncoder<'a> {
    buf: WriteBuf<'a>,
    initial_offset: usize,
    offset: usize,
    limit: usize,
}

impl<'a> Default for NewOrderFullResponseEncoder<'a> {
    fn default() -> (r: Self)
        ensures
            r.buf()@.len() == 0,
            r.initial_offset_view() == 0,
            r.offset_view() == 0,
            r.limit_view() == 0,
    {
        Self { buf: WriteBuf::default(), initial_offset: 0, offset: 0, limit: 0 }
    }
}

impl<'a> Writer<'a> for NewOrderFullResponseEncoder<'a> {
    open spec fn buf_ok(&self) -> bool {
        true
    }

    closed spec fn buf(self) -> WriteBuf<'a> {
        self.buf
    }

    closed spec fn with_buf(self, buf: WriteBuf<'a>) -> Self {
        Self { buf, ..self }
    }

    proof fn lemma_with_buf(self) {
    }

    proof fn lemma_resolved(self) {
        self.lemma_buf_resolved();
        self.buf.lemma_resolved();
    }

    fn get_buf_mut(&mut self) -> (r: &mut WriteBuf<'a>) {
        &mut self.buf
    }
}

impl<'a> Encoder<'a> for NewOrderFullResponseEncoder<'a> {
    closed spec fn limit_view(self) -> usize {
        self.limit
    }

    closed spec fn with_limit(self, limit: usize) -> Self {
        Self { limit, ..self }
    }

    proof fn lemma_with_limit(self) {
    }

    fn get_limit(&self) -> (r: usize) {
        self.limit
    }

    fn set_limit(&mut self, limit: usize) {
        self.limit = limit;
    }
}

impl<'a> NewOrderFullResponseEncoder<'a> {
    /// Where nothing writes through this encoder any more, nothing writes
    /// through its buffer.
    proof fn lemma_buf_resolved(self)
        requires
            has_resolved(self),
        ensures
            has_resolved(self.buf),
    {
    }

    pub closed spec fn initial_offset_view(self) -> usize {
        self.initial_offset
    }

    /// Where the fixed block begins.
    pub closed spec fn offset_view(self) -> usize {
        self.offset
    }

    /// This encoder stands where `pre` stood, but for the limit, which is
    /// at `limit` (what the buffer holds may differ).
    pub open spec fn placed_as(self, pre: Self, limit: usize) -> bool {
        &&& self.limit_view() == limit
        &&& self.offset_view() == pre.offset_view()
        &&& self.initial_offset_view() == pre.initial_offset_view()
    }

    /// Exchanging the buffer or the limit leaves the offsets alone.
    pub proof fn lemma_frame(self)
        ensures
            forall|buf: WriteBuf<'a>|
                #![trigger self.with_buf(buf)]
                self.with_buf(buf).offset_view() == self.offset_view() && self.with_buf(
                    buf,
                ).initial_offset_view() == self.initial_offset_view(),
            forall|limit: usize|
                #![trigger self.with_limit(limit)]
                self.with_limit(limit).offset_view() == self.offset_view() && self.with_limit(
                    limit,
                ).initial_offset_view() == self.initial_offset_view(),
    {
    }

    /// Places the encoder over `buf` with its fixed block at `offset`; the
    /// limit stands behind the block.
    pub fn wrap(self, buf: WriteBuf<'a>, offset: usize) -> (r: Self)
        requires
            offset + SBE_BLOCK_LENGTH <= usize::MAX,
        ensures
            r.buf() == buf,
            r.initial_offset_view() == offset,
            r.offset_view() == offset,
            r.limit_view() == offset + SBE_BLOCK_LENGTH,
    {
        let limit = offset + SBE_BLOCK_LENGTH as usize;
        let mut this = self;
        this.buf = buf;
        this.initial_offset = offset;
        this.offset = offset;
        this.limit = limit;
        this
    }

    /// The bytes from the start of the block to the limit.
    pub fn encoded_length(&self) -> (r: usize)
        requires
            self.offset_view() <= self.limit_view(),
        ensures
            r == self.limit_view() - self.offset_view(),
    {
        self.limit - self.offset
    }

    /// Writes the header of this message at `offset` and hands out the
    /// header's encoder, which holds this encoder as its parent.
    pub fn header(self, offset: usize) -> (r: MessageHeaderEncoder<Self>)
        requires
            offset + 8 <= self.buf()@.len(),
        ensures
            r.offset_view() == offset,
            r.parent_view() is Some,
            r.buf()@ == write_header(
                self.buf()@,
                offset as int,
                SBE_BLOCK_LENGTH,
                SBE_TEMPLATE_ID,
                SBE_SCHEMA_ID,
                SBE_SCHEMA_VERSION,
            ),
            r.buf()@.len() == self.buf()@.len(),
            final(r.buf().target())@ == final(self.buf().target())@,
            r.parent_view().unwrap().placed_as(self, self.limit_view()),
            r.parent_view().unwrap() == self.with_buf(r.buf()),
    {
        proof {
            self.buf().lemma_len();
            self.lemma_frame();
        }
        let mut header = MessageHeaderEncoder::default().wrap(self, offset);
        proof {
            header.lemma_frame();
            header.lemma_with_buf();
            self.lemma_with_buf();
        }
        header.block_length(SBE_BLOCK_LENGTH);
        proof {
            header.lemma_frame();
            header.lemma_with_buf();
            header.parent_view().unwrap().lemma_with_buf();
        }
        header.template_id(SBE_TEMPLATE_ID);
        proof {
            header.lemma_frame();
            header.lemma_with_buf();
            header.parent_view().unwrap().lemma_with_buf();
        }
        header.schema_id(SBE_SCHEMA_ID);
        proof {
            header.lemma_frame();
            header.lemma_with_buf();
            header.parent_view().unwrap().lemma_with_buf();
        }
        header.version(SBE_SCHEMA_VERSION);
        header
    }

    /// `priceExponent`: an `i8` at byte 0 of the block.
    pub fn price_exponent(&mut self, value: i8)
        requires
            old(self).offset_view() + 1 <= old(self).buf()@.len(),
        ensures
            final(self).buf()@ == write_i8(old(self).buf()@, old(self).offset_view() as int, value),
            final(self).buf()@.len() == old(self).buf()@.len(),
            final(final(self).buf().target())@ == final(old(self).buf().target())@,
            final(self).placed_as(*old(self), old(self).limit_view()),
            *final(self) == old(self).with_buf(final(self).buf()),
    {
        proof {
            self.buf().lemma_len();
            self.lemma_with_buf();
            self.lemma_frame();
            self.lemma_with_limit();
        }
        let offset = self.offset;
        self.get_buf_mut().put_i8_at(offset, value);
    }

    /// `qtyExponent`: an `i8` at byte 1 of the block.
    pub fn qty_exponent(&mut self, value: i8)
        requires
            old(self).offset_view() + 2 <= old(self).buf()@.len(),
        ensures
            final(self).buf()@ == write_i8(old(self).buf()@, old(self).offset_view() + 1, value),
            final(self).buf()@.len() == old(self).buf()@.len(),
            final(final(self).buf().target())@ == final(old(self).buf().target())@,
            final(self).placed_as(*old(self), old(self).limit_view()),
            *final(self) == old(self).with_buf(final(self).buf()),
    {
        proof {
            self.buf().lemma_len();
            self.lemma_with_buf();
            self.lemma_frame();
            self.lemma_with_limit();
        }
        let offset = self.offset + 1;
        self.get_buf_mut().put_i8_at(offset, value);
    }

    /// `orderId`: an `i64` at byte 2 of the block.
    pub fn order_id(&mut self, value: i64)
        requires
            old(self).offset_view() + 10 <= old(self).buf()@.len(),
        ensures
            final(self).buf()@ == write_i64(old(self).buf()@, old(self).offset_view() + 2, value),
            final(self).buf()@.len() == old(self).buf()@.len(),
            final(final(self).buf().target())@ == final(old(self).buf().target())@,
            final(self).placed_as(*old(self), old(self).limit_view()),
            *final(self) == old(self).with_buf(final(self).buf()),
    {
        proof {
            self.buf().lemma_len();
            self.lemma_with_buf();
            self.lemma_frame();
            self.lemma_with_limit();
        }
        let offset = self.offset + 2;
        self.get_buf_mut().put_i64_at(offset, value);
    }

    /// `orderListId`: an `i64` at byte 10 of the block.
    pub fn order_list_id(&mut self, value: i64)
        requires
            old(self).offset_view() + 18 <= old(self).buf()@.len(),
        ensures
            final(self).buf()@ == write_i64(old(self).buf()@, old(self).offset_view() + 10, value),
            final(self).buf()@.len() == old(self).buf()@.len(),
            final(final(self).buf().target())@ == final(old(self).buf().target())@,
            final(self).placed_as(*old(self), old(self).limit_view()),
            *final(self) == old(self).with_buf(final(self).buf()),
    {
        proof {
            self.buf().lemma_len();
            self.lemma_with_buf();
            self.lemma_frame();
            self.lemma_with_limit();
        }
        let offset = self.offset + 10;
        self.get_buf_mut().put_i64_at(offset, value);
    }

    /// `transactTime`: an `i64` at byte 18 of the block.
    pub fn transact_time(&mut self, value: i64)
        requires
            old(self).offset_view() + 26 <= old(self).buf()@.len(),
        ensures
            final(self).buf()@ == write_i64(old(self).buf()@, old(self).offset_view() + 18, value),
            final(self).buf()@.len() == old(self).buf()@.len(),
            final(final(self).buf().target())@ == final(old(self).buf().target())@,
            final(self).placed_as(*old(self), old(self).limit_view()),
            *final(self) == old(self).with_buf(final(self).buf()),
    {
        proof {
            self.buf().lemma_len();
            self.lemma_with_buf();
            self.lemma_frame();
            self.lemma_with_limit();
        }
        let offset = self.offset + 18;
        self.get_buf_mut().put_i64_at(offset, value);
    }

    /// `price`: an `i64` at byte 26 of the block.
    pub fn price(&mut self, value: i64)
        requires
            old(self).offset_view() + 34 <= old(self).buf()@.len(),
        ensures
            final(self).buf()@ == write_i64(old(self).buf()@, old(self).offset_view() + 26, value),
            final(self).buf()@.len() == old(self).buf()@.len(),
            final(final(self).buf().target())@ == final(old(self).buf().target())@,
            final(self).placed_as(*old(self), old(self).limit_view()),
            *final(self) == old(self).with_buf(final(self).buf()),
    {
        proof {
            self.buf().lemma_len();
            self.lemma_with_buf();
            self.lemma_frame();
            self.lemma_with_limit();
        }
        let offset = self.offset + 26;
        self.get_buf_mut().put_i64_at(offset, value);
    }

    /// `origQty`: an `i64` at byte 34 of the block.
    pub fn orig_qty(&mut self, value: i64)
        requires
            old(self).offset_view() + 42 <= old(self).buf()@.len(),
        ensures
            final(self).buf()@ == write_i64(old(self).buf()@, old(self).offset_view() + 34, value),
            final(self).buf()@.len() == old(self).buf()@.len(),
            final(final(self).buf().target())@ == final(old(self).buf().target())@,
            final(self).placed_as(*old(self), old(self).limit_view()),
            *final(self) == old(self).with_buf(final(self).buf()),
    {
        proof {
            self.buf().lemma_len();
            self.lemma_with_buf();
            self.lemma_frame();
            self.lemma_with_limit();
        }
        let offset = self.offset + 34;
        self.get_buf_mut().put_i64_at(offset, value);
    }

    /// `executedQty`: an `i64` at byte 42 of the block.
    pub fn executed_qty(&mut self, value: i64)
        requires
            old(self).offset_view() + 50 <= old(self).buf()@.len(),
        ensures
            final(self).buf()@ == write_i64(old(self).buf()@, old(self).offset_view() + 42, value),
            final(self).buf()@.len() == old(self).buf()@.len(),
            final(final(self).buf().target())@ == final(old(self).buf().target())@,
            final(self).placed_as(*old(self), old(self).limit_view()),
            *final(self) == old(self).with_buf(final(self).buf()),
    {
        proof {
            self.buf().lemma_len();
            self.lemma_with_buf();
            self.lemma_frame();
            self.lemma_with_limit();
        }
        let offset = self.offset + 42;
        self.get_buf_mut().put_i64_at(offset, value);
    }

    /// `cummulativeQuoteQty`: an `i64` at byte 50 of the block.
    pub fn cummulative_quote_qty(&mut self, value: i64)
        requires
            old(self).offset_view() + 58 <= old(self).buf()@.len(),
        ensures
            final(self).buf()@ == write_i64(old(self).buf()@, old(self).offset_view() + 50, value),
            final(self).buf()@.len() == old(self).buf()@.len(),
            final(final(self).buf().target())@ == final(old(self).buf().target())@,
            final(self).placed_as(*old(self), old(self).limit_view()),
            *final(self) == old(self).with_buf(final(self).buf()),
    {
        proof {
            self.buf().lemma_len();
            self.lemma_with_buf();
            self.lemma_frame();
            self.lemma_with_limit();
        }
        let offset = self.offset + 50;
        self.get_buf_mut().put_i64_at(offset, value);
    }

    /// `status`: the code of a `OrderStatus` at byte 58 of the block.
    pub fn status(&mut self, value: OrderStatus)
        requires
            old(self).offset_view() + 59 <= old(self).buf()@.len(),
        ensures
            final(self).buf()@ == write_u8(
                old(self).buf()@,
                old(self).offset_view() + 58,
                value.code_view(),
            ),
            final(self).buf()@.len() == old(self).buf()@.len(),
            final(final(self).buf().target())@ == final(old(self).buf().target())@,
            final(self).placed_as(*old(self), old(self).limit_view()),
            *final(self) == old(self).with_buf(final(self).buf()),
    {
        proof {
            self.buf().lemma_len();
            self.lemma_with_buf();
            self.lemma_frame();
            self.lemma_with_limit();
        }
        let offset = self.offset + 58;
        self.get_buf_mut().put_u8_at(offset, value.code());
    }

    /// `timeInForce`: the code of a `TimeInForce` at byte 59 of the block.
    pub fn time_in_force(&mut self, value: TimeInForce)
        requires
            old(self).offset_view() + 60 <= old(self).buf()@.len(),
        ensures
            final(self).buf()@ == write_u8(
                old(self).buf()@,
                old(self).offset_view() + 59,
                value.code_view(),
            ),
            final(self).buf()@.len() == old(self).buf()@.len(),
            final(final(self).buf().target())@ == final(old(self).buf().target())@,
            final(self).placed_as(*old(self), old(self).limit_view()),
            *final(self) == old(self).with_buf(final(self).buf()),
    {
        proof {
            self.buf().lemma_len();
            self.lemma_with_buf();
            self.lemma_frame();
            self.lemma_with_limit();
        }
        let offset = self.offset + 59;
        self.get_buf_mut().put_u8_at(offset, value.code());
    }

    /// `orderType`: the code of a `OrderType` at byte 60 of the block.
    pub fn order_type(&mut self, value: OrderType)
        requires
            old(self).offset_view() + 61 <= old(self).buf()@.len(),
        ensures
            final(self).buf()@ == write_u8(
                old(self).buf()@,
                old(self).offset_view() + 60,
                value.code_view(),
            ),
            final(self).buf()@.len() == old(self).buf()@.len(),
            final(final(self).buf().target())@ == final(old(self).buf().target())@,
            final(self).placed_as(*old(self), old(self).limit_view()),
            *final(self) == old(self).with_buf(final(self).buf()),
    {
        proof {
            self.buf().lemma_len();
            self.lemma_with_buf();
            self.lemma_frame();
            self.lemma_with_limit();
        }
        let offset = self.offset + 60;
        self.get_buf_mut().put_u8_at(offset, value.code());
    }

    /// `side`: the code of a `OrderSide` at byte 61 of the block.
    pub fn side(&mut self, value: OrderSide)
        requires
            old(self).offset_view() + 62 <= old(self).buf()@.len(),
        ensures
            final(self).buf()@ == write_u8(
                old(self).buf()@,
                old(self).offset_view() + 61,
                value.code_view(),
            ),
            final(self).buf()@.len() == old(self).buf()@.len(),
            final(final(self).buf().target())@ == final(old(self).buf().target())@,
            final(self).placed_as(*old(self), old(self).limit_view()),
            *final(self) == old(self).with_buf(final(self).buf()),
    {
        proof {
            self.buf().lemma_len();
            self.lemma_with_buf();
            self.lemma_frame();
            self.lemma_with_limit();
        }
        let offset = self.offset + 61;
        self.get_buf_mut().put_u8_at(offset, value.code());
    }

    /// `stopPrice`: an `i64` at byte 62 of the block.
    pub fn stop_price(&mut self, value: i64)
        requires
            old(self).offset_view() + 70 <= old(self).buf()@.len(),
        ensures
            final(self).buf()@ == write_i64(old(self).buf()@, old(self).offset_view() + 62, value),
            final(self).buf()@.len() == old(self).buf()@.len(),
            final(final(self).buf().target())@ == final(old(self).buf().target())@,
            final(self).placed_as(*old(self), old(self).limit_view()),
            *final(self) == old(self).with_buf(final(self).buf()),
    {
        proof {
            self.buf().lemma_len();
            self.lemma_with_buf();
            self.lemma_frame();
            self.lemma_with_limit();
        }
        let offset = self.offset + 62;
        self.get_buf_mut().put_i64_at(offset, value);
    }

    /// `trailingDelta`: an `i64` at byte 70 of the block.
    pub fn trailing_delta(&mut self, value: i64)
        requires
            old(self).offset_view() + 78 <= old(self).buf()@.len(),
        ensures
            final(self).buf()@ == write_i64(old(self).buf()@, old(self).offset_view() + 70, value),
            final(self).buf()@.len() == old(self).buf()@.len(),
            final(final(self).buf().target())@ == final(old(self).buf().target())@,
            final(self).placed_as(*old(self), old(self).limit_view()),
            *final(self) == old(self).with_buf(final(self).buf()),
    {
        proof {
            self.buf().lemma_len();
            self.lemma_with_buf();
            self.lemma_frame();
            self.lemma_with_limit();
        }
        let offset = self.offset + 70;
        self.get_buf_mut().put_i64_at(offset, value);
    }

    /// `trailingTime`: an `i64` at byte 78 of the block.
    pub fn trailing_time(&mut self, value: i64)
        requires
            old(self).offset_view() + 86 <= old(self).buf()@.len(),
        ensures
            final(self).buf()@ == write_i64(old(self).buf()@, old(self).offset_view() + 78, value),
            final(self).buf()@.len() == old(self).buf()@.len(),
            final(final(self).buf().target())@ == final(old(self).buf().target())@,
            final(self).placed_as(*old(self), old(self).limit_view()),
            *final(self) == old(self).with_buf(final(self).buf()),
    {
        proof {
            self.buf().lemma_len();
            self.lemma_with_buf();
            self.lemma_frame();
            self.lemma_with_limit();
        }
        let offset = self.offset + 78;
        self.get_buf_mut().put_i64_at(offset, value);
    }

    /// `workingTime`: an `i64` at byte 86 of the block.
    pub fn working_time(&mut self, value: i64)
        requires
            old(self).offset_view() + 94 <= old(self).buf()@.len(),
        ensures
            final(self).buf()@ == write_i64(old(self).buf()@, old(self).offset_view() + 86, value),
            final(self).buf()@.len() == old(self).buf()@.len(),
            final(final(self).buf().target())@ == final(old(self).buf().target())@,
            final(self).placed_as(*old(self), old(self).limit_view()),
            *final(self) == old(self).with_buf(final(self).buf()),
    {
        proof {
            self.buf().lemma_len();
            self.lemma_with_buf();
            self.lemma_frame();
            self.lemma_with_limit();
        }
        let offset = self.offset + 86;
        self.get_buf_mut().put_i64_at(offset, value);
    }

    /// `icebergQty`: an `i64` at byte 94 of the block.
    pub fn iceberg_qty(&mut self, value: i64)
        requires
            old(self).offset_view() + 102 <= old(self).buf()@.len(),
        ensures
            final(self).buf()@ == write_i64(old(self).buf()@, old(self).offset_view() + 94, value),
            final(self).buf()@.len() == old(self).buf()@.len(),
            final(final(self).buf().target())@ == final(old(self).buf().target())@,
            final(self).placed_as(*old(self), old(self).limit_view()),
            *final(self) == old(self).with_buf(final(self).buf()),
    {
        proof {
            self.buf().lemma_len();
            self.lemma_with_buf();
            self.lemma_frame();
            self.lemma_with_limit();
        }
        let offset = self.offset + 94;
        self.get_buf_mut().put_i64_at(offset, value);
    }

    /// `strategyId`: an `i64` at byte 102 of the block.
    pub fn strategy_id(&mut self, value: i64)
        requires
            old(self).offset_view() + 110 <= old(self).buf()@.len(),
        ensures
            final(self).buf()@ == write_i64(old(self).buf()@, old(self).offset_view() + 102, value),
            final(self).buf()@.len() == old(self).buf()@.len(),
            final(final(self).buf().target())@ == final(old(self).buf().target())@,
            final(self).placed_as(*old(self), old(self).limit_view()),
            *final(self) == old(self).with_buf(final(self).buf()),
    {
        proof {
            self.buf().lemma_len();
            self.lemma_with_buf();
            self.lemma_frame();
            self.lemma_with_limit();
        }
        let offset = self.offset + 102;
        self.get_buf_mut().put_i64_at(offset, value);
    }

    /// `strategyType`: an `i32` at byte 110 of the block.
    pub fn strategy_type(&mut self, value: i32)
        requires
            old(self).offset_view() + 114 <= old(self).buf()@.len(),
        ensures
            final(self).buf()@ == write_i32(old(self).buf()@, old(self).offset_view() + 110, value),
            final(self).buf()@.len() == old(self).buf()@.len(),
            final(final(self).buf().target())@ == final(old(self).buf().target())@,
            final(self).placed_as(*old(self), old(self).limit_view()),
            *final(self) == old(self).with_buf(final(self).buf()),
    {
        proof {
            self.buf().lemma_len();
            self.lemma_with_buf();
            self.lemma_frame();
            self.lemma_with_limit();
        }
        let offset = self.offset + 110;
        self.get_buf_mut().put_i32_at(offset, value);
    }

    /// `orderCapacity`: the code of a `OrderCapacity` at byte 114 of the block.
    pub fn order_capacity(&mut self, value: OrderCapacity)
        requires
            old(self).offset_view() + 115 <= old(self).buf()@.len(),
        ensures
            final(self).buf()@ == write_u8(
                old(self).buf()@,
                old(self).offset_view() + 114,
                value.code_view(),
            ),
            final(self).buf()@.len() == old(self).buf()@.len(),
            final(final(self).buf().target())@ == final(old(self).buf().target())@,
            final(self).placed_as(*old(self), old(self).limit_view()),
            *final(self) == old(self).with_buf(final(self).buf()),
    {
        proof {
            self.buf().lemma_len();
            self.lemma_with_buf();
            self.lemma_frame();
            self.lemma_with_limit();
        }
        let offset = self.offset + 114;
        self.get_buf_mut().put_u8_at(offset, value.code());
    }

    /// `workingFloor`: the code of a `Floor` at byte 115 of the block.
    pub fn working_floor(&mut self, value: Floor)
        requires
            old(self).offset_view() + 116 <= old(self).buf()@.len(),
        ensures
            final(self).buf()@ == write_u8(
                old(self).buf()@,
                old(self).offset_view() + 115,
                value.code_view(),
            ),
            final(self).buf()@.len() == old(self).buf()@.len(),
            final(final(self).buf().target())@ == final(old(self).buf().target())@,
            final(self).placed_as(*old(self), old(self).limit_view()),
            *final(self) == old(self).with_buf(final(self).buf()),
    {
        proof {
            self.buf().lemma_len();
            self.lemma_with_buf();
            self.lemma_frame();
            self.lemma_with_limit();
        }
        let offset = self.offset + 115;
        self.get_buf_mut().put_u8_at(offset, value.code());
    }

    /// `selfTradePreventionMode`:
    /// the code of a `SelfTradePreventionMode` at byte 116 of the block.
    pub fn self_trade_prevention_mode(&mut self, value: SelfTradePreventionMode)
        requires
            old(self).offset_view() + 117 <= old(self).buf()@.len(),
        ensures
            final(self).buf()@ == write_u8(
                old(self).buf()@,
                old(self).offset_view() + 116,
                value.code_view(),
            ),
            final(self).buf()@.len() == old(self).buf()@.len(),
            final(final(self).buf().target())@ == final(old(self).buf().target())@,
            final(self).placed_as(*old(self), old(self).limit_view()),
            *final(self) == old(self).with_buf(final(self).buf()),
    {
        proof {
            self.buf().lemma_len();
            self.lemma_with_buf();
            self.lemma_frame();
            self.lemma_with_limit();
        }
        let offset = self.offset + 116;
        self.get_buf_mut().put_u8_at(offset, value.code());
    }

    /// `tradeGroupId`: an `i64` at byte 117 of the block.
    pub fn trade_group_id(&mut self, value: i64)
        requires
            old(self).offset_view() + 125 <= old(self).buf()@.len(),
        ensures
            final(self).buf()@ == write_i64(old(self).buf()@, old(self).offset_view() + 117, value),
            final(self).buf()@.len() == old(self).buf()@.len(),
            final(final(self).buf().target())@ == final(old(self).buf().target())@,
            final(self).placed_as(*old(self), old(self).limit_view()),
            *final(self) == old(self).with_buf(final(self).buf()),
    {
        proof {
            self.buf().lemma_len();
            self.lemma_with_buf();
            self.lemma_frame();
            self.lemma_with_limit();
        }
        let offset = self.offset + 117;
        self.get_buf_mut().put_i64_at(offset, value);
    }

    /// `preventedQuantity`: an `i64` at byte 125 of the block.
    pub fn prevented_quantity(&mut self, value: i64)
        requires
            old(self).offset_view() + 133 <= old(self).buf()@.len(),
        ensures
            final(self).buf()@ == write_i64(old(self).buf()@, old(self).offset_view() + 125, value),
            final(self).buf()@.len() == old(self).buf()@.len(),
            final(final(self).buf().target())@ == final(old(self).buf().target())@,
            final(self).placed_as(*old(self), old(self).limit_view()),
            *final(self) == old(self).with_buf(final(self).buf()),
    {
        proof {
            self.buf().lemma_len();
            self.lemma_with_buf();
            self.lemma_frame();
            self.lemma_with_limit();
        }
        let offset = self.offset + 125;
        self.get_buf_mut().put_i64_at(offset, value);
    }

    /// `usedSor`: the code of a `BoolEnum` at byte 133 of the block.
    pub fn used_sor(&mut self, value: BoolEnum)
        requires
            old(self).offset_view() + 134 <= old(self).buf()@.len(),
        ensures
            final(self).buf()@ == write_u8(
                old(self).buf()@,
                old(self).offset_view() + 133,
                value.code_view(),
            ),
            final(self).buf()@.len() == old(self).buf()@.len(),
            final(final(self).buf().target())@ == final(old(self).buf().target())@,
            final(self).placed_as(*old(self), old(self).limit_view()),
            *final(self) == old(self).with_buf(final(self).buf()),
    {
        proof {
            self.buf().lemma_len();
            self.lemma_with_buf();
            self.lemma_frame();
            self.lemma_with_limit();
        }
        let offset = self.offset + 133;
        self.get_buf_mut().put_u8_at(offset, value.code());
    }

    /// Opens the group `fills` for `count` elements: writes its size
    /// prefix at the limit and moves the limit behind it.
    pub fn fills_encoder(
        self,
        count: u32,
        fills_encoder: FillsEncoder<Self>,
    ) -> (r: FillsEncoder<Self>)
        requires
            self.limit_view() + 6 <= self.buf()@.len(),
        ensures
            r.opened(self, count),
            final(r.buf().target())@ == final(self.buf().target())@,
    {
        fills_encoder.wrap(self, count)
    }

    /// Opens the group `preventedMatches` for `count` elements: writes its size
    /// prefix at the limit and moves the limit behind it.
    pub fn prevented_matches_encoder(
        self,
        count: u32,
        prevented_matches_encoder: PreventedMatchesEncoder<Self>,
    ) -> (r: PreventedMatchesEncoder<Self>)
        requires
            self.limit_view() + 6 <= self.buf()@.len(),
        ensures
            r.opened(self, count),
            final(r.buf().target())@ == final(self.buf().target())@,
    {
        prevented_matches_encoder.wrap(self, count)
    }

    /// `symbol`: text behind a `u8` length, appended at the limit.
    /// A length that the prefix cannot hold is cut to its low bits.
    pub fn symbol(&mut self, value: &str)
        requires
            old(self).limit_view() + 1 + value.spec_bytes().len() <= old(self).buf()@.len(),
        ensures
            final(self).buf()@ == write_var_u8(
                old(self).buf()@,
                old(self).limit_view() as int,
                value.spec_bytes(),
            ),
            final(self).buf()@.len() == old(self).buf()@.len(),
            final(final(self).buf().target())@ == final(old(self).buf().target())@,
            final(self).placed_as(
                *old(self),
                (old(self).limit_view() + 1 + value.spec_bytes().len()) as usize,
            ),
            *final(self) == old(self).with_limit(
                (old(self).limit_view() + 1 + value.spec_bytes().len()) as usize,
            ).with_buf(final(self).buf()),
    {
        proof {
            self.buf().lemma_len();
            self.lemma_with_buf();
            self.lemma_with_limit();
            self.lemma_frame();
        }
        let limit = self.get_limit();
        let data_length = value.len();
        self.set_limit(limit + 1 + data_length);
        proof {
            self.lemma_with_buf();
            self.lemma_with_limit();
            self.lemma_frame();
        }
        self.get_buf_mut().put_u8_at(limit, #[verifier::truncate] (data_length as u8));
        proof {
            self.lemma_with_buf();
            self.lemma_with_limit();
            self.lemma_frame();
        }
        self.get_buf_mut().put_slice_at(limit + 1, value.as_bytes());
    }

    /// `clientOrderId`: text behind a `u8` length, appended at the limit.
    /// A length that the prefix cannot hold is cut to its low bits.
    pub fn client_order_id(&mut self, value: &str)
        requires
            old(self).limit_view() + 1 + value.spec_bytes().len() <= old(self).buf()@.len(),
        ensures
            final(self).buf()@ == write_var_u8(
                old(self).buf()@,
                old(self).limit_view() as int,
                value.spec_bytes(),
            ),
            final(self).buf()@.len() == old(self).buf()@.len(),
            final(final(self).buf().target())@ == final(old(self).buf().target())@,
            final(self).placed_as(
                *old(self),
                (old(self).limit_view() + 1 + value.spec_bytes().len()) as usize,
            ),
            *final(self) == old(self).with_limit(
                (old(self).limit_view() + 1 + value.spec_bytes().len()) as usize,
            ).with_buf(final(self).buf()),
    {
        proof {
            self.buf().lemma_len();
            self.lemma_with_buf();
            self.lemma_with_limit();
            self.lemma_frame();
        }
        let limit = self.get_limit();
        let data_length = value.len();
        self.set_limit(limit + 1 + data_length);
        proof {
            self.lemma_with_buf();
            self.lemma_with_limit();
            self.lemma_frame();
        }
        self.get_buf_mut().put_u8_at(limit, #[verifier::truncate] (data_length as u8));
        proof {
            self.lemma_with_buf();
            self.lemma_with_limit();
            self.lemma_frame();
        }
        self.get_buf_mut().put_slice_at(limit + 1, value.as_bytes());
    }
}

/// The bytes after every fixed field of the block at `base` was set
/// once, in the order of the fields: what the setters make of `s`.
#[verifier::opaque]
pub open spec fn block_written(
    s: Seq<u8>,
    base: int,
    price_exponent: i8,
    qty_exponent: i8,
    order_id: i64,
    order_list_id: i64,
    transact_time: i64,
    price: i64,
    orig_qty: i64,
    executed_qty: i64,
    cummulative_quote_qty: i64,
    status: OrderStatus,
    time_in_force: TimeInForce,
    order_type: OrderType,
    side: OrderSide,
    stop_price: i64,
    trailing_delta: i64,
    trailing_time: i64,
    working_time: i64,
    iceberg_qty: i64,
    strategy_id: i64,
    strategy_type: i32,
    order_capacity: OrderCapacity,
    working_floor: Floor,
    self_trade_prevention_mode: SelfTradePreventionMode,
    trade_group_id: i64,
    prevented_quantity: i64,
    used_sor: BoolEnum,
) -> Seq<u8> {
    let s = write_i8(s, base, price_exponent);
    let s = write_i8(s, base + 1, qty_exponent);
    let s = write_i64(s, base + 2, order_id);
    let s = write_i64(s, base + 10, order_list_id);
    let s = write_i64(s, base + 18, transact_time);
    let s = write_i64(s, base + 26, price);
    let s = write_i64(s, base + 34, orig_qty);
    let s = write_i64(s, base + 42, executed_qty);
    let s = write_i64(s, base + 50, cummulative_quote_qty);
    let s = write_u8(s, base + 58, status.code_view());
    let s = write_u8(s, base + 59, time_in_force.code_view());
    let s = write_u8(s, base + 60, order_type.code_view());
    let s = write_u8(s, base + 61, side.code_view());
    let s = write_i64(s, base + 62, stop_price);
    let s = write_i64(s, base + 70, trailing_delta);
    let s = write_i64(s, base + 78, trailing_time);
    let s = write_i64(s, base + 86, working_time);
    let s = write_i64(s, base + 94, iceberg_qty);
    let s = write_i64(s, base + 102, strategy_id);
    let s = write_i32(s, base + 110, strategy_type);
    let s = write_u8(s, base + 114, order_capacity.code_view());
    let s = write_u8(s, base + 115, working_floor.code_view());
    let s = write_u8(s, base + 116, self_trade_prevention_mode.code_view());
    let s = write_i64(s, base + 117, trade_group_id);
    let s = write_i64(s, base + 125, prevented_quantity);
    let s = write_u8(s, base + 133, used_sor.code_view());
    s
}

/// Every fixed field of the block is read as it was set: the fields
/// lie side by side within the block, and the length is as it was.
pub proof fn lemma_block_round_trip(
    s: Seq<u8>,
    base: int,
    price_exponent: i8,
    qty_exponent: i8,
    order_id: i64,
    order_list_id: i64,
    transact_time: i64,
    price: i64,
    orig_qty: i64,
    executed_qty: i64,
    cummulative_quote_qty: i64,
    status: OrderStatus,
    time_in_force: TimeInForce,
    order_type: OrderType,
    side: OrderSide,
    stop_price: i64,
    trailing_delta: i64,
    trailing_time: i64,
    working_time: i64,
    iceberg_qty: i64,
    strategy_id: i64,
    strategy_type: i32,
    order_capacity: OrderCapacity,
    working_floor: Floor,
    self_trade_prevention_mode: SelfTradePreventionMode,
    trade_group_id: i64,
    prevented_quantity: i64,
    used_sor: BoolEnum,
)
    requires
        0 <= base,
        base + SBE_BLOCK_LENGTH <= s.len(),
    ensures
        ({
            let t = block_written(
                s,
                base,
                price_exponent,
                qty_exponent,
                order_id,
                order_list_id,
                transact_time,
                price,
                orig_qty,
                executed_qty,
                cummulative_quote_qty,
                status,
                time_in_force,
                order_type,
                side,
                stop_price,
                trailing_delta,
                trailing_time,
                working_time,
                iceberg_qty,
                strategy_id,
                strategy_type,
                order_capacity,
                working_floor,
                self_trade_prevention_mode,
                trade_group_id,
                prevented_quantity,
                used_sor,
            );
            &&& t.len() == s.len()
            &&& read_i8(t, base) == price_exponent
            &&& read_i8(t, base + 1) == qty_exponent
            &&& read_i64(t, base + 2) == order_id
            &&& read_i64(t, base + 10) == order_list_id
            &&& read_i64(t, base + 18) == transact_time
            &&& read_i64(t, base + 26) == price
            &&& read_i64(t, base + 34) == orig_qty
            &&& read_i64(t, base + 42) == executed_qty
            &&& read_i64(t, base + 50) == cummulative_quote_qty
            &&& OrderStatus::of_code(read_u8(t, base + 58)) == status
            &&& TimeInForce::of_code(read_u8(t, base + 59)) == time_in_force
            &&& OrderType::of_code(read_u8(t, base + 60)) == order_type
            &&& OrderSide::of_code(read_u8(t, base + 61)) == side
            &&& read_i64(t, base + 62) == stop_price
            &&& read_i64(t, base + 70) == trailing_delta
            &&& read_i64(t, base + 78) == trailing_time
            &&& read_i64(t, base + 86) == working_time
            &&& read_i64(t, base + 94) == iceberg_qty
            &&& read_i64(t, base + 102) == strategy_id
            &&& read_i32(t, base + 110) == strategy_type
            &&& OrderCapacity::of_code(read_u8(t, base + 114)) == order_capacity
            &&& Floor::of_code(read_u8(t, base + 115)) == working_floor
            &&& SelfTradePreventionMode::of_code(read_u8(t, base + 116)) == self_trade_prevention_mode
            &&& read_i64(t, base + 117) == trade_group_id
            &&& read_i64(t, base + 125) == prevented_quantity
            &&& BoolEnum::of_code(read_u8(t, base + 133)) == used_sor
        }),
{
    reveal(block_written);
    let b1 = seq![u8_of(price_exponent)];
    let b2 = seq![u8_of(qty_exponent)];
    let b3 = u64_to_le(u64_of(order_id));
    lemma_u64_value(u64_of(order_id));
    let b4 = u64_to_le(u64_of(order_list_id));
    lemma_u64_value(u64_of(order_list_id));
    let b5 = u64_to_le(u64_of(transact_time));
    lemma_u64_value(u64_of(transact_time));
    let b6 = u64_to_le(u64_of(price));
    lemma_u64_value(u64_of(price));
    let b7 = u64_to_le(u64_of(orig_qty));
    lemma_u64_value(u64_of(orig_qty));
    let b8 = u64_to_le(u64_of(executed_qty));
    lemma_u64_value(u64_of(executed_qty));
    let b9 = u64_to_le(u64_of(cummulative_quote_qty));
    lemma_u64_value(u64_of(cummulative_quote_qty));
    let b10 = seq![status.code_view()];
    let b11 = seq![time_in_force.code_view()];
    let b12 = seq![order_type.code_view()];
    let b13 = seq![side.code_view()];
    let b14 = u64_to_le(u64_of(stop_price));
    lemma_u64_value(u64_of(stop_price));
    let b15 = u64_to_le(u64_of(trailing_delta));
    lemma_u64_value(u64_of(trailing_delta));
    let b16 = u64_to_le(u64_of(trailing_time));
    lemma_u64_value(u64_of(trailing_time));
    let b17 = u64_to_le(u64_of(working_time));
    lemma_u64_value(u64_of(working_time));
    let b18 = u64_to_le(u64_of(iceberg_qty));
    lemma_u64_value(u64_of(iceberg_qty));
    let b19 = u64_to_le(u64_of(strategy_id));
    lemma_u64_value(u64_of(strategy_id));
    let b20 = u32_to_le(u32_of(strategy_type));
    lemma_u32_value(u32_of(strategy_type));
    let b21 = seq![order_capacity.code_view()];
    let b22 = seq![working_floor.code_view()];
    let b23 = seq![self_trade_prevention_mode.code_view()];
    let b24 = u64_to_le(u64_of(trade_group_id));
    lemma_u64_value(u64_of(trade_group_id));
    let b25 = u64_to_le(u64_of(prevented_quantity));
    lemma_u64_value(u64_of(prevented_quantity));
    let b26 = seq![used_sor.code_view()];
    let fields = |k: int|
        if k == 0 {
            (0int, b1)
        } else if k == 1 {
            (1int, b2)
        } else if k == 2 {
            (2int, b3)
        } else if k == 3 {
            (10int, b4)
        } else if k == 4 {
            (18int, b5)
        } else if k == 5 {
            (26int, b6)
        } else if k == 6 {
            (34int, b7)
        } else if k == 7 {
            (42int, b8)
        } else if k == 8 {
            (50int, b9)
        } else if k == 9 {
            (58int, b10)
        } else if k == 10 {
            (59int, b11)
        } else if k == 11 {
            (60int, b12)
        } else if k == 12 {
            (61int, b13)
        } else if k == 13 {
            (62int, b14)
        } else if k == 14 {
            (70int, b15)
        } else if k == 15 {
            (78int, b16)
        } else if k == 16 {
            (86int, b17)
        } else if k == 17 {
            (94int, b18)
        } else if k == 18 {
            (102int, b19)
        } else if k == 19 {
            (110int, b20)
        } else if k == 20 {
            (114int, b21)
        } else if k == 21 {
            (115int, b22)
        } else if k == 22 {
            (116int, b23)
        } else if k == 23 {
            (117int, b24)
        } else if k == 24 {
            (125int, b25)
        } else if k == 25 {
            (133int, b26)
        } else {
            (0int, Seq::<u8>::empty())
        };
    lemma_next_field(s, base, fields, 0, 0, 1);
    lemma_next_field(s, base, fields, 1, 1, 2);
    lemma_next_field(s, base, fields, 2, 2, 10);
    lemma_next_field(s, base, fields, 3, 10, 18);
    lemma_next_field(s, base, fields, 4, 18, 26);
    lemma_next_field(s, base, fields, 5, 26, 34);
    lemma_next_field(s, base, fields, 6, 34, 42);
    lemma_next_field(s, base, fields, 7, 42, 50);
    lemma_next_field(s, base, fields, 8, 50, 58);
    lemma_next_field(s, base, fields, 9, 58, 59);
    lemma_next_field(s, base, fields, 10, 59, 60);
    lemma_next_field(s, base, fields, 11, 60, 61);
    lemma_next_field(s, base, fields, 12, 61, 62);
    lemma_next_field(s, base, fields, 13, 62, 70);
    lemma_next_field(s, base, fields, 14, 70, 78);
    lemma_next_field(s, base, fields, 15, 78, 86);
    lemma_next_field(s, base, fields, 16, 86, 94);
    lemma_next_field(s, base, fields, 17, 94, 102);
    lemma_next_field(s, base, fields, 18, 102, 110);
    lemma_next_field(s, base, fields, 19, 110, 114);
    lemma_next_field(s, base, fields, 20, 114, 115);
    lemma_next_field(s, base, fields, 21, 115, 116);
    lemma_next_field(s, base, fields, 22, 116, 117);
    lemma_next_field(s, base, fields, 23, 117, 125);
    lemma_next_field(s, base, fields, 24, 125, 133);
    lemma_next_field(s, base, fields, 25, 133, 134);
    lemma_side_by_side_wider(fields, 26, 134, SBE_BLOCK_LENGTH as int);
    let t = laid(s, base, fields, 26);
    lemma_laid(s, base, fields, 26, SBE_BLOCK_LENGTH as int, 0);
    lemma_read_spelled(t, base, price_exponent, 0, 0, 0);
    lemma_laid(s, base, fields, 26, SBE_BLOCK_LENGTH as int, 1);
    lemma_read_spelled(t, base + 1, qty_exponent, 0, 0, 0);
    lemma_laid(s, base, fields, 26, SBE_BLOCK_LENGTH as int, 2);
    lemma_read_spelled(t, base + 2, 0, 0, 0, order_id);
    lemma_laid(s, base, fields, 26, SBE_BLOCK_LENGTH as int, 3);
    lemma_read_spelled(t, base + 10, 0, 0, 0, order_list_id);
    lemma_laid(s, base, fields, 26, SBE_BLOCK_LENGTH as int, 4);
    lemma_read_spelled(t, base + 18, 0, 0, 0, transact_time);
    lemma_laid(s, base, fields, 26, SBE_BLOCK_LENGTH as int, 5);
    lemma_read_spelled(t, base + 26, 0, 0, 0, price);
    lemma_laid(s, base, fields, 26, SBE_BLOCK_LENGTH as int, 6);
    lemma_read_spelled(t, base + 34, 0, 0, 0, orig_qty);
    lemma_laid(s, base, fields, 26, SBE_BLOCK_LENGTH as int, 7);
    lemma_read_spelled(t, base + 42, 0, 0, 0, executed_qty);
    lemma_laid(s, base, fields, 26, SBE_BLOCK_LENGTH as int, 8);
    lemma_read_spelled(t, base + 50, 0, 0, 0, cummulative_quote_qty);
    lemma_laid(s, base, fields, 26, SBE_BLOCK_LENGTH as int, 9);
    lemma_read_spelled_unsigned(t, base + 58, status.code_view(), 0, 0, 0);
    OrderStatus::lemma_codes(0, status);
    lemma_laid(s, base, fields, 26, SBE_BLOCK_LENGTH as int, 10);
    lemma_read_spelled_unsigned(t, base + 59, time_in_force.code_view(), 0, 0, 0);
    TimeInForce::lemma_codes(0, time_in_force);
    lemma_laid(s, base, fields, 26, SBE_BLOCK_LENGTH as int, 11);
    lemma_read_spelled_unsigned(t, base + 60, order_type.code_view(), 0, 0, 0);
    OrderType::lemma_codes(0, order_type);
    lemma_laid(s, base, fields, 26, SBE_BLOCK_LENGTH as int, 12);
    lemma_read_spelled_unsigned(t, base + 61, side.code_view(), 0, 0, 0);
    OrderSide::lemma_codes(0, side);
    lemma_laid(s, base, fields, 26, SBE_BLOCK_LENGTH as int, 13);
    lemma_read_spelled(t, base + 62, 0, 0, 0, stop_price);
    lemma_laid(s, base, fields, 26, SBE_BLOCK_LENGTH as int, 14);
    lemma_read_spelled(t, base + 70, 0, 0, 0, trailing_delta);
    lemma_laid(s, base, fields, 26, SBE_BLOCK_LENGTH as int, 15);
    lemma_read_spelled(t, base + 78, 0, 0, 0, trailing_time);
    lemma_laid(s, base, fields, 26, SBE_BLOCK_LENGTH as int, 16);
    lemma_read_spelled(t, base + 86, 0, 0, 0, working_time);
    lemma_laid(s, base, fields, 26, SBE_BLOCK_LENGTH as int, 17);
    lemma_read_spelled(t, base + 94, 0, 0, 0, iceberg_qty);
    lemma_laid(s, base, fields, 26, SBE_BLOCK_LENGTH as int, 18);
    lemma_read_spelled(t, base + 102, 0, 0, 0, strategy_id);
    lemma_laid(s, base, fields, 26, SBE_BLOCK_LENGTH as int, 19);
    lemma_read_spelled(t, base + 110, 0, 0, strategy_type, 0);
    lemma_laid(s, base, fields, 26, SBE_BLOCK_LENGTH as int, 20);
    lemma_read_spelled_unsigned(t, base + 114, order_capacity.code_view(), 0, 0, 0);
    OrderCapacity::lemma_codes(0, order_capacity);
    lemma_laid(s, base, fields, 26, SBE_BLOCK_LENGTH as int, 21);
    lemma_read_spelled_unsigned(t, base + 115, working_floor.code_view(), 0, 0, 0);
    Floor::lemma_codes(0, working_floor);
    lemma_laid(s, base, fields, 26, SBE_BLOCK_LENGTH as int, 22);
    lemma_read_spelled_unsigned(t, base + 116, self_trade_prevention_mode.code_view(), 0, 0, 0);
    SelfTradePreventionMode::lemma_codes(0, self_trade_prevention_mode);
    lemma_laid(s, base, fields, 26, SBE_BLOCK_LENGTH as int, 23);
    lemma_read_spelled(t, base + 117, 0, 0, 0, trade_group_id);
    lemma_laid(s, base, fields, 26, SBE_BLOCK_LENGTH as int, 24);
    lemma_read_spelled(t, base + 125, 0, 0, 0, prevented_quantity);
    lemma_laid(s, base, fields, 26, SBE_BLOCK_LENGTH as int, 25);
    lemma_read_spelled_unsigned(t, base + 133, used_sor.code_view(), 0, 0, 0);
    BoolEnum::lemma_codes(0, used_sor);
}

/// The block written with what is read from it is as it was, where each code in
/// it is one that the schema declares, or the null code.
pub proof fn lemma_block_written_back(s: Seq<u8>, base: int)
    requires
        0 <= base,
        base + SBE_BLOCK_LENGTH <= s.len(),
        OrderStatus::declared(read_u8(s, base + 58)) || read_u8(s, base + 58) == 255,
        TimeInForce::declared(read_u8(s, base + 59)) || read_u8(s, base + 59) == 255,
        OrderType::declared(read_u8(s, base + 60)) || read_u8(s, base + 60) == 255,
        OrderSide::declared(read_u8(s, base + 61)) || read_u8(s, base + 61) == 255,
        OrderCapacity::declared(read_u8(s, base + 114)) || read_u8(s, base + 114) == 255,
        Floor::declared(read_u8(s, base + 115)) || read_u8(s, base + 115) == 255,
        SelfTradePreventionMode::declared(read_u8(s, base + 116)) || read_u8(s, base + 116) == 255,
        BoolEnum::declared(read_u8(s, base + 133)) || read_u8(s, base + 133) == 255,
    ensures
        block_written(
            s,
            base,
            read_i8(s, base),
            read_i8(s, base + 1),
            read_i64(s, base + 2),
            read_i64(s, base + 10),
            read_i64(s, base + 18),
            read_i64(s, base + 26),
            read_i64(s, base + 34),
            read_i64(s, base + 42),
            read_i64(s, base + 50),
            OrderStatus::of_code(read_u8(s, base + 58)),
            TimeInForce::of_code(read_u8(s, base + 59)),
            OrderType::of_code(read_u8(s, base + 60)),
            OrderSide::of_code(read_u8(s, base + 61)),
            read_i64(s, base + 62),
            read_i64(s, base + 70),
            read_i64(s, base + 78),
            read_i64(s, base + 86),
            read_i64(s, base + 94),
            read_i64(s, base + 102),
            read_i32(s, base + 110),
            OrderCapacity::of_code(read_u8(s, base + 114)),
            Floor::of_code(read_u8(s, base + 115)),
            SelfTradePreventionMode::of_code(read_u8(s, base + 116)),
            read_i64(s, base + 117),
            read_i64(s, base + 125),
            BoolEnum::of_code(read_u8(s, base + 133)),
        ) == s,
{
    reveal(block_written);
    lemma_round_trip_8(s, base, 0, 0);
    lemma_round_trip_8(s, base + 1, 0, 0);
    lemma_round_trip_64(s, base + 2, 0, 0);
    lemma_round_trip_64(s, base + 10, 0, 0);
    lemma_round_trip_64(s, base + 18, 0, 0);
    lemma_round_trip_64(s, base + 26, 0, 0);
    lemma_round_trip_64(s, base + 34, 0, 0);
    lemma_round_trip_64(s, base + 42, 0, 0);
    lemma_round_trip_64(s, base + 50, 0, 0);
    lemma_round_trip_8(s, base + 58, 0, 0);
    OrderStatus::lemma_codes(read_u8(s, base + 58), OrderStatus::NullVal);
    lemma_round_trip_8(s, base + 59, 0, 0);
    TimeInForce::lemma_codes(read_u8(s, base + 59), TimeInForce::NullVal);
    lemma_round_trip_8(s, base + 60, 0, 0);
    OrderType::lemma_codes(read_u8(s, base + 60), OrderType::NullVal);
    lemma_round_trip_8(s, base + 61, 0, 0);
    OrderSide::lemma_codes(read_u8(s, base + 61), OrderSide::NullVal);
    lemma_round_trip_64(s, base + 62, 0, 0);
    lemma_round_trip_64(s, base + 70, 0, 0);
    lemma_round_trip_64(s, base + 78, 0, 0);
    lemma_round_trip_64(s, base + 86, 0, 0);
    lemma_round_trip_64(s, base + 94, 0, 0);
    lemma_round_trip_64(s, base + 102, 0, 0);
    lemma_round_trip_32(s, base + 110, 0, 0);
    lemma_round_trip_8(s, base + 114, 0, 0);
    OrderCapacity::lemma_codes(read_u8(s, base + 114), OrderCapacity::NullVal);
    lemma_round_trip_8(s, base + 115, 0, 0);
    Floor::lemma_codes(read_u8(s, base + 115), Floor::NullVal);
    lemma_round_trip_8(s, base + 116, 0, 0);
    SelfTradePreventionMode::lemma_codes(read_u8(s, base + 116), SelfTradePreventionMode::NullVal);
    lemma_round_trip_64(s, base + 117, 0, 0);
    lemma_round_trip_64(s, base + 125, 0, 0);
    lemma_round_trip_8(s, base + 133, 0, 0);
    BoolEnum::lemma_codes(read_u8(s, base + 133), BoolEnum::NullVal);
}

#[derive(Debug)]
pub struct FillsEncoder<P> {
    parent: Option<P>,
    count: u32,
    index: usize,
    offset: usize,
    initial_limit: usize,
}

impl<P> Default for FillsEncoder<P> {
    fn default() -> (r: Self)
        ensures
            r.parent_view() is None,
            r.count_view() == 0,
            r.index_view() == 0,
            r.offset_view() == 0,
            r.initial_limit_view() == 0,
    {
        Self { parent: None, count: 0, index: 0, offset: 0, initial_limit: 0 }
    }
}

impl<P> FillsEncoder<P> {
    /// Where nothing writes through this codec any more, nothing writes
    /// through its parent.
    proof fn lemma_parent_resolved(self)
        requires
            has_resolved(self),
            self.parent is Some,
        ensures
            has_resolved(self.parent->0),
    {
    }

    pub closed spec fn parent_view(self) -> Option<P> {
        self.parent
    }

    pub closed spec fn count_view(self) -> u32 {
        self.count
    }

    pub closed spec fn index_view(self) -> usize {
        self.index
    }

    pub closed spec fn offset_view(self) -> usize {
        self.offset
    }

    pub closed spec fn initial_limit_view(self) -> usize {
        self.initial_limit
    }

    /// This codec over another parent, all else kept.
    pub closed spec fn with_parent(self, parent: Option<P>) -> Self {
        Self { parent, ..self }
    }

    /// This codec at another element, all else kept.
    pub closed spec fn with_position(self, index: usize, offset: usize) -> Self {
        Self { index, offset, ..self }
    }

    /// What the exchanges above keep and what they put.
    pub proof fn lemma_frame(self)
        ensures
            forall|parent: Option<P>|
                #![trigger self.with_parent(parent)]
                {
                    let w = self.with_parent(parent);
                    &&& w.parent_view() == parent
                    &&& w.count_view() == self.count_view()
                    &&& w.index_view() == self.index_view()
                    &&& w.offset_view() == self.offset_view()
                    &&& w.initial_limit_view() == self.initial_limit_view()
                },
            forall|first: Option<P>, second: Option<P>|
                #![trigger self.with_parent(first).with_parent(second)]
                self.with_parent(first).with_parent(second) == self.with_parent(second),
            self.with_parent(self.parent_view()) == self,
            forall|index: usize, offset: usize|
                #![trigger self.with_position(index, offset)]
                {
                    let w = self.with_position(index, offset);
                    &&& w.parent_view() == self.parent_view()
                    &&& w.index_view() == index
                    &&& w.offset_view() == offset
                    &&& w.count_view() == self.count_view()
                    &&& w.initial_limit_view() == self.initial_limit_view()
                },
            forall|parent: Option<P>, index: usize, offset: usize|
                #![trigger self.with_parent(parent).with_position(index, offset)]
                self.with_parent(parent).with_position(index, offset) == self.with_position(
                    index,
                    offset,
                ).with_parent(parent),
    {
    }
}

impl<'a, P> Writer<'a> for FillsEncoder<P> where P: Writer<'a> + Default {
    open spec fn buf_ok(&self) -> bool {
        self.parent_view() is Some && self.parent_view().unwrap().buf_ok()
    }

    open spec fn buf(self) -> WriteBuf<'a> {
        self.parent_view().unwrap().buf()
    }

    open spec fn with_buf(self, buf: WriteBuf<'a>) -> Self {
        self.with_parent(Some(self.parent_view().unwrap().with_buf(buf)))
    }

    proof fn lemma_with_buf(self) {
        self.parent_view().unwrap().lemma_with_buf();
        self.lemma_frame();
    }

    proof fn lemma_resolved(self) {
        self.lemma_parent_resolved();
        self.parent_view().unwrap().lemma_resolved();
    }

    fn get_buf_mut(&mut self) -> (r: &mut WriteBuf<'a>) {
        if let Some(parent) = self.parent.as_mut() {
            parent.get_buf_mut()
        } else {
            vstd::pervasive::unreached()
        }
    }
}

impl<'a, P> Encoder<'a> for FillsEncoder<P> where P: Encoder<'a> + Default {
    open spec fn limit_view(self) -> usize {
        self.parent_view().unwrap().limit_view()
    }

    open spec fn with_limit(self, limit: usize) -> Self {
        self.with_parent(Some(self.parent_view().unwrap().with_limit(limit)))
    }

    proof fn lemma_with_limit(self) {
        self.parent_view().unwrap().lemma_with_buf();
        self.parent_view().unwrap().lemma_with_limit();
        self.lemma_frame();
    }

    fn get_limit(&self) -> (r: usize) {
        self.parent.as_ref().expect("parent missing").get_limit()
    }

    fn set_limit(&mut self, limit: usize) {
        self.parent.as_mut().expect("parent missing").set_limit(limit);
    }
}

impl<'a, P> FillsEncoder<P> where P: Encoder<'a> + Default {
    /// This codec stands where `pre` stood, but for the limit, which is at
    /// `limit` (what the buffer holds may differ).
    pub open spec fn placed_as(self, pre: Self, limit: usize) -> bool {
        &&& self.buf_ok()
        &&& self.limit_view() == limit
        &&& self.count_view() == pre.count_view()
        &&& self.index_view() == pre.index_view()
        &&& self.offset_view() == pre.offset_view()
        &&& self.initial_limit_view() == pre.initial_limit_view()
    }

    /// The bytes that one element's fixed fields take.
    pub open spec fn block_length_view() -> u16 {
        42
    }

    /// Where the walk over the elements stands.
    pub open spec fn cursor(self) -> Cursor {
        Cursor {
            count: self.count_view() as u32,
            index: self.index_view(),
            offset: self.offset_view(),
            block_length: Self::block_length_view() as usize,
            limit: self.limit_view(),
        }
    }

    /// What `wrap` makes of `parent` and `count`: the size prefix is
    /// written at the parent's limit, the limit stands behind it, and the
    /// codec stands before the first element.
    pub open spec fn opened(self, parent: P, count: u32) -> bool {
        &&& self.count_view() == count
        &&& self.index_view() == usize::MAX
        &&& self.offset_view() == usize::MAX
        &&& self.initial_limit_view() == parent.limit_view()
        &&& self.buf_ok()
        &&& self.limit_view() == parent.limit_view() + 6
        &&& self.buf()@ == write_group_size(
            parent.buf()@,
            parent.limit_view() as int,
            Self::block_length_view(),
            count,
        )
        &&& self.buf()@.len() == parent.buf()@.len()
        &&& self.parent_view().unwrap() == parent.with_limit(
            (parent.limit_view() + 6) as usize,
        ).with_buf(self.buf())
    }

    /// Opens the group at the parent's limit for `count` elements.
    pub fn wrap(self, parent: P, count: u32) -> (r: Self)
        requires
            parent.buf_ok(),
            parent.limit_view() + 6 <= parent.buf()@.len(),
        ensures
            r.opened(parent, count),
            final(r.buf().target())@ == final(parent.buf().target())@,
    {
        let mut parent = parent;
        proof {
            parent.buf().lemma_len();
            parent.lemma_with_limit();
            parent.lemma_with_buf();
        }
        let initial_limit = parent.get_limit();
        parent.set_limit(initial_limit + 6);
        proof {
            parent.lemma_with_buf();
            parent.lemma_with_limit();
        }
        parent.get_buf_mut().put_u16_at(initial_limit, Self::block_length());
        proof {
            parent.lemma_with_buf();
            parent.lemma_with_limit();
        }
        parent.get_buf_mut().put_u32_at(initial_limit + 2, count);
        proof {
            self.lemma_frame();
        }
        let mut this = self;
        this.parent = Some(parent);
        this.count = count;
        this.index = usize::MAX;
        this.offset = usize::MAX;
        this.initial_limit = initial_limit;
        this
    }

    /// The bytes that one element's fixed fields take.
    pub fn block_length() -> (r: u16)
        ensures
            r == Self::block_length_view(),
    {
        42
    }

    /// Hands the parent back; after that this codec reaches no buffer.
    pub fn parent(&mut self) -> (r: SbeResult<P>)
        ensures
            r == match old(self).parent_view() {
                Some(p) => Ok::<P, SbeErr>(p),
                None => Err::<P, SbeErr>(SbeErr::ParentNotSet),
            },
            *final(self) == old(self).with_parent(None),
    {
        self.parent.take().ok_or(SbeErr::ParentNotSet)
    }

    /// An element is left to move to, and the parent is there to move in.
    pub open spec fn can_advance(self) -> bool {
        has_next(self.cursor()) && self.parent_view() is Some
    }

    /// What `advance` makes of `pre` where it moves: the cursor has taken
    /// one step, and all else is as it was.
    pub open spec fn advanced(self, pre: Self) -> bool {
        &&& self.cursor() == step(pre.cursor())
        &&& self.buf_ok()
        &&& self.buf() == pre.buf()
        &&& self.initial_limit_view() == pre.initial_limit_view()
        &&& self == pre.with_limit(step(pre.cursor()).limit).with_position(
            step(pre.cursor()).index,
            step(pre.cursor()).offset,
        )
    }

    /// Moves to the next element, if one is left: it begins at the limit,
    /// and the limit moves behind its fixed fields.
    pub fn advance(&mut self) -> (r: SbeResult<Option<usize>>)
        requires
            old(self).can_advance() ==> old(self).buf_ok() && old(self).limit_view() + old(
                self,
            ).cursor().block_length <= usize::MAX,
        ensures
            r == advance_result(old(self).cursor(), old(self).parent_view() is Some),
            old(self).can_advance() ==> final(self).advanced(*old(self)),
            !old(self).can_advance() ==> *final(self) == *old(self),
    {
        proof {
            self.lemma_frame();
            if self.parent_view() is Some {
                self.with_limit(step(self.cursor()).limit).lemma_frame();
            }
        }
        let index = self.index.wrapping_add(1);
        if index >= self.count as usize {
            return Ok(None);
        }
        if let Some(parent) = self.parent.as_mut() {
            proof {
                parent.lemma_with_limit();
            }
            self.offset = parent.get_limit();
            parent.set_limit(self.offset + Self::block_length() as usize);
            self.index = index;
            Ok(Some(index))
        } else {
            Err(SbeErr::ParentNotSet)
        }
    }

    /// `commissionExponent`: an `i8` at byte 0 of the block.
    pub fn commission_exponent(&mut self, value: i8)
        requires
            old(self).buf_ok(),
            old(self).offset_view() + 1 <= old(self).buf()@.len(),
        ensures
            final(self).buf()@ == write_i8(old(self).buf()@, old(self).offset_view() as int, value),
            final(self).buf()@.len() == old(self).buf()@.len(),
            final(final(self).buf().target())@ == final(old(self).buf().target())@,
            final(self).placed_as(*old(self), old(self).limit_view()),
            *final(self) == old(self).with_buf(final(self).buf()),
    {
        proof {
            self.buf().lemma_len();
            self.lemma_with_buf();
            self.lemma_frame();
            self.lemma_with_limit();
        }
        let offset = self.offset;
        self.get_buf_mut().put_i8_at(offset, value);
    }

    /// `matchType`: the code of a `MatchType` at byte 1 of the block.
    pub fn match_type(&mut self, value: MatchType)
        requires
            old(self).buf_ok(),
            old(self).offset_view() + 2 <= old(self).buf()@.len(),
        ensures
            final(self).buf()@ == write_u8(
                old(self).buf()@,
                old(self).offset_view() + 1,
                value.code_view(),
            ),
            final(self).buf()@.len() == old(self).buf()@.len(),
            final(final(self).buf().target())@ == final(old(self).buf().target())@,
            final(self).placed_as(*old(self), old(self).limit_view()),
            *final(self) == old(self).with_buf(final(self).buf()),
    {
        proof {
            self.buf().lemma_len();
            self.lemma_with_buf();
            self.lemma_frame();
            self.lemma_with_limit();
        }
        let offset = self.offset + 1;
        self.get_buf_mut().put_u8_at(offset, value.code());
    }

    /// `price`: an `i64` at byte 2 of the block.
    pub fn price(&mut self, value: i64)
        requires
            old(self).buf_ok(),
            old(self).offset_view() + 10 <= old(self).buf()@.len(),
        ensures
            final(self).buf()@ == write_i64(old(self).buf()@, old(self).offset_view() + 2, value),
            final(self).buf()@.len() == old(self).buf()@.len(),
            final(final(self).buf().target())@ == final(old(self).buf().target())@,
            final(self).placed_as(*old(self), old(self).limit_view()),
            *final(self) == old(self).with_buf(final(self).buf()),
    {
        proof {
            self.buf().lemma_len();
            self.lemma_with_buf();
            self.lemma_frame();
            self.lemma_with_limit();
        }
        let offset = self.offset + 2;
        self.get_buf_mut().put_i64_at(offset, value);
    }

    /// `qty`: an `i64` at byte 10 of the block.
    pub fn qty(&mut self, value: i64)
        requires
            old(self).buf_ok(),
            old(self).offset_view() + 18 <= old(self).buf()@.len(),
        ensures
            final(self).buf()@ == write_i64(old(self).buf()@, old(self).offset_view() + 10, value),
            final(self).buf()@.len() == old(self).buf()@.len(),
            final(final(self).buf().target())@ == final(old(self).buf().target())@,
            final(self).placed_as(*old(self), old(self).limit_view()),
            *final(self) == old(self).with_buf(final(self).buf()),
    {
        proof {
            self.buf().lemma_len();
            self.lemma_with_buf();
            self.lemma_frame();
            self.lemma_with_limit();
        }
        let offset = self.offset + 10;
        self.get_buf_mut().put_i64_at(offset, value);
    }

    /// `commission`: an `i64` at byte 18 of the block.
    pub fn commission(&mut self, value: i64)
        requires
            old(self).buf_ok(),
            old(self).offset_view() + 26 <= old(self).buf()@.len(),
        ensures
            final(self).buf()@ == write_i64(old(self).buf()@, old(self).offset_view() + 18, value),
            final(self).buf()@.len() == old(self).buf()@.len(),
            final(final(self).buf().target())@ == final(old(self).buf().target())@,
            final(self).placed_as(*old(self), old(self).limit_view()),
            *final(self) == old(self).with_buf(final(self).buf()),
    {
        proof {
            self.buf().lemma_len();
            self.lemma_with_buf();
            self.lemma_frame();
            self.lemma_with_limit();
        }
        let offset = self.offset + 18;
        self.get_buf_mut().put_i64_at(offset, value);
    }

    /// `tradeId`: an `i64` at byte 26 of the block.
    pub fn trade_id(&mut self, value: i64)
        requires
            old(self).buf_ok(),
            old(self).offset_view() + 34 <= old(self).buf()@.len(),
        ensures
            final(self).buf()@ == write_i64(old(self).buf()@, old(self).offset_view() + 26, value),
            final(self).buf()@.len() == old(self).buf()@.len(),
            final(final(self).buf().target())@ == final(old(self).buf().target())@,
            final(self).placed_as(*old(self), old(self).limit_view()),
            *final(self) == old(self).with_buf(final(self).buf()),
    {
        proof {
            self.buf().lemma_len();
            self.lemma_with_buf();
            self.lemma_frame();
            self.lemma_with_limit();
        }
        let offset = self.offset + 26;
        self.get_buf_mut().put_i64_at(offset, value);
    }

    /// `allocId`: an `i64` at byte 34 of the block.
    pub fn alloc_id(&mut self, value: i64)
        requires
            old(self).buf_ok(),
            old(self).offset_view() + 42 <= old(self).buf()@.len(),
        ensures
            final(self).buf()@ == write_i64(old(self).buf()@, old(self).offset_view() + 34, value),
            final(self).buf()@.len() == old(self).buf()@.len(),
            final(final(self).buf().target())@ == final(old(self).buf().target())@,
            final(self).placed_as(*old(self), old(self).limit_view()),
            *final(self) == old(self).with_buf(final(self).buf()),
    {
        proof {
            self.buf().lemma_len();
            self.lemma_with_buf();
            self.lemma_frame();
            self.lemma_with_limit();
        }
        let offset = self.offset + 34;
        self.get_buf_mut().put_i64_at(offset, value);
    }

    /// `commissionAsset`: text behind a `u8` length, appended at the limit.
    /// A length that the prefix cannot hold is cut to its low bits.
    pub fn commission_asset(&mut self, value: &str)
        requires
            old(self).buf_ok(),
            old(self).limit_view() + 1 + value.spec_bytes().len() <= old(self).buf()@.len(),
        ensures
            final(self).buf()@ == write_var_u8(
                old(self).buf()@,
                old(self).limit_view() as int,
                value.spec_bytes(),
            ),
            final(self).buf()@.len() == old(self).buf()@.len(),
            final(final(self).buf().target())@ == final(old(self).buf().target())@,
            final(self).placed_as(
                *old(self),
                (old(self).limit_view() + 1 + value.spec_bytes().len()) as usize,
            ),
            *final(self) == old(self).with_limit(
                (old(self).limit_view() + 1 + value.spec_bytes().len()) as usize,
            ).with_buf(final(self).buf()),
    {
        proof {
            self.buf().lemma_len();
            self.lemma_with_buf();
            self.lemma_with_limit();
            self.lemma_frame();
        }
        let limit = self.get_limit();
        let data_length = value.len();
        self.set_limit(limit + 1 + data_length);
        proof {
            self.lemma_with_buf();
            self.lemma_with_limit();
            self.lemma_frame();
        }
        self.get_buf_mut().put_u8_at(limit, #[verifier::truncate] (data_length as u8));
        proof {
            self.lemma_with_buf();
            self.lemma_with_limit();
            self.lemma_frame();
        }
        self.get_buf_mut().put_slice_at(limit + 1, value.as_bytes());
    }
}

/// The bytes after every fixed field of an element of `fills` at `base` was set
/// once, in the order of the fields: what the setters make of `s`.
#[verifier::opaque]
pub open spec fn fills_block_written(
    s: Seq<u8>,
    base: int,
    commission_exponent: i8,
    match_type: MatchType,
    price: i64,
    qty: i64,
    commission: i64,
    trade_id: i64,
    alloc_id: i64,
) -> Seq<u8> {
    let s = write_i8(s, base, commission_exponent);
    let s = write_u8(s, base + 1, match_type.code_view());
    let s = write_i64(s, base + 2, price);
    let s = write_i64(s, base + 10, qty);
    let s = write_i64(s, base + 18, commission);
    let s = write_i64(s, base + 26, trade_id);
    let s = write_i64(s, base + 34, alloc_id);
    s
}

/// Every fixed field of an element of `fills` is read as it was set: the fields
/// lie side by side within the block, and the length is as it was.
pub proof fn lemma_fills_block_round_trip(
    s: Seq<u8>,
    base: int,
    commission_exponent: i8,
    match_type: MatchType,
    price: i64,
    qty: i64,
    commission: i64,
    trade_id: i64,
    alloc_id: i64,
)
    requires
        0 <= base,
        base + 42 <= s.len(),
    ensures
        ({
            let t = fills_block_written(
                s,
                base,
                commission_exponent,
                match_type,
                price,
                qty,
                commission,
                trade_id,
                alloc_id,
            );
            &&& t.len() == s.len()
            &&& read_i8(t, base) == commission_exponent
            &&& MatchType::of_code(read_u8(t, base + 1)) == match_type
            &&& read_i64(t, base + 2) == price
            &&& read_i64(t, base + 10) == qty
            &&& read_i64(t, base + 18) == commission
            &&& read_i64(t, base + 26) == trade_id
            &&& read_i64(t, base + 34) == alloc_id
        }),
{
    reveal(fills_block_written);
    let b1 = seq![u8_of(commission_exponent)];
    let b2 = seq![match_type.code_view()];
    let b3 = u64_to_le(u64_of(price));
    lemma_u64_value(u64_of(price));
    let b4 = u64_to_le(u64_of(qty));
    lemma_u64_value(u64_of(qty));
    let b5 = u64_to_le(u64_of(commission));
    lemma_u64_value(u64_of(commission));
    let b6 = u64_to_le(u64_of(trade_id));
    lemma_u64_value(u64_of(trade_id));
    let b7 = u64_to_le(u64_of(alloc_id));
    lemma_u64_value(u64_of(alloc_id));
    let fields = |k: int|
        if k == 0 {
            (0int, b1)
        } else if k == 1 {
            (1int, b2)
        } else if k == 2 {
            (2int, b3)
        } else if k == 3 {
            (10int, b4)
        } else if k == 4 {
            (18int, b5)
        } else if k == 5 {
            (26int, b6)
        } else if k == 6 {
            (34int, b7)
        } else {
            (0int, Seq::<u8>::empty())
        };
    lemma_next_field(s, base, fields, 0, 0, 1);
    lemma_next_field(s, base, fields, 1, 1, 2);
    lemma_next_field(s, base, fields, 2, 2, 10);
    lemma_next_field(s, base, fields, 3, 10, 18);
    lemma_next_field(s, base, fields, 4, 18, 26);
    lemma_next_field(s, base, fields, 5, 26, 34);
    lemma_next_field(s, base, fields, 6, 34, 42);
    lemma_side_by_side_wider(fields, 7, 42, 42);
    let t = laid(s, base, fields, 7);
    lemma_laid(s, base, fields, 7, 42, 0);
    lemma_read_spelled(t, base, commission_exponent, 0, 0, 0);
    lemma_laid(s, base, fields, 7, 42, 1);
    lemma_read_spelled_unsigned(t, base + 1, match_type.code_view(), 0, 0, 0);
    MatchType::lemma_codes(0, match_type);
    lemma_laid(s, base, fields, 7, 42, 2);
    lemma_read_spelled(t, base + 2, 0, 0, 0, price);
    lemma_laid(s, base, fields, 7, 42, 3);
    lemma_read_spelled(t, base + 10, 0, 0, 0, qty);
    lemma_laid(s, base, fields, 7, 42, 4);
    lemma_read_spelled(t, base + 18, 0, 0, 0, commission);
    lemma_laid(s, base, fields, 7, 42, 5);
    lemma_read_spelled(t, base + 26, 0, 0, 0, trade_id);
    lemma_laid(s, base, fields, 7, 42, 6);
    lemma_read_spelled(t, base + 34, 0, 0, 0, alloc_id);
}

/// An element of `fills` written with what is read from it is as it was, where each code in
/// it is one that the schema declares, or the null code.
pub proof fn lemma_fills_block_written_back(s: Seq<u8>, base: int)
    requires
        0 <= base,
        base + 42 <= s.len(),
        MatchType::declared(read_u8(s, base + 1)) || read_u8(s, base + 1) == 255,
    ensures
        fills_block_written(
            s,
            base,
            read_i8(s, base),
            MatchType::of_code(read_u8(s, base + 1)),
            read_i64(s, base + 2),
            read_i64(s, base + 10),
            read_i64(s, base + 18),
            read_i64(s, base + 26),
            read_i64(s, base + 34),
        ) == s,
{
    reveal(fills_block_written);
    lemma_round_trip_8(s, base, 0, 0);
    lemma_round_trip_8(s, base + 1, 0, 0);
    MatchType::lemma_codes(read_u8(s, base + 1), MatchType::NullVal);
    lemma_round_trip_64(s, base + 2, 0, 0);
    lemma_round_trip_64(s, base + 10, 0, 0);
    lemma_round_trip_64(s, base + 18, 0, 0);
    lemma_round_trip_64(s, base + 26, 0, 0);
    lemma_round_trip_64(s, base + 34, 0, 0);
}

#[derive(Debug)]
pub struct PreventedMatchesEncoder<P> {
    parent: Option<P>,
    count: u32,
    index: usize,
    offset: usize,
    initial_limit: usize,
}

impl<P> Default for PreventedMatchesEncoder<P> {
    fn default() -> (r: Self)
        ensures
            r.parent_view() is None,
            r.count_view() == 0,
            r.index_view() == 0,
            r.offset_view() == 0,
            r.initial_limit_view() == 0,
    {
        Self { parent: None, count: 0, index: 0, offset: 0, initial_limit: 0 }
    }
}

impl<P> PreventedMatchesEncoder<P> {
    /// Where nothing writes through this codec any more, nothing writes
    /// through its parent.
    proof fn lemma_parent_resolved(self)
        requires
            has_resolved(self),
            self.parent is Some,
        ensures
            has_resolved(self.parent->0),
    {
    }

    pub closed spec fn parent_view(self) -> Option<P> {
        self.parent
    }

    pub closed spec fn count_view(self) -> u32 {
        self.count
    }

    pub closed spec fn index_view(self) -> usize {
        self.index
    }

    pub closed spec fn offset_view(self) -> usize {
        self.offset
    }

    pub closed spec fn initial_limit_view(self) -> usize {
        self.initial_limit
    }

    /// This codec over another parent, all else kept.
    pub closed spec fn with_parent(self, parent: Option<P>) -> Self {
        Self { parent, ..self }
    }

    /// This codec at another element, all else kept.
    pub closed spec fn with_position(self, index: usize, offset: usize) -> Self {
        Self { index, offset, ..self }
    }

    /// What the exchanges above keep and what they put.
    pub proof fn lemma_frame(self)
        ensures
            forall|parent: Option<P>|
                #![trigger self.with_parent(parent)]
                {
                    let w = self.with_parent(parent);
                    &&& w.parent_view() == parent
                    &&& w.count_view() == self.count_view()
                    &&& w.index_view() == self.index_view()
                    &&& w.offset_view() == self.offset_view()
                    &&& w.initial_limit_view() == self.initial_limit_view()
                },
            forall|first: Option<P>, second: Option<P>|
                #![trigger self.with_parent(first).with_parent(second)]
                self.with_parent(first).with_parent(second) == self.with_parent(second),
            self.with_parent(self.parent_view()) == self,
            forall|index: usize, offset: usize|
                #![trigger self.with_position(index, offset)]
                {
                    let w = self.with_position(index, offset);
                    &&& w.parent_view() == self.parent_view()
                    &&& w.index_view() == index
                    &&& w.offset_view() == offset
                    &&& w.count_view() == self.count_view()
                    &&& w.initial_limit_view() == self.initial_limit_view()
                },
            forall|parent: Option<P>, index: usize, offset: usize|
                #![trigger self.with_parent(parent).with_position(index, offset)]
                self.with_parent(parent).with_position(index, offset) == self.with_position(
                    index,
                    offset,
                ).with_parent(parent),
    {
    }
}

impl<'a, P> Writer<'a> for PreventedMatchesEncoder<P> where P: Writer<'a> + Default {
    open spec fn buf_ok(&self) -> bool {
        self.parent_view() is Some && self.parent_view().unwrap().buf_ok()
    }

    open spec fn buf(self) -> WriteBuf<'a> {
        self.parent_view().unwrap().buf()
    }

    open spec fn with_buf(self, buf: WriteBuf<'a>) -> Self {
        self.with_parent(Some(self.parent_view().unwrap().with_buf(buf)))
    }

    proof fn lemma_with_buf(self) {
        self.parent_view().unwrap().lemma_with_buf();
        self.lemma_frame();
    }

    proof fn lemma_resolved(self) {
        self.lemma_parent_resolved();
        self.parent_view().unwrap().lemma_resolved();
    }

    fn get_buf_mut(&mut self) -> (r: &mut WriteBuf<'a>) {
        if let Some(parent) = self.parent.as_mut() {
            parent.get_buf_mut()
        } else {
            vstd::pervasive::unreached()
        }
    }
}

impl<'a, P> Encoder<'a> for PreventedMatchesEncoder<P> where P: Encoder<'a> + Default {
    open spec fn limit_view(self) -> usize {
        self.parent_view().unwrap().limit_view()
    }

    open spec fn with_limit(self, limit: usize) -> Self {
        self.with_parent(Some(self.parent_view().unwrap().with_limit(limit)))
    }

    proof fn lemma_with_limit(self) {
        self.parent_view().unwrap().lemma_with_buf();
        self.parent_view().unwrap().lemma_with_limit();
        self.lemma_frame();
    }

    fn get_limit(&self) -> (r: usize) {
        self.parent.as_ref().expect("parent missing").get_limit()
    }

    fn set_limit(&mut self, limit: usize) {
        self.parent.as_mut().expect("parent missing").set_limit(limit);
    }
}

impl<'a, P> PreventedMatchesEncoder<P> where P: Encoder<'a> + Default {
    /// This codec stands where `pre` stood, but for the limit, which is at
    /// `limit` (what the buffer holds may differ).
    pub open spec fn placed_as(self, pre: Self, limit: usize) -> bool {
        &&& self.buf_ok()
        &&& self.limit_view() == limit
        &&& self.count_view() == pre.count_view()
        &&& self.index_view() == pre.index_view()
        &&& self.offset_view() == pre.offset_view()
        &&& self.initial_limit_view() == pre.initial_limit_view()
    }

    /// The bytes that one element's fixed fields take.
    pub open spec fn block_length_view() -> u16 {
        40
    }

    /// Where the walk over the elements stands.
    pub open spec fn cursor(self) -> Cursor {
        Cursor {
            count: self.count_view() as u32,
            index: self.index_view(),
            offset: self.offset_view(),
            block_length: Self::block_length_view() as usize,
            limit: self.limit_view(),
        }
    }

    /// What `wrap` makes of `parent` and `count`: the size prefix is
    /// written at the parent's limit, the limit stands behind it, and the
    /// codec stands before the first element.
    pub open spec fn opened(self, parent: P, count: u32) -> bool {
        &&& self.count_view() == count
        &&& self.index_view() == usize::MAX
        &&& self.offset_view() == usize::MAX
        &&& self.initial_limit_view() == parent.limit_view()
        &&& self.buf_ok()
        &&& self.limit_view() == parent.limit_view() + 6
        &&& self.buf()@ == write_group_size(
            parent.buf()@,
            parent.limit_view() as int,
            Self::block_length_view(),
            count,
        )
        &&& self.buf()@.len() == parent.buf()@.len()
        &&& self.parent_view().unwrap() == parent.with_limit(
            (parent.limit_view() + 6) as usize,
        ).with_buf(self.buf())
    }

    /// Opens the group at the parent's limit for `count` elements.
    pub fn wrap(self, parent: P, count: u32) -> (r: Self)
        requires
            parent.buf_ok(),
            parent.limit_view() + 6 <= parent.buf()@.len(),
        ensures
            r.opened(parent, count),
            final(r.buf().target())@ == final(parent.buf().target())@,
    {
        let mut parent = parent;
        proof {
            parent.buf().lemma_len();
            parent.lemma_with_limit();
            parent.lemma_with_buf();
        }
        let initial_limit = parent.get_limit();
        parent.set_limit(initial_limit + 6);
        proof {
            parent.lemma_with_buf();
            parent.lemma_with_limit();
        }
        parent.get_buf_mut().put_u16_at(initial_limit, Self::block_length());
        proof {
            parent.lemma_with_buf();
            parent.lemma_with_limit();
        }
        parent.get_buf_mut().put_u32_at(initial_limit + 2, count);
        proof {
            self.lemma_frame();
        }
        let mut this = self;
        this.parent = Some(parent);
        this.count = count;
        this.index = usize::MAX;
        this.offset = usize::MAX;
        this.initial_limit = initial_limit;
        this
    }

    /// The bytes that one element's fixed fields take.
    pub fn block_length() -> (r: u16)
        ensures
            r == Self::block_length_view(),
    {
        40
    }

    /// Hands the parent back; after that this codec reaches no buffer.
    pub fn parent(&mut self) -> (r: SbeResult<P>)
        ensures
            r == match old(self).parent_view() {
                Some(p) => Ok::<P, SbeErr>(p),
                None => Err::<P, SbeErr>(SbeErr::ParentNotSet),
            },
            *final(self) == old(self).with_parent(None),
    {
        self.parent.take().ok_or(SbeErr::ParentNotSet)
    }

    /// An element is left to move to, and the parent is there to move in.
    pub open spec fn can_advance(self) -> bool {
        has_next(self.cursor()) && self.parent_view() is Some
    }

    /// What `advance` makes of `pre` where it moves: the cursor has taken
    /// one step, and all else is as it was.
    pub open spec fn advanced(self, pre: Self) -> bool {
        &&& self.cursor() == step(pre.cursor())
        &&& self.buf_ok()
        &&& self.buf() == pre.buf()
        &&& self.initial_limit_view() == pre.initial_limit_view()
        &&& self == pre.with_limit(step(pre.cursor()).limit).with_position(
            step(pre.cursor()).index,
            step(pre.cursor()).offset,
        )
    }

    /// Moves to the next element, if one is left: it begins at the limit,
    /// and the limit moves behind its fixed fields.
    pub fn advance(&mut self) -> (r: SbeResult<Option<usize>>)
        requires
            old(self).can_advance() ==> old(self).buf_ok() && old(self).limit_view() + old(
                self,
            ).cursor().block_length <= usize::MAX,
        ensures
            r == advance_result(old(self).cursor(), old(self).parent_view() is Some),
            old(self).can_advance() ==> final(self).advanced(*old(self)),
            !old(self).can_advance() ==> *final(self) == *old(self),
    {
        proof {
            self.lemma_frame();
            if self.parent_view() is Some {
                self.with_limit(step(self.cursor()).limit).lemma_frame();
            }
        }
        let index = self.index.wrapping_add(1);
        if index >= self.count as usize {
            return Ok(None);
        }
        if let Some(parent) = self.parent.as_mut() {
            proof {
                parent.lemma_with_limit();
            }
            self.offset = parent.get_limit();
            parent.set_limit(self.offset + Self::block_length() as usize);
            self.index = index;
            Ok(Some(index))
        } else {
            Err(SbeErr::ParentNotSet)
        }
    }

    /// `preventedMatchId`: an `i64` at byte 0 of the block.
    pub fn prevented_match_id(&mut self, value: i64)
        requires
            old(self).buf_ok(),
            old(self).offset_view() + 8 <= old(self).buf()@.len(),
        ensures
            final(self).buf()@ == write_i64(
                old(self).buf()@,
                old(self).offset_view() as int,
                value,
            ),
            final(self).buf()@.len() == old(self).buf()@.len(),
            final(final(self).buf().target())@ == final(old(self).buf().target())@,
            final(self).placed_as(*old(self), old(self).limit_view()),
            *final(self) == old(self).with_buf(final(self).buf()),
    {
        proof {
            self.buf().lemma_len();
            self.lemma_with_buf();
            self.lemma_frame();
            self.lemma_with_limit();
        }
        let offset = self.offset;
        self.get_buf_mut().put_i64_at(offset, value);
    }

    /// `makerOrderId`: an `i64` at byte 8 of the block.
    pub fn maker_order_id(&mut self, value: i64)
        requires
            old(self).buf_ok(),
            old(self).offset_view() + 16 <= old(self).buf()@.len(),
        ensures
            final(self).buf()@ == write_i64(old(self).buf()@, old(self).offset_view() + 8, value),
            final(self).buf()@.len() == old(self).buf()@.len(),
            final(final(self).buf().target())@ == final(old(self).buf().target())@,
            final(self).placed_as(*old(self), old(self).limit_view()),
            *final(self) == old(self).with_buf(final(self).buf()),
    {
        proof {
            self.buf().lemma_len();
            self.lemma_with_buf();
            self.lemma_frame();
            self.lemma_with_limit();
        }
        let offset = self.offset + 8;
        self.get_buf_mut().put_i64_at(offset, value);
    }

    /// `price`: an `i64` at byte 16 of the block.
    pub fn price(&mut self, value: i64)
        requires
            old(self).buf_ok(),
            old(self).offset_view() + 24 <= old(self).buf()@.len(),
        ensures
            final(self).buf()@ == write_i64(old(self).buf()@, old(self).offset_view() + 16, value),
            final(self).buf()@.len() == old(self).buf()@.len(),
            final(final(self).buf().target())@ == final(old(self).buf().target())@,
            final(self).placed_as(*old(self), old(self).limit_view()),
            *final(self) == old(self).with_buf(final(self).buf()),
    {
        proof {
            self.buf().lemma_len();
            self.lemma_with_buf();
            self.lemma_frame();
            self.lemma_with_limit();
        }
        let offset = self.offset + 16;
        self.get_buf_mut().put_i64_at(offset, value);
    }

    /// `takerPreventedQuantity`: an `i64` at byte 24 of the block.
    pub fn taker_prevented_quantity(&mut self, value: i64)
        requires
            old(self).buf_ok(),
            old(self).offset_view() + 32 <= old(self).buf()@.len(),
        ensures
            final(self).buf()@ == write_i64(old(self).buf()@, old(self).offset_view() + 24, value),
            final(self).buf()@.len() == old(self).buf()@.len(),
            final(final(self).buf().target())@ == final(old(self).buf().target())@,
            final(self).placed_as(*old(self), old(self).limit_view()),
            *final(self) == old(self).with_buf(final(self).buf()),
    {
        proof {
            self.buf().lemma_len();
            self.lemma_with_buf();
            self.lemma_frame();
            self.lemma_with_limit();
        }
        let offset = self.offset + 24;
        self.get_buf_mut().put_i64_at(offset, value);
    }

    /// `makerPreventedQuantity`: an `i64` at byte 32 of the block.
    pub fn maker_prevented_quantity(&mut self, value: i64)
        requires
            old(self).buf_ok(),
            old(self).offset_view() + 40 <= old(self).buf()@.len(),
        ensures
            final(self).buf()@ == write_i64(old(self).buf()@, old(self).offset_view() + 32, value),
            final(self).buf()@.len() == old(self).buf()@.len(),
            final(final(self).buf().target())@ == final(old(self).buf().target())@,
            final(self).placed_as(*old(self), old(self).limit_view()),
            *final(self) == old(self).with_buf(final(self).buf()),
    {
        proof {
            self.buf().lemma_len();
            self.lemma_with_buf();
            self.lemma_frame();
            self.lemma_with_limit();
        }
        let offset = self.offset + 32;
        self.get_buf_mut().put_i64_at(offset, value);
    }

    /// `makerSymbol`: text behind a `u8` length, appended at the limit.
    /// A length that the prefix cannot hold is cut to its low bits.
    pub fn maker_symbol(&mut self, value: &str)
        requires
            old(self).buf_ok(),
            old(self).limit_view() + 1 + value.spec_bytes().len() <= old(self).buf()@.len(),
        ensures
            final(self).buf()@ == write_var_u8(
                old(self).buf()@,
                old(self).limit_view() as int,
                value.spec_bytes(),
            ),
            final(self).buf()@.len() == old(self).buf()@.len(),
            final(final(self).buf().target())@ == final(old(self).buf().target())@,
            final(self).placed_as(
                *old(self),
                (old(self).limit_view() + 1 + value.spec_bytes().len()) as usize,
            ),
            *final(self) == old(self).with_limit(
                (old(self).limit_view() + 1 + value.spec_bytes().len()) as usize,
            ).with_buf(final(self).buf()),
    {
        proof {
            self.buf().lemma_len();
            self.lemma_with_buf();
            self.lemma_with_limit();
            self.lemma_frame();
        }
        let limit = self.get_limit();
        let data_length = value.len();
        self.set_limit(limit + 1 + data_length);
        proof {
            self.lemma_with_buf();
            self.lemma_with_limit();
            self.lemma_frame();
        }
        self.get_buf_mut().put_u8_at(limit, #[verifier::truncate] (data_length as u8));
        proof {
            self.lemma_with_buf();
            self.lemma_with_limit();
            self.lemma_frame();
        }
        self.get_buf_mut().put_slice_at(limit + 1, value.as_bytes());
    }
}

/// The bytes after every fixed field of an element of `preventedMatches` at `base` was set
/// once, in the order of the fields: what the setters make of `s`.
#[verifier::opaque]
pub open spec fn prevented_matches_block_written(
    s: Seq<u8>,
    base: int,
    prevented_match_id: i64,
    maker_order_id: i64,
    price: i64,
    taker_prevented_quantity: i64,
    maker_prevented_quantity: i64,
) -> Seq<u8> {
    let s = write_i64(s, base, prevented_match_id);
    let s = write_i64(s, base + 8, maker_order_id);
    let s = write_i64(s, base + 16, price);
    let s = write_i64(s, base + 24, taker_prevented_quantity);
    let s = write_i64(s, base + 32, maker_prevented_quantity);
    s
}

/// Every fixed field of an element of `preventedMatches` is read as it was set: the fields
/// lie side by side within the block, and the length is as it was.
pub proof fn lemma_prevented_matches_block_round_trip(
    s: Seq<u8>,
    base: int,
    prevented_match_id: i64,
    maker_order_id: i64,
    price: i64,
    taker_prevented_quantity: i64,
    maker_prevented_quantity: i64,
)
    requires
        0 <= base,
        base + 40 <= s.len(),
    ensures
        ({
            let t = prevented_matches_block_written(
                s,
                base,
                prevented_match_id,
                maker_order_id,
                price,
                taker_prevented_quantity,
                maker_prevented_quantity,
            );
            &&& t.len() == s.len()
            &&& read_i64(t, base) == prevented_match_id
            &&& read_i64(t, base + 8) == maker_order_id
            &&& read_i64(t, base + 16) == price
            &&& read_i64(t, base + 24) == taker_prevented_quantity
            &&& read_i64(t, base + 32) == maker_prevented_quantity
        }),
{
    reveal(prevented_matches_block_written);
    let b1 = u64_to_le(u64_of(prevented_match_id));
    lemma_u64_value(u64_of(prevented_match_id));
    let b2 = u64_to_le(u64_of(maker_order_id));
    lemma_u64_value(u64_of(maker_order_id));
    let b3 = u64_to_le(u64_of(price));
    lemma_u64_value(u64_of(price));
    let b4 = u64_to_le(u64_of(taker_prevented_quantity));
    lemma_u64_value(u64_of(taker_prevented_quantity));
    let b5 = u64_to_le(u64_of(maker_prevented_quantity));
    lemma_u64_value(u64_of(maker_prevented_quantity));
    let fields = |k: int|
        if k == 0 {
            (0int, b1)
        } else if k == 1 {
            (8int, b2)
        } else if k == 2 {
            (16int, b3)
        } else if k == 3 {
            (24int, b4)
        } else if k == 4 {
            (32int, b5)
        } else {
            (0int, Seq::<u8>::empty())
        };
    lemma_next_field(s, base, fields, 0, 0, 8);
    lemma_next_field(s, base, fields, 1, 8, 16);
    lemma_next_field(s, base, fields, 2, 16, 24);
    lemma_next_field(s, base, fields, 3, 24, 32);
    lemma_next_field(s, base, fields, 4, 32, 40);
    lemma_side_by_side_wider(fields, 5, 40, 40);
    let t = laid(s, base, fields, 5);
    lemma_laid(s, base, fields, 5, 40, 0);
    lemma_read_spelled(t, base, 0, 0, 0, prevented_match_id);
    lemma_laid(s, base, fields, 5, 40, 1);
    lemma_read_spelled(t, base + 8, 0, 0, 0, maker_order_id);
    lemma_laid(s, base, fields, 5, 40, 2);
    lemma_read_spelled(t, base + 16, 0, 0, 0, price);
    lemma_laid(s, base, fields, 5, 40, 3);
    lemma_read_spelled(t, base + 24, 0, 0, 0, taker_prevented_quantity);
    lemma_laid(s, base, fields, 5, 40, 4);
    lemma_read_spelled(t, base + 32, 0, 0, 0, maker_prevented_quantity);
}

/// An element of `preventedMatches` written with what is read from it is as it was.
pub proof fn lemma_prevented_matches_block_written_back(s: Seq<u8>, base: int)
    requires
        0 <= base,
        base + 40 <= s.len(),

    ensures
        prevented_matches_block_written(
            s,
            base,
            read_i64(s, base),
            read_i64(s, base + 8),
            read_i64(s, base + 16),
            read_i64(s, base + 24),
            read_i64(s, base + 32),
        ) == s,
{
    reveal(prevented_matches_block_written);
    lemma_round_trip_64(s, base, 0, 0);
    lemma_round_trip_64(s, base + 8, 0, 0);
    lemma_round_trip_64(s, base + 16, 0, 0);
    lemma_round_trip_64(s, base + 24, 0, 0);
    lemma_round_trip_64(s, base + 32, 0, 0);
}

#[derive(Clone, Copy, Debug)]
pub struct NewOrderFullResponseDecoder<'a> {
    buf: ReadBuf<'a>,
    initial_offset: usize,
    offset: usize,
    limit: usize,
    pub acting_block_length: u16,
    pub acting_version: u16,
}

impl<'a> Default for NewOrderFullResponseDecoder<'a> {
    fn default() -> (r: Self)
        ensures
            r.buf()@.len() == 0,
            r.initial_offset_view() == 0,
            r.offset_view() == 0,
            r.limit_view() == 0,
            r.acting_block_length_view() == 0,
            r.acting_version_view() == 0,
    {
        Self {
            buf: ReadBuf::default(),
            initial_offset: 0,
            offset: 0,
            limit: 0,
            acting_block_length: 0,
            acting_version: 0,
        }
    }
}

impl<'a> Reader<'a> for NewOrderFullResponseDecoder<'a> {
    open spec fn buf_ok(&self) -> bool {
        true
    }

    closed spec fn buf(self) -> ReadBuf<'a> {
        self.buf
    }

    fn get_buf(&self) -> (r: &ReadBuf<'a>) {
        &self.buf
    }
}

impl<'a> Decoder<'a> for NewOrderFullResponseDecoder<'a> {
    closed spec fn limit_view(self) -> usize {
        self.limit
    }

    closed spec fn with_limit(self, limit: usize) -> Self {
        Self { limit, ..self }
    }

    proof fn lemma_with_limit(self) {
    }

    fn get_limit(&self) -> (r: usize) {
        self.limit
    }

    fn set_limit(&mut self, limit: usize) {
        self.limit = limit;
    }
}

impl<'a> NewOrderFullResponseDecoder<'a> {
    pub closed spec fn initial_offset_view(self) -> usize {
        self.initial_offset
    }

    /// Where the fixed block begins.
    pub closed spec fn offset_view(self) -> usize {
        self.offset
    }

    /// The block length that the sender declared.
    pub closed spec fn acting_block_length_view(self) -> u16 {
        self.acting_block_length
    }

    /// The schema version that the sender declared.
    pub closed spec fn acting_version_view(self) -> u16 {
        self.acting_version
    }

    /// This decoder stands where `pre` stood, but for the limit, which is
    /// at `limit`.
    pub open spec fn placed_as(self, pre: Self, limit: usize) -> bool {
        &&& self.limit_view() == limit
        &&& self.buf() == pre.buf()
        &&& self.offset_view() == pre.offset_view()
        &&& self.initial_offset_view() == pre.initial_offset_view()
        &&& self.acting_block_length_view() == pre.acting_block_length_view()
        &&& self.acting_version_view() == pre.acting_version_view()
    }

    /// Moving the limit leaves all else alone.
    pub proof fn lemma_frame(self)
        ensures
            forall|limit: usize|
                #![trigger self.with_limit(limit)]
                {
                    let w = self.with_limit(limit);
                    &&& w.offset_view() == self.offset_view()
                    &&& w.initial_offset_view() == self.initial_offset_view()
                    &&& w.acting_block_length_view() == self.acting_block_length_view()
                    &&& w.acting_version_view() == self.acting_version_view()
                },
    {
    }

    /// Places the decoder over `buf` with its fixed block at `offset`; the
    /// limit stands behind the block, whose length the sender declared.
    pub fn wrap(
        self,
        buf: ReadBuf<'a>,
        offset: usize,
        acting_block_length: u16,
        acting_version: u16,
    ) -> (r: Self)
        requires
            offset + acting_block_length <= usize::MAX,
        ensures
            r.buf() == buf,
            r.initial_offset_view() == offset,
            r.offset_view() == offset,
            r.limit_view() == offset + acting_block_length,
            r.acting_block_length_view() == acting_block_length,
            r.acting_version_view() == acting_version,
    {
        let limit = offset + acting_block_length as usize;
        let mut this = self;
        this.buf = buf;
        this.initial_offset = offset;
        this.offset = offset;
        this.limit = limit;
        this.acting_block_length = acting_block_length;
        this.acting_version = acting_version;
        this
    }

    /// The bytes from the start of the block to the limit.
    pub fn encoded_length(&self) -> (r: usize)
        requires
            self.offset_view() <= self.limit_view(),
        ensures
            r == self.limit_view() - self.offset_view(),
    {
        self.limit - self.offset
    }

    /// The block length that the sender declared.
    pub fn acting_block_length(&self) -> (r: u16)
        ensures
            r == self.acting_block_length_view(),
    {
        self.acting_block_length
    }

    /// The schema version that the sender declared.
    pub fn acting_version(&self) -> (r: u16)
        ensures
            r == self.acting_version_view(),
    {
        self.acting_version
    }

    /// Takes over from a header that announces this message: the decoder
    /// stands behind the header, on the header's buffer, with the block
    /// length and version that the header declares.
    pub fn header(self, header: MessageHeaderDecoder<ReadBuf<'a>>) -> (r: Self)
        requires
            header.buf_ok(),
            header.offset_view() + 8 <= header.buf()@.len(),
            read_u16(header.buf()@, header.offset_view() + 2) == SBE_TEMPLATE_ID,
            header.offset_view() + 8 + read_u16(header.buf()@, header.offset_view() as int)
                <= usize::MAX,
        ensures
            r.buf() == header.buf(),
            r.initial_offset_view() == header.offset_view() + 8,
            r.offset_view() == header.offset_view() + 8,
            r.acting_block_length_view() == read_u16(header.buf()@, header.offset_view() as int),
            r.acting_version_view() == read_u16(header.buf()@, header.offset_view() + 6),
            r.limit_view() == header.offset_view() + 8 + r.acting_block_length_view(),
    {
        let mut header = header;
        proof {
            header.buf().lemma_len();
        }
        let acting_block_length = header.block_length();
        let acting_version = header.version();
        let offset = header.offset() + crate::message_header_codec::ENCODED_LENGTH;
        self.wrap(header.parent().unwrap(), offset, acting_block_length, acting_version)
    }

    /// `priceExponent`: an `i8` at byte 0 of the block.
    pub fn price_exponent(&self) -> (r: i8)
        requires
            self.offset_view() + 1 <= self.buf()@.len(),
        ensures
            r == read_i8(self.buf()@, self.offset_view() as int),
    {
        proof {
            self.buf().lemma_len();
        }
        self.get_buf().get_i8_at(self.offset)
    }

    /// `qtyExponent`: an `i8` at byte 1 of the block.
    pub fn qty_exponent(&self) -> (r: i8)
        requires
            self.offset_view() + 2 <= self.buf()@.len(),
        ensures
            r == read_i8(self.buf()@, self.offset_view() + 1),
    {
        proof {
            self.buf().lemma_len();
        }
        self.get_buf().get_i8_at(self.offset + 1)
    }

    /// `orderId`: an `i64` at byte 2 of the block.
    pub fn order_id(&self) -> (r: i64)
        requires
            self.offset_view() + 10 <= self.buf()@.len(),
        ensures
            r == read_i64(self.buf()@, self.offset_view() + 2),
    {
        proof {
            self.buf().lemma_len();
        }
        self.get_buf().get_i64_at(self.offset + 2)
    }

    /// `orderListId`: an `i64` at byte 10 of the block.
    /// The least value of the type stands for an absent field.
    pub fn order_list_id(&self) -> (r: Option<i64>)
        requires
            self.offset_view() + 18 <= self.buf()@.len(),
        ensures
            r == absent_if(read_i64(self.buf()@, self.offset_view() + 10), i64::MIN),
    {
        proof {
            self.buf().lemma_len();
        }
        let value = self.get_buf().get_i64_at(self.offset + 10);
        if value == i64::MIN {
            None
        } else {
            Some(value)
        }
    }

    /// `transactTime`: an `i64` at byte 18 of the block.
    pub fn transact_time(&self) -> (r: i64)
        requires
            self.offset_view() + 26 <= self.buf()@.len(),
        ensures
            r == read_i64(self.buf()@, self.offset_view() + 18),
    {
        proof {
            self.buf().lemma_len();
        }
        self.get_buf().get_i64_at(self.offset + 18)
    }

    /// `price`: an `i64` at byte 26 of the block.
    pub fn price(&self) -> (r: i64)
        requires
            self.offset_view() + 34 <= self.buf()@.len(),
        ensures
            r == read_i64(self.buf()@, self.offset_view() + 26),
    {
        proof {
            self.buf().lemma_len();
        }
        self.get_buf().get_i64_at(self.offset + 26)
    }

    /// `origQty`: an `i64` at byte 34 of the block.
    pub fn orig_qty(&self) -> (r: i64)
        requires
            self.offset_view() + 42 <= self.buf()@.len(),
        ensures
            r == read_i64(self.buf()@, self.offset_view() + 34),
    {
        proof {
            self.buf().lemma_len();
        }
        self.get_buf().get_i64_at(self.offset + 34)
    }

    /// `executedQty`: an `i64` at byte 42 of the block.
    pub fn executed_qty(&self) -> (r: i64)
        requires
            self.offset_view() + 50 <= self.buf()@.len(),
        ensures
            r == read_i64(self.buf()@, self.offset_view() + 42),
    {
        proof {
            self.buf().lemma_len();
        }
        self.get_buf().get_i64_at(self.offset + 42)
    }

    /// `cummulativeQuoteQty`: an `i64` at byte 50 of the block.
    pub fn cummulative_quote_qty(&self) -> (r: i64)
        requires
            self.offset_view() + 58 <= self.buf()@.len(),
        ensures
            r == read_i64(self.buf()@, self.offset_view() + 50),
    {
        proof {
            self.buf().lemma_len();
        }
        self.get_buf().get_i64_at(self.offset + 50)
    }

    /// `status`: the code of a `OrderStatus` at byte 58 of the block.
    pub fn status(&self) -> (r: OrderStatus)
        requires
            self.offset_view() + 59 <= self.buf()@.len(),
        ensures
            r == OrderStatus::of_code(read_u8(self.buf()@, self.offset_view() + 58)),
    {
        proof {
            self.buf().lemma_len();
        }
        OrderStatus::from(self.get_buf().get_u8_at(self.offset + 58))
    }

    /// `timeInForce`: the code of a `TimeInForce` at byte 59 of the block.
    pub fn time_in_force(&self) -> (r: TimeInForce)
        requires
            self.offset_view() + 60 <= self.buf()@.len(),
        ensures
            r == TimeInForce::of_code(read_u8(self.buf()@, self.offset_view() + 59)),
    {
        proof {
            self.buf().lemma_len();
        }
        TimeInForce::from(self.get_buf().get_u8_at(self.offset + 59))
    }

    /// `orderType`: the code of a `OrderType` at byte 60 of the block.
    pub fn order_type(&self) -> (r: OrderType)
        requires
            self.offset_view() + 61 <= self.buf()@.len(),
        ensures
            r == OrderType::of_code(read_u8(self.buf()@, self.offset_view() + 60)),
    {
        proof {
            self.buf().lemma_len();
        }
        OrderType::from(self.get_buf().get_u8_at(self.offset + 60))
    }

    /// `side`: the code of a `OrderSide` at byte 61 of the block.
    pub fn side(&self) -> (r: OrderSide)
        requires
            self.offset_view() + 62 <= self.buf()@.len(),
        ensures
            r == OrderSide::of_code(read_u8(self.buf()@, self.offset_view() + 61)),
    {
        proof {
            self.buf().lemma_len();
        }
        OrderSide::from(self.get_buf().get_u8_at(self.offset + 61))
    }

    /// `stopPrice`: an `i64` at byte 62 of the block.
    /// The least value of the type stands for an absent field.
    pub fn stop_price(&self) -> (r: Option<i64>)
        requires
            self.offset_view() + 70 <= self.buf()@.len(),
        ensures
            r == absent_if(read_i64(self.buf()@, self.offset_view() + 62), i64::MIN),
    {
        proof {
            self.buf().lemma_len();
        }
        let value = self.get_buf().get_i64_at(self.offset + 62);
        if value == i64::MIN {
            None
        } else {
            Some(value)
        }
    }

    /// `trailingDelta`: an `i64` at byte 70 of the block.
    /// The least value of the type stands for an absent field.
    pub fn trailing_delta(&self) -> (r: Option<i64>)
        requires
            self.offset_view() + 78 <= self.buf()@.len(),
        ensures
            r == absent_if(read_i64(self.buf()@, self.offset_view() + 70), i64::MIN),
    {
        proof {
            self.buf().lemma_len();
        }
        let value = self.get_buf().get_i64_at(self.offset + 70);
        if value == i64::MIN {
            None
        } else {
            Some(value)
        }
    }

    /// `trailingTime`: an `i64` at byte 78 of the block.
    /// The least value of the type stands for an absent field.
    pub fn trailing_time(&self) -> (r: Option<i64>)
        requires
            self.offset_view() + 86 <= self.buf()@.len(),
        ensures
            r == absent_if(read_i64(self.buf()@, self.offset_view() + 78), i64::MIN),
    {
        proof {
            self.buf().lemma_len();
        }
        let value = self.get_buf().get_i64_at(self.offset + 78);
        if value == i64::MIN {
            None
        } else {
            Some(value)
        }
    }

    /// `workingTime`: an `i64` at byte 86 of the block.
    /// The least value of the type stands for an absent field.
    pub fn working_time(&self) -> (r: Option<i64>)
        requires
            self.offset_view() + 94 <= self.buf()@.len(),
        ensures
            r == absent_if(read_i64(self.buf()@, self.offset_view() + 86), i64::MIN),
    {
        proof {
            self.buf().lemma_len();
        }
        let value = self.get_buf().get_i64_at(self.offset + 86);
        if value == i64::MIN {
            None
        } else {
            Some(value)
        }
    }

    /// `icebergQty`: an `i64` at byte 94 of the block.
    /// The least value of the type stands for an absent field.
    pub fn iceberg_qty(&self) -> (r: Option<i64>)
        requires
            self.offset_view() + 102 <= self.buf()@.len(),
        ensures
            r == absent_if(read_i64(self.buf()@, self.offset_view() + 94), i64::MIN),
    {
        proof {
            self.buf().lemma_len();
        }
        let value = self.get_buf().get_i64_at(self.offset + 94);
        if value == i64::MIN {
            None
        } else {
            Some(value)
        }
    }

    /// `strategyId`: an `i64` at byte 102 of the block.
    /// The least value of the type stands for an absent field.
    pub fn strategy_id(&self) -> (r: Option<i64>)
        requires
            self.offset_view() + 110 <= self.buf()@.len(),
        ensures
            r == absent_if(read_i64(self.buf()@, self.offset_view() + 102), i64::MIN),
    {
        proof {
            self.buf().lemma_len();
        }
        let value = self.get_buf().get_i64_at(self.offset + 102);
        if value == i64::MIN {
            None
        } else {
            Some(value)
        }
    }

    /// `strategyType`: an `i32` at byte 110 of the block.
    /// The least value of the type stands for an absent field.
    pub fn strategy_type(&self) -> (r: Option<i32>)
        requires
            self.offset_view() + 114 <= self.buf()@.len(),
        ensures
            r == absent_if(read_i32(self.buf()@, self.offset_view() + 110), i32::MIN),
    {
        proof {
            self.buf().lemma_len();
        }
        let value = self.get_buf().get_i32_at(self.offset + 110);
        if value == i32::MIN {
            None
        } else {
            Some(value)
        }
    }

    /// `orderCapacity`: the code of a `OrderCapacity` at byte 114 of the block.
    pub fn order_capacity(&self) -> (r: OrderCapacity)
        requires
            self.offset_view() + 115 <= self.buf()@.len(),
        ensures
            r == OrderCapacity::of_code(read_u8(self.buf()@, self.offset_view() + 114)),
    {
        proof {
            self.buf().lemma_len();
        }
        OrderCapacity::from(self.get_buf().get_u8_at(self.offset + 114))
    }

    /// `workingFloor`: the code of a `Floor` at byte 115 of the block.
    pub fn working_floor(&self) -> (r: Floor)
        requires
            self.offset_view() + 116 <= self.buf()@.len(),
        ensures
            r == Floor::of_code(read_u8(self.buf()@, self.offset_view() + 115)),
    {
        proof {
            self.buf().lemma_len();
        }
        Floor::from(self.get_buf().get_u8_at(self.offset + 115))
    }

    /// `selfTradePreventionMode`:
    /// the code of a `SelfTradePreventionMode` at byte 116 of the block.
    pub fn self_trade_prevention_mode(&self) -> (r: SelfTradePreventionMode)
        requires
            self.offset_view() + 117 <= self.buf()@.len(),
        ensures
            r == SelfTradePreventionMode::of_code(read_u8(self.buf()@, self.offset_view() + 116)),
    {
        proof {
            self.buf().lemma_len();
        }
        SelfTradePreventionMode::from(self.get_buf().get_u8_at(self.offset + 116))
    }

    /// `tradeGroupId`: an `i64` at byte 117 of the block.
    /// The least value of the type stands for an absent field.
    pub fn trade_group_id(&self) -> (r: Option<i64>)
        requires
            self.offset_view() + 125 <= self.buf()@.len(),
        ensures
            r == absent_if(read_i64(self.buf()@, self.offset_view() + 117), i64::MIN),
    {
        proof {
            self.buf().lemma_len();
        }
        let value = self.get_buf().get_i64_at(self.offset + 117);
        if value == i64::MIN {
            None
        } else {
            Some(value)
        }
    }

    /// `preventedQuantity`: an `i64` at byte 125 of the block.
    /// The least value of the type stands for an absent field.
    pub fn prevented_quantity(&self) -> (r: Option<i64>)
        requires
            self.offset_view() + 133 <= self.buf()@.len(),
        ensures
            r == absent_if(read_i64(self.buf()@, self.offset_view() + 125), i64::MIN),
    {
        proof {
            self.buf().lemma_len();
        }
        let value = self.get_buf().get_i64_at(self.offset + 125);
        if value == i64::MIN {
            None
        } else {
            Some(value)
        }
    }

    /// `usedSor`: the code of a `BoolEnum` at byte 133 of the block.
    pub fn used_sor(&self) -> (r: BoolEnum)
        requires
            self.offset_view() + 134 <= self.buf()@.len(),
        ensures
            r == BoolEnum::of_code(read_u8(self.buf()@, self.offset_view() + 133)),
    {
        proof {
            self.buf().lemma_len();
        }
        BoolEnum::from(self.get_buf().get_u8_at(self.offset + 133))
    }

    /// Opens the group `fills`: reads its size prefix at the limit and
    /// moves the limit behind it.
    pub fn fills_decoder(self) -> (r: FillsDecoder<Self>)
        requires
            self.limit_view() + 6 <= self.buf()@.len(),
        ensures
            r.opened(self),
    {
        FillsDecoder::default().wrap(self)
    }

    /// Opens the group `preventedMatches`: reads its size prefix at the limit and
    /// moves the limit behind it.
    pub fn prevented_matches_decoder(self) -> (r: PreventedMatchesDecoder<Self>)
        requires
            self.limit_view() + 6 <= self.buf()@.len(),
        ensures
            r.opened(self),
    {
        PreventedMatchesDecoder::default().wrap(self)
    }

    /// `symbol`: where its bytes begin and how many they are, by the `u8`
    /// length at the limit. The limit moves behind them.
    pub fn symbol_decoder(&mut self) -> (r: (usize, usize))
        requires
            old(self).limit_view() + 1 <= old(self).buf()@.len(),
            old(self).limit_view() + 1 + read_u8(old(self).buf()@, old(self).limit_view() as int)
                <= usize::MAX,
        ensures
            r.0 == old(self).limit_view() + 1,
            r.1 == read_u8(old(self).buf()@, old(self).limit_view() as int),
            final(self).placed_as(*old(self), (r.0 + r.1) as usize),
            *final(self) == old(self).with_limit((r.0 + r.1) as usize),
    {
        proof {
            self.buf().lemma_len();
            self.lemma_with_limit();
            self.lemma_frame();
        }
        let offset = self.get_limit();
        let data_length = self.get_buf().get_u8_at(offset) as usize;
        self.set_limit(offset + 1 + data_length);
        (offset + 1, data_length)
    }

    /// The bytes of `symbol` at the coordinates that `symbol_decoder` gave.
    pub fn symbol_slice(&'a self, coordinates: (usize, usize)) -> (r: &'a [u8])
        requires
            coordinates.0 + coordinates.1 <= self.limit_view(),
            coordinates.0 + coordinates.1 <= self.buf()@.len(),
        ensures
            r@ == self.buf()@.subrange(coordinates.0 as int, coordinates.0 + coordinates.1),
    {
        self.get_buf().get_slice_at(coordinates.0, coordinates.1)
    }

    /// `clientOrderId`: where its bytes begin and how many they are, by the `u8`
    /// length at the limit. The limit moves behind them.
    pub fn client_order_id_decoder(&mut self) -> (r: (usize, usize))
        requires
            old(self).limit_view() + 1 <= old(self).buf()@.len(),
            old(self).limit_view() + 1 + read_u8(old(self).buf()@, old(self).limit_view() as int)
                <= usize::MAX,
        ensures
            r.0 == old(self).limit_view() + 1,
            r.1 == read_u8(old(self).buf()@, old(self).limit_view() as int),
            final(self).placed_as(*old(self), (r.0 + r.1) as usize),
            *final(self) == old(self).with_limit((r.0 + r.1) as usize),
    {
        proof {
            self.buf().lemma_len();
            self.lemma_with_limit();
            self.lemma_frame();
        }
        let offset = self.get_limit();
        let data_length = self.get_buf().get_u8_at(offset) as usize;
        self.set_limit(offset + 1 + data_length);
        (offset + 1, data_length)
    }

    /// The bytes of `clientOrderId` at the coordinates that `client_order_id_decoder` gave.
    pub fn client_order_id_slice(&'a self, coordinates: (usize, usize)) -> (r: &'a [u8])
        requires
            coordinates.0 + coordinates.1 <= self.limit_view(),
            coordinates.0 + coordinates.1 <= self.buf()@.len(),
        ensures
            r@ == self.buf()@.subrange(coordinates.0 as int, coordinates.0 + coordinates.1),
    {
        self.get_buf().get_slice_at(coordinates.0, coordinates.1)
    }
}

#[derive(Debug)]
pub struct FillsDecoder<P> {
    parent: Option<P>,
    block_length: usize,
    count: u32,
    index: usize,
    offset: usize,
}

impl<P> Default for FillsDecoder<P> {
    fn default() -> (r: Self)
        ensures
            r.parent_view() is None,
            r.block_length_view() == 0,
            r.count_view() == 0,
            r.index_view() == 0,
            r.offset_view() == 0,
    {
        Self { parent: None, block_length: 0, count: 0, index: 0, offset: 0 }
    }
}

impl<P> FillsDecoder<P> {
    pub closed spec fn parent_view(self) -> Option<P> {
        self.parent
    }

    pub closed spec fn block_length_view(self) -> usize {
        self.block_length
    }

    pub closed spec fn count_view(self) -> u32 {
        self.count
    }

    pub closed spec fn index_view(self) -> usize {
        self.index
    }

    pub closed spec fn offset_view(self) -> usize {
        self.offset
    }

    /// This codec over another parent, all else kept.
    pub closed spec fn with_parent(self, parent: Option<P>) -> Self {
        Self { parent, ..self }
    }

    /// This codec at another element, all else kept.
    pub closed spec fn with_position(self, index: usize, offset: usize) -> Self {
        Self { index, offset, ..self }
    }

    /// What the exchanges above keep and what they put.
    pub proof fn lemma_frame(self)
        ensures
            forall|parent: Option<P>|
                #![trigger self.with_parent(parent)]
                {
                    let w = self.with_parent(parent);
                    &&& w.parent_view() == parent
                    &&& w.block_length_view() == self.block_length_view()
                    &&& w.count_view() == self.count_view()
                    &&& w.index_view() == self.index_view()
                    &&& w.offset_view() == self.offset_view()
                },
            forall|first: Option<P>, second: Option<P>|
                #![trigger self.with_parent(first).with_parent(second)]
                self.with_parent(first).with_parent(second) == self.with_parent(second),
            self.with_parent(self.parent_view()) == self,
            forall|index: usize, offset: usize|
                #![trigger self.with_position(index, offset)]
                {
                    let w = self.with_position(index, offset);
                    &&& w.parent_view() == self.parent_view()
                    &&& w.index_view() == index
                    &&& w.offset_view() == offset
                    &&& w.block_length_view() == self.block_length_view()
                    &&& w.count_view() == self.count_view()
                },
            forall|parent: Option<P>, index: usize, offset: usize|
                #![trigger self.with_parent(parent).with_position(index, offset)]
                self.with_parent(parent).with_position(index, offset) == self.with_position(
                    index,
                    offset,
                ).with_parent(parent),
    {
    }
}

impl<'a, P> Reader<'a> for FillsDecoder<P> where P: Reader<'a> + Default {
    open spec fn buf_ok(&self) -> bool {
        self.parent_view() is Some && self.parent_view().unwrap().buf_ok()
    }

    open spec fn buf(self) -> ReadBuf<'a> {
        self.parent_view().unwrap().buf()
    }

    fn get_buf(&self) -> (r: &ReadBuf<'a>) {
        self.parent.as_ref().expect("parent missing").get_buf()
    }
}

impl<'a, P> Decoder<'a> for FillsDecoder<P> where P: Decoder<'a> + Default {
    open spec fn limit_view(self) -> usize {
        self.parent_view().unwrap().limit_view()
    }

    open spec fn with_limit(self, limit: usize) -> Self {
        self.with_parent(Some(self.parent_view().unwrap().with_limit(limit)))
    }

    proof fn lemma_with_limit(self) {
        self.parent_view().unwrap().lemma_with_limit();
        self.lemma_frame();
    }

    fn get_limit(&self) -> (r: usize) {
        self.parent.as_ref().expect("parent missing").get_limit()
    }

    fn set_limit(&mut self, limit: usize) {
        self.parent.as_mut().expect("parent missing").set_limit(limit);
    }
}

impl<'a, P> FillsDecoder<P> where P: Decoder<'a> + Default {
    /// This codec stands where `pre` stood, but for the limit, which is at
    /// `limit`.
    pub open spec fn placed_as(self, pre: Self, limit: usize) -> bool {
        &&& self.buf_ok()
        &&& self.limit_view() == limit
        &&& self.block_length_view() == pre.block_length_view()
        &&& self.count_view() == pre.count_view()
        &&& self.index_view() == pre.index_view()
        &&& self.offset_view() == pre.offset_view()
        &&& self.buf() == pre.buf()
    }

    /// Where the walk over the elements stands.
    pub open spec fn cursor(self) -> Cursor {
        Cursor {
            count: self.count_view() as u32,
            index: self.index_view(),
            offset: self.offset_view(),
            block_length: self.block_length_view(),
            limit: self.limit_view(),
        }
    }

    /// What `wrap` makes of `parent`: block length and count are those of
    /// the size prefix at the parent's limit, the limit stands behind the
    /// prefix, and the codec stands before the first element.
    pub open spec fn opened(self, parent: P) -> bool {
        &&& self.block_length_view() == read_u16(parent.buf()@, parent.limit_view() as int)
        &&& self.count_view() == read_u32(parent.buf()@, parent.limit_view() + 2)
        &&& self.index_view() == usize::MAX
        &&& self.offset_view() == 0
        &&& self.buf_ok()
        &&& self.buf() == parent.buf()
        &&& self.limit_view() == parent.limit_view() + 6
        &&& self.parent_view() == Some(parent.with_limit((parent.limit_view() + 6) as usize))
    }

    /// Opens the group at the parent's limit.
    pub fn wrap(self, parent: P) -> (r: Self)
        requires
            parent.buf_ok(),
            parent.limit_view() + 6 <= parent.buf()@.len(),
        ensures
            r.opened(parent),
    {
        let mut parent = parent;
        proof {
            parent.buf().lemma_len();
            parent.lemma_with_limit();
            self.lemma_frame();
        }
        let initial_offset = parent.get_limit();
        let block_length = parent.get_buf().get_u16_at(initial_offset) as usize;
        let count = parent.get_buf().get_u32_at(initial_offset + 2);
        parent.set_limit(initial_offset + 6);
        let mut this = self;
        this.parent = Some(parent);
        this.block_length = block_length;
        this.count = count;
        this.index = usize::MAX;
        this.offset = 0;
        this
    }

    /// Hands the parent back; after that this codec reaches no buffer.
    pub fn parent(&mut self) -> (r: SbeResult<P>)
        ensures
            r == match old(self).parent_view() {
                Some(p) => Ok::<P, SbeErr>(p),
                None => Err::<P, SbeErr>(SbeErr::ParentNotSet),
            },
            *final(self) == old(self).with_parent(None),
    {
        self.parent.take().ok_or(SbeErr::ParentNotSet)
    }

    /// The number of elements that the group declares.
    pub fn count(&self) -> (r: u32)
        ensures
            r == self.count_view(),
    {
        self.count
    }

    /// An element is left to move to, and the parent is there to move in.
    pub open spec fn can_advance(self) -> bool {
        has_next(self.cursor()) && self.parent_view() is Some
    }

    /// What `advance` makes of `pre` where it moves: the cursor has taken
    /// one step, and all else is as it was.
    pub open spec fn advanced(self, pre: Self) -> bool {
        &&& self.cursor() == step(pre.cursor())
        &&& self.buf_ok()
        &&& self.buf() == pre.buf()
        &&& self == pre.with_limit(step(pre.cursor()).limit).with_position(
            step(pre.cursor()).index,
            step(pre.cursor()).offset,
        )
    }

    /// Moves to the next element, if one is left: it begins at the limit,
    /// and the limit moves behind its fixed fields.
    pub fn advance(&mut self) -> (r: SbeResult<Option<usize>>)
        requires
            old(self).can_advance() ==> old(self).buf_ok() && old(self).limit_view() + old(
                self,
            ).cursor().block_length <= usize::MAX,
        ensures
            r == advance_result(old(self).cursor(), old(self).parent_view() is Some),
            old(self).can_advance() ==> final(self).advanced(*old(self)),
            !old(self).can_advance() ==> *final(self) == *old(self),
    {
        proof {
            self.lemma_frame();
            if self.parent_view() is Some {
                self.with_limit(step(self.cursor()).limit).lemma_frame();
            }
        }
        let index = self.index.wrapping_add(1);
        if index >= self.count as usize {
            return Ok(None);
        }
        if let Some(parent) = self.parent.as_mut() {
            proof {
                parent.lemma_with_limit();
            }
            self.offset = parent.get_limit();
            parent.set_limit(self.offset + self.block_length);
            self.index = index;
            Ok(Some(index))
        } else {
            Err(SbeErr::ParentNotSet)
        }
    }

    /// `commissionExponent`: an `i8` at byte 0 of the block.
    pub fn commission_exponent(&self) -> (r: i8)
        requires
            self.buf_ok(),
            self.offset_view() + 1 <= self.buf()@.len(),
        ensures
            r == read_i8(self.buf()@, self.offset_view() as int),
    {
        proof {
            self.buf().lemma_len();
        }
        self.get_buf().get_i8_at(self.offset)
    }

    /// `matchType`: the code of a `MatchType` at byte 1 of the block.
    pub fn match_type(&self) -> (r: MatchType)
        requires
            self.buf_ok(),
            self.offset_view() + 2 <= self.buf()@.len(),
        ensures
            r == MatchType::of_code(read_u8(self.buf()@, self.offset_view() + 1)),
    {
        proof {
            self.buf().lemma_len();
        }
        MatchType::from(self.get_buf().get_u8_at(self.offset + 1))
    }

    /// `price`: an `i64` at byte 2 of the block.
    pub fn price(&self) -> (r: i64)
        requires
            self.buf_ok(),
            self.offset_view() + 10 <= self.buf()@.len(),
        ensures
            r == read_i64(self.buf()@, self.offset_view() + 2),
    {
        proof {
            self.buf().lemma_len();
        }
        self.get_buf().get_i64_at(self.offset + 2)
    }

    /// `qty`: an `i64` at byte 10 of the block.
    pub fn qty(&self) -> (r: i64)
        requires
            self.buf_ok(),
            self.offset_view() + 18 <= self.buf()@.len(),
        ensures
            r == read_i64(self.buf()@, self.offset_view() + 10),
    {
        proof {
            self.buf().lemma_len();
        }
        self.get_buf().get_i64_at(self.offset + 10)
    }

    /// `commission`: an `i64` at byte 18 of the block.
    pub fn commission(&self) -> (r: i64)
        requires
            self.buf_ok(),
            self.offset_view() + 26 <= self.buf()@.len(),
        ensures
            r == read_i64(self.buf()@, self.offset_view() + 18),
    {
        proof {
            self.buf().lemma_len();
        }
        self.get_buf().get_i64_at(self.offset + 18)
    }

    /// `tradeId`: an `i64` at byte 26 of the block.
    /// The least value of the type stands for an absent field.
    pub fn trade_id(&self) -> (r: Option<i64>)
        requires
            self.buf_ok(),
            self.offset_view() + 34 <= self.buf()@.len(),
        ensures
            r == absent_if(read_i64(self.buf()@, self.offset_view() + 26), i64::MIN),
    {
        proof {
            self.buf().lemma_len();
        }
        let value = self.get_buf().get_i64_at(self.offset + 26);
        if value == i64::MIN {
            None
        } else {
            Some(value)
        }
    }

    /// `allocId`: an `i64` at byte 34 of the block.
    /// The least value of the type stands for an absent field.
    pub fn alloc_id(&self) -> (r: Option<i64>)
        requires
            self.buf_ok(),
            self.offset_view() + 42 <= self.buf()@.len(),
        ensures
            r == absent_if(read_i64(self.buf()@, self.offset_view() + 34), i64::MIN),
    {
        proof {
            self.buf().lemma_len();
        }
        let value = self.get_buf().get_i64_at(self.offset + 34);
        if value == i64::MIN {
            None
        } else {
            Some(value)
        }
    }

    /// `commissionAsset`: where its bytes begin and how many they are, by the `u8`
    /// length at the limit. The limit moves behind them.
    pub fn commission_asset_decoder(&mut self) -> (r: (usize, usize))
        requires
            old(self).buf_ok(),
            old(self).limit_view() + 1 <= old(self).buf()@.len(),
            old(self).limit_view() + 1 + read_u8(old(self).buf()@, old(self).limit_view() as int)
                <= usize::MAX,
        ensures
            r.0 == old(self).limit_view() + 1,
            r.1 == read_u8(old(self).buf()@, old(self).limit_view() as int),
            final(self).placed_as(*old(self), (r.0 + r.1) as usize),
            *final(self) == old(self).with_limit((r.0 + r.1) as usize),
    {
        proof {
            self.buf().lemma_len();
            self.lemma_with_limit();
            self.lemma_frame();
        }
        let offset = self.get_limit();
        let data_length = self.get_buf().get_u8_at(offset) as usize;
        self.set_limit(offset + 1 + data_length);
        (offset + 1, data_length)
    }

    /// The bytes of `commissionAsset` at the coordinates that `commission_asset_decoder` gave.
    pub fn commission_asset_slice(&'a self, coordinates: (usize, usize)) -> (r: &'a [u8])
        requires
            self.buf_ok(),
            coordinates.0 + coordinates.1 <= self.limit_view(),
            coordinates.0 + coordinates.1 <= self.buf()@.len(),
        ensures
            r@ == self.buf()@.subrange(coordinates.0 as int, coordinates.0 + coordinates.1),
    {
        self.get_buf().get_slice_at(coordinates.0, coordinates.1)
    }
}

#[derive(Debug)]
pub struct PreventedMatchesDecoder<P> {
    parent: Option<P>,
    block_length: usize,
    count: u32,
    index: usize,
    offset: usize,
}

impl<P> Default for PreventedMatchesDecoder<P> {
    fn default() -> (r: Self)
        ensures
            r.parent_view() is None,
            r.block_length_view() == 0,
            r.count_view() == 0,
            r.index_view() == 0,
            r.offset_view() == 0,
    {
        Self { parent: None, block_length: 0, count: 0, index: 0, offset: 0 }
    }
}

impl<P> PreventedMatchesDecoder<P> {
    pub closed spec fn parent_view(self) -> Option<P> {
        self.parent
    }

    pub closed spec fn block_length_view(self) -> usize {
        self.block_length
    }

    pub closed spec fn count_view(self) -> u32 {
        self.count
    }

    pub closed spec fn index_view(self) -> usize {
        self.index
    }

    pub closed spec fn offset_view(self) -> usize {
        self.offset
    }

    /// This codec over another parent, all else kept.
    pub closed spec fn with_parent(self, parent: Option<P>) -> Self {
        Self { parent, ..self }
    }

    /// This codec at another element, all else kept.
    pub closed spec fn with_position(self, index: usize, offset: usize) -> Self {
        Self { index, offset, ..self }
    }

    /// What the exchanges above keep and what they put.
    pub proof fn lemma_frame(self)
        ensures
            forall|parent: Option<P>|
                #![trigger self.with_parent(parent)]
                {
                    let w = self.with_parent(parent);
                    &&& w.parent_view() == parent
                    &&& w.block_length_view() == self.block_length_view()
                    &&& w.count_view() == self.count_view()
                    &&& w.index_view() == self.index_view()
                    &&& w.offset_view() == self.offset_view()
                },
            forall|first: Option<P>, second: Option<P>|
                #![trigger self.with_parent(first).with_parent(second)]
                self.with_parent(first).with_parent(second) == self.with_parent(second),
            self.with_parent(self.parent_view()) == self,
            forall|index: usize, offset: usize|
                #![trigger self.with_position(index, offset)]
                {
                    let w = self.with_position(index, offset);
                    &&& w.parent_view() == self.parent_view()
                    &&& w.index_view() == index
                    &&& w.offset_view() == offset
                    &&& w.block_length_view() == self.block_length_view()
                    &&& w.count_view() == self.count_view()
                },
            forall|parent: Option<P>, index: usize, offset: usize|
                #![trigger self.with_parent(parent).with_position(index, offset)]
                self.with_parent(parent).with_position(index, offset) == self.with_position(
                    index,
                    offset,
                ).with_parent(parent),
    {
    }
}

impl<'a, P> Reader<'a> for PreventedMatchesDecoder<P> where P: Reader<'a> + Default {
    open spec fn buf_ok(&self) -> bool {
        self.parent_view() is Some && self.parent_view().unwrap().buf_ok()
    }

    open spec fn buf(self) -> ReadBuf<'a> {
        self.parent_view().unwrap().buf()
    }

    fn get_buf(&self) -> (r: &ReadBuf<'a>) {
        self.parent.as_ref().expect("parent missing").get_buf()
    }
}

impl<'a, P> Decoder<'a> for PreventedMatchesDecoder<P> where P: Decoder<'a> + Default {
    open spec fn limit_view(self) -> usize {
        self.parent_view().unwrap().limit_view()
    }

    open spec fn with_limit(self, limit: usize) -> Self {
        self.with_parent(Some(self.parent_view().unwrap().with_limit(limit)))
    }

    proof fn lemma_with_limit(self) {
        self.parent_view().unwrap().lemma_with_limit();
        self.lemma_frame();
    }

    fn get_limit(&self) -> (r: usize) {
        self.parent.as_ref().expect("parent missing").get_limit()
    }

    fn set_limit(&mut self, limit: usize) {
        self.parent.as_mut().expect("parent missing").set_limit(limit);
    }
}

impl<'a, P> PreventedMatchesDecoder<P> where P: Decoder<'a> + Default {
    /// This codec stands where `pre` stood, but for the limit, which is at
    /// `limit`.
    pub open spec fn placed_as(self, pre: Self, limit: usize) -> bool {
        &&& self.buf_ok()
        &&& self.limit_view() == limit
        &&& self.block_length_view() == pre.block_length_view()
        &&& self.count_view() == pre.count_view()
        &&& self.index_view() == pre.index_view()
        &&& self.offset_view() == pre.offset_view()
        &&& self.buf() == pre.buf()
    }

    /// Where the walk over the elements stands.
    pub open spec fn cursor(self) -> Cursor {
        Cursor {
            count: self.count_view() as u32,
            index: self.index_view(),
            offset: self.offset_view(),
            block_length: self.block_length_view(),
            limit: self.limit_view(),
        }
    }

    /// What `wrap` makes of `parent`: block length and count are those of
    /// the size prefix at the parent's limit, the limit stands behind the
    /// prefix, and the codec stands before the first element.
    pub open spec fn opened(self, parent: P) -> bool {
        &&& self.block_length_view() == read_u16(parent.buf()@, parent.limit_view() as int)
        &&& self.count_view() == read_u32(parent.buf()@, parent.limit_view() + 2)
        &&& self.index_view() == usize::MAX
        &&& self.offset_view() == 0
        &&& self.buf_ok()
        &&& self.buf() == parent.buf()
        &&& self.limit_view() == parent.limit_view() + 6
        &&& self.parent_view() == Some(parent.with_limit((parent.limit_view() + 6) as usize))
    }

    /// Opens the group at the parent's limit.
    pub fn wrap(self, parent: P) -> (r: Self)
        requires
            parent.buf_ok(),
            parent.limit_view() + 6 <= parent.buf()@.len(),
        ensures
            r.opened(parent),
    {
        let mut parent = parent;
        proof {
            parent.buf().lemma_len();
            parent.lemma_with_limit();
            self.lemma_frame();
        }
        let initial_offset = parent.get_limit();
        let block_length = parent.get_buf().get_u16_at(initial_offset) as usize;
        let count = parent.get_buf().get_u32_at(initial_offset + 2);
        parent.set_limit(initial_offset + 6);
        let mut this = self;
        this.parent = Some(parent);
        this.block_length = block_length;
        this.count = count;
        this.index = usize::MAX;
        this.offset = 0;
        this
    }

    /// Hands the parent back; after that this codec reaches no buffer.
    pub fn parent(&mut self) -> (r: SbeResult<P>)
        ensures
            r == match old(self).parent_view() {
                Some(p) => Ok::<P, SbeErr>(p),
                None => Err::<P, SbeErr>(SbeErr::ParentNotSet),
            },
            *final(self) == old(self).with_parent(None),
    {
        self.parent.take().ok_or(SbeErr::ParentNotSet)
    }

    /// The number of elements that the group declares.
    pub fn count(&self) -> (r: u32)
        ensures
            r == self.count_view(),
    {
        self.count
    }

    /// An element is left to move to, and the parent is there to move in.
    pub open spec fn can_advance(self) -> bool {
        has_next(self.cursor()) && self.parent_view() is Some
    }

    /// What `advance` makes of `pre` where it moves: the cursor has taken
    /// one step, and all else is as it was.
    pub open spec fn advanced(self, pre: Self) -> bool {
        &&& self.cursor() == step(pre.cursor())
        &&& self.buf_ok()
        &&& self.buf() == pre.buf()
        &&& self == pre.with_limit(step(pre.cursor()).limit).with_position(
            step(pre.cursor()).index,
            step(pre.cursor()).offset,
        )
    }

    /// Moves to the next element, if one is left: it begins at the limit,
    /// and the limit moves behind its fixed fields.
    pub fn advance(&mut self) -> (r: SbeResult<Option<usize>>)
        requires
            old(self).can_advance() ==> old(self).buf_ok() && old(self).limit_view() + old(
                self,
            ).cursor().block_length <= usize::MAX,
        ensures
            r == advance_result(old(self).cursor(), old(self).parent_view() is Some),
            old(self).can_advance() ==> final(self).advanced(*old(self)),
            !old(self).can_advance() ==> *final(self) == *old(self),
    {
        proof {
            self.lemma_frame();
            if self.parent_view() is Some {
                self.with_limit(step(self.cursor()).limit).lemma_frame();
            }
        }
        let index = self.index.wrapping_add(1);
        if index >= self.count as usize {
            return Ok(None);
        }
        if let Some(parent) = self.parent.as_mut() {
            proof {
                parent.lemma_with_limit();
            }
            self.offset = parent.get_limit();
            parent.set_limit(self.offset + self.block_length);
            self.index = index;
            Ok(Some(index))
        } else {
            Err(SbeErr::ParentNotSet)
        }
    }

    /// `preventedMatchId`: an `i64` at byte 0 of the block.
    pub fn prevented_match_id(&self) -> (r: i64)
        requires
            self.buf_ok(),
            self.offset_view() + 8 <= self.buf()@.len(),
        ensures
            r == read_i64(self.buf()@, self.offset_view() as int),
    {
        proof {
            self.buf().lemma_len();
        }
        self.get_buf().get_i64_at(self.offset)
    }

    /// `makerOrderId`: an `i64` at byte 8 of the block.
    /// The least value of the type stands for an absent field.
    pub fn maker_order_id(&self) -> (r: Option<i64>)
        requires
            self.buf_ok(),
            self.offset_view() + 16 <= self.buf()@.len(),
        ensures
            r == absent_if(read_i64(self.buf()@, self.offset_view() + 8), i64::MIN),
    {
        proof {
            self.buf().lemma_len();
        }
        let value = self.get_buf().get_i64_at(self.offset + 8);
        if value == i64::MIN {
            None
        } else {
            Some(value)
        }
    }

    /// `price`: an `i64` at byte 16 of the block.
    /// The least value of the type stands for an absent field.
    pub fn price(&self) -> (r: Option<i64>)
        requires
            self.buf_ok(),
            self.offset_view() + 24 <= self.buf()@.len(),
        ensures
            r == absent_if(read_i64(self.buf()@, self.offset_view() + 16), i64::MIN),
    {
        proof {
            self.buf().lemma_len();
        }
        let value = self.get_buf().get_i64_at(self.offset + 16);
        if value == i64::MIN {
            None
        } else {
            Some(value)
        }
    }

    /// `takerPreventedQuantity`: an `i64` at byte 24 of the block.
    /// The least value of the type stands for an absent field.
    pub fn taker_prevented_quantity(&self) -> (r: Option<i64>)
        requires
            self.buf_ok(),
            self.offset_view() + 32 <= self.buf()@.len(),
        ensures
            r == absent_if(read_i64(self.buf()@, self.offset_view() + 24), i64::MIN),
    {
        proof {
            self.buf().lemma_len();
        }
        let value = self.get_buf().get_i64_at(self.offset + 24);
        if value == i64::MIN {
            None
        } else {
            Some(value)
        }
    }

    /// `makerPreventedQuantity`: an `i64` at byte 32 of the block.
    /// The least value of the type stands for an absent field.
    pub fn maker_prevented_quantity(&self) -> (r: Option<i64>)
        requires
            self.buf_ok(),
            self.offset_view() + 40 <= self.buf()@.len(),
        ensures
            r == absent_if(read_i64(self.buf()@, self.offset_view() + 32), i64::MIN),
    {
        proof {
            self.buf().lemma_len();
        }
        let value = self.get_buf().get_i64_at(self.offset + 32);
        if value == i64::MIN {
            None
        } else {
            Some(value)
        }
    }

    /// `makerSymbol`: where its bytes begin and how many they are, by the `u8`
    /// length at the limit. The limit moves behind them.
    pub fn maker_symbol_decoder(&mut self) -> (r: (usize, usize))
        requires
            old(self).buf_ok(),
            old(self).limit_view() + 1 <= old(self).buf()@.len(),
            old(self).limit_view() + 1 + read_u8(old(self).buf()@, old(self).limit_view() as int)
                <= usize::MAX,
        ensures
            r.0 == old(self).limit_view() + 1,
            r.1 == read_u8(old(self).buf()@, old(self).limit_view() as int),
            final(self).placed_as(*old(self), (r.0 + r.1) as usize),
            *final(self) == old(self).with_limit((r.0 + r.1) as usize),
    {
        proof {
            self.buf().lemma_len();
            self.lemma_with_limit();
            self.lemma_frame();
        }
        let offset = self.get_limit();
        let data_length = self.get_buf().get_u8_at(offset) as usize;
        self.set_limit(offset + 1 + data_length);
        (offset + 1, data_length)
    }

    /// The bytes of `makerSymbol` at the coordinates that `maker_symbol_decoder` gave.
    pub fn maker_symbol_slice(&'a self, coordinates: (usize, usize)) -> (r: &'a [u8])
        requires
            self.buf_ok(),
            coordinates.0 + coordinates.1 <= self.limit_view(),
            coordinates.0 + coordinates.1 <= self.buf()@.len(),
        ensures
            r@ == self.buf()@.subrange(coordinates.0 as int, coordinates.0 + coordinates.1),
    {
        self.get_buf().get_slice_at(coordinates.0, coordinates.1)
    }
}

} // verus!
