//! The message `OrderResponse`, template 304 of schema 1.
use crate::bool_enum::BoolEnum;
use crate::buffer::{ReadBuf, WriteBuf};
use crate::codec::{Decoder, Encoder, Reader, Writer};
use crate::floor::Floor;
use crate::message_header_codec::{MessageHeaderDecoder, MessageHeaderEncoder, write_header};
use crate::order_capacity::OrderCapacity;
use crate::order_side::OrderSide;
use crate::order_status::OrderStatus;
use crate::order_type::OrderType;
use crate::self_trade_prevention_mode::SelfTradePreventionMode;
use crate::time_in_force::TimeInForce;
use crate::wire::{
    absent_if, laid, lemma_laid, lemma_next_field, lemma_read_spelled,
    lemma_read_spelled_unsigned, lemma_round_trip_32, lemma_round_trip_64, lemma_round_trip_8,
    lemma_side_by_side_wider, lemma_u32_value, lemma_u64_value, read_i32, read_i64, read_i8,
    read_u16, read_u8, u32_of, u32_to_le, u64_of, u64_to_le, u8_of, write_i32, write_i64,
    write_i8, write_u8, write_var_u8,
};
use vstd::string::StringSliceAdditionalSpecFns;
use vstd::prelude::*;

verus! {

/// The bytes that the fixed block of this message takes.
pub const SBE_BLOCK_LENGTH: u16 = 151;

pub const SBE_TEMPLATE_ID: u16 = 304;

pub const SBE_SCHEMA_ID: u16 = 1;

pub const SBE_SCHEMA_VERSION: u16 = 0;

pub const SBE_SEMANTIC_VERSION: &'static str = "5.2";

#[derive(Debug)]
pub struct OrderResponseEncoder<'a> {
    buf: WriteBuf<'a>,
    initial_offset: usize,
    offset: usize,
    limit: usize,
}

impl<'a> Default for OrderResponseEncoder<'a> {
    fn default() -> (r: Self)
        ensures
            r.buf()@.len() == 0,
            r.initial_offset_view() == 0,
            r.offset_view() == 0,
            r.limit_view() == 0,
    {
        Self { buf: WriteBuf::default(), initial_offset: 0, offset: 0, limit: 0 }
    }
}

impl<'a> Writer<'a> for OrderResponseEncoder<'a> {
    open spec fn buf_ok(&self) -> bool {
        true
    }

    closed spec fn buf(self) -> WriteBuf<'a> {
        self.buf
    }

    closed spec fn with_buf(self, buf: WriteBuf<'a>) -> Self {
        Self { buf, ..self }
    }

    proof fn lemma_with_buf(self) {
    }

    proof fn lemma_resolved(self) {
        self.lemma_buf_resolved();
        self.buf.lemma_resolved();
    }

    fn get_buf_mut(&mut self) -> (r: &mut WriteBuf<'a>) {
        &mut self.buf
    }
}

impl<'a> Encoder<'a> for OrderResponseEncoder<'a> {
    closed spec fn limit_view(self) -> usize {
        self.limit
    }

    closed spec fn with_limit(self, limit: usize) -> Self {
        Self { limit, ..self }
    }

    proof fn lemma_with_limit(self) {
    }

    fn get_limit(&self) -> (r: usize) {
        self.limit
    }

    fn set_limit(&mut self, limit: usize) {
        self.limit = limit;
    }
}

impl<'a> OrderResponseEncoder<'a> {
    /// Where nothing writes through this encoder any more, nothing writes
    /// through its buffer.
    proof fn lemma_buf_resolved(self)
        requires
            has_resolved(self),
        ensures
            has_resolved(self.buf),
    {
    }

    pub closed spec fn initial_offset_view(self) -> usize {
        self.initial_offset
    }

    /// Where the fixed block begins.
    pub closed spec fn offset_view(self) -> usize {
        self.offset
    }

    /// This encoder stands where `pre` stood, but for the limit, which is
    /// at `limit` (what the buffer holds may differ).
    pub open spec fn placed_as(self, pre: Self, limit: usize) -> bool {
        &&& self.limit_view() == limit
        &&& self.offset_view() == pre.offset_view()
        &&& self.initial_offset_view() == pre.initial_offset_view()
    }

    /// Exchanging the buffer or the limit leaves the offsets alone.
    pub proof fn lemma_frame(self)
        ensures
            forall|buf: WriteBuf<'a>|
                #![trigger self.with_buf(buf)]
                self.with_buf(buf).offset_view() == self.offset_view() && self.with_buf(
                    buf,
                ).initial_offset_view() == self.initial_offset_view(),
            forall|limit: usize|
                #![trigger self.with_limit(limit)]
                self.with_limit(limit).offset_view() == self.offset_view() && self.with_limit(
                    limit,
                ).initial_offset_view() == self.initial_offset_view(),
    {
    }

    /// Places the encoder over `buf` with its fixed block at `offset`; the
    /// limit stands behind the block.
    pub fn wrap(self, buf: WriteBuf<'a>, offset: usize) -> (r: Self)
        requires
            offset + SBE_BLOCK_LENGTH <= usize::MAX,
        ensures
            r.buf() == buf,
            r.initial_offset_view() == offset,
            r.offset_view() == offset,
            r.limit_view() == offset + SBE_BLOCK_LENGTH,
    {
        let limit = offset + SBE_BLOCK_LENGTH as usize;
        let mut this = self;
        this.buf = buf;
        this.initial_offset = offset;
        this.offset = offset;
        this.limit = limit;
        this
    }

    /// The bytes from the start of the block to the limit.
    pub fn encoded_length(&self) -> (r: usize)
        requires
            self.offset_view() <= self.limit_view(),
        ensures
            r == self.limit_view() - self.offset_view(),
    {
        self.limit - self.offset
    }

    /// Writes the header of this message at `offset` and hands out the
    /// header's encoder, which holds this encoder as its parent.
    pub fn header(self, offset: usize) -> (r: MessageHeaderEncoder<Self>)
        requires
            offset + 8 <= self.buf()@.len(),
        ensures
            r.offset_view() == offset,
            r.parent_view() is Some,
            r.buf()@ == write_header(
                self.buf()@,
                offset as int,
                SBE_BLOCK_LENGTH,
                SBE_TEMPLATE_ID,
                SBE_SCHEMA_ID,
                SBE_SCHEMA_VERSION,
            ),
            r.buf()@.len() == self.buf()@.len(),
            final(r.buf().target())@ == final(self.buf().target())@,
            r.parent_view().unwrap().placed_as(self, self.limit_view()),
            r.parent_view().unwrap() == self.with_buf(r.buf()),
    {
        proof {
            self.buf().lemma_len();
            self.lemma_frame();
        }
        let mut header = MessageHeaderEncoder::default().wrap(self, offset);
        proof {
            header.lemma_frame();
            header.lemma_with_buf();
            self.lemma_with_buf();
        }
        header.block_length(SBE_BLOCK_LENGTH);
        proof {
            header.lemma_frame();
            header.lemma_with_buf();
            header.parent_view().unwrap().lemma_with_buf();
        }
        header.template_id(SBE_TEMPLATE_ID);
        proof {
            header.lemma_frame();
            header.lemma_with_buf();
            header.parent_view().unwrap().lemma_with_buf();
        }
        header.schema_id(SBE_SCHEMA_ID);
        proof {
            header.lemma_frame();
            header.lemma_with_buf();
            header.parent_view().unwrap().lemma_with_buf();
        }
        header.version(SBE_SCHEMA_VERSION);
        header
    }

    /// `priceExponent`: an `i8` at byte 0 of the block.
    pub fn price_exponent(&mut self, value: i8)
        requires
            old(self).offset_view() + 1 <= old(self).buf()@.len(),
        ensures
            final(self).buf()@ == write_i8(old(self).buf()@, old(self).offset_view() as int, value),
            final(self).buf()@.len() == old(self).buf()@.len(),
            final(final(self).buf().target())@ == final(old(self).buf().target())@,
            final(self).placed_as(*old(self), old(self).limit_view()),
            *final(self) == old(self).with_buf(final(self).buf()),
    {
        proof {
            self.buf().lemma_len();
            self.lemma_with_buf();
            self.lemma_frame();
            self.lemma_with_limit();
        }
        let offset = self.offset;
        self.get_buf_mut().put_i8_at(offset, value);
    }

    /// `qtyExponent`: an `i8` at byte 1 of the block.
    pub fn qty_exponent(&mut self, value: i8)
        requires
            old(self).offset_view() + 2 <= old(self).buf()@.len(),
        ensures
            final(self).buf()@ == write_i8(old(self).buf()@, old(self).offset_view() + 1, value),
            final(self).buf()@.len() == old(self).buf()@.len(),
            final(final(self).buf().target())@ == final(old(self).buf().target())@,
            final(self).placed_as(*old(self), old(self).limit_view()),
            *final(self) == old(self).with_buf(final(self).buf()),
    {
        proof {
            self.buf().lemma_len();
            self.lemma_with_buf();
            self.lemma_frame();
            self.lemma_with_limit();
        }
        let offset = self.offset + 1;
        self.get_buf_mut().put_i8_at(offset, value);
    }

    /// `orderId`: an `i64` at byte 2 of the block.
    pub fn order_id(&mut self, value: i64)
        requires
            old(self).offset_view() + 10 <= old(self).buf()@.len(),
        ensures
            final(self).buf()@ == write_i64(old(self).buf()@, old(self).offset_view() + 2, value),
            final(self).buf()@.len() == old(self).buf()@.len(),
            final(final(self).buf().target())@ == final(old(self).buf().target())@,
            final(self).placed_as(*old(self), old(self).limit_view()),
            *final(self) == old(self).with_buf(final(self).buf()),
    {
        proof {
            self.buf().lemma_len();
            self.lemma_with_buf();
            self.lemma_frame();
            self.lemma_with_limit();
        }
        let offset = self.offset + 2;
        self.get_buf_mut().put_i64_at(offset, value);
    }

    /// `orderListId`: an `i64` at byte 10 of the block.
    pub fn order_list_id(&mut self, value: i64)
        requires
            old(self).offset_view() + 18 <= old(self).buf()@.len(),
        ensures
            final(self).buf()@ == write_i64(old(self).buf()@, old(self).offset_view() + 10, value),
            final(self).buf()@.len() == old(self).buf()@.len(),
            final(final(self).buf().target())@ == final(old(self).buf().target())@,
            final(self).placed_as(*old(self), old(self).limit_view()),
            *final(self) == old(self).with_buf(final(self).buf()),
    {
        proof {
            self.buf().lemma_len();
            self.lemma_with_buf();
            self.lemma_frame();
            self.lemma_with_limit();
        }
        let offset = self.offset + 10;
        self.get_buf_mut().put_i64_at(offset, value);
    }

    /// `price`: an `i64` at byte 18 of the block.
    pub fn price(&mut self, value: i64)
        requires
            old(self).offset_view() + 26 <= old(self).buf()@.len(),
        ensures
            final(self).buf()@ == write_i64(old(self).buf()@, old(self).offset_view() + 18, value),
            final(self).buf()@.len() == old(self).buf()@.len(),
            final(final(self).buf().target())@ == final(old(self).buf().target())@,
            final(self).placed_as(*old(self), old(self).limit_view()),
            *final(self) == old(self).with_buf(final(self).buf()),
    {
        proof {
            self.buf().lemma_len();
            self.lemma_with_buf();
            self.lemma_frame();
            self.lemma_with_limit();
        }
        let offset = self.offset + 18;
        self.get_buf_mut().put_i64_at(offset, value);
    }

    /// `origQty`: an `i64` at byte 26 of the block.
    pub fn orig_qty(&mut self, value: i64)
        requires
            old(self).offset_view() + 34 <= old(self).buf()@.len(),
        ensures
            final(self).buf()@ == write_i64(old(self).buf()@, old(self).offset_view() + 26, value),
            final(self).buf()@.len() == old(self).buf()@.len(),
            final(final(self).buf().target())@ == final(old(self).buf().target())@,
            final(self).placed_as(*old(self), old(self).limit_view()),
            *final(self) == old(self).with_buf(final(self).buf()),
    {
        proof {
            self.buf().lemma_len();
            self.lemma_with_buf();
            self.lemma_frame();
            self.lemma_with_limit();
        }
        let offset = self.offset + 26;
        self.get_buf_mut().put_i64_at(offset, value);
    }

    /// `executedQty`: an `i64` at byte 34 of the block.
    pub fn executed_qty(&mut self, value: i64)
        requires
            old(self).offset_view() + 42 <= old(self).buf()@.len(),
        ensures
            final(self).buf()@ == write_i64(old(self).buf()@, old(self).offset_view() + 34, value),
            final(self).buf()@.len() == old(self).buf()@.len(),
            final(final(self).buf().target())@ == final(old(self).buf().target())@,
            final(self).placed_as(*old(self), old(self).limit_view()),
            *final(self) == old(self).with_buf(final(self).buf()),
    {
        proof {
            self.buf().lemma_len();
            self.lemma_with_buf();
            self.lemma_frame();
            self.lemma_with_limit();
        }
        let offset = self.offset + 34;
        self.get_buf_mut().put_i64_at(offset, value);
    }

    /// `cummulativeQuoteQty`: an `i64` at byte 42 of the block.
    pub fn cummulative_quote_qty(&mut self, value: i64)
        requires
            old(self).offset_view() + 50 <= old(self).buf()@.len(),
        ensures
            final(self).buf()@ == write_i64(old(self).buf()@, old(self).offset_view() + 42, value),
            final(self).buf()@.len() == old(self).buf()@.len(),
            final(final(self).buf().target())@ == final(old(self).buf().target())@,
            final(self).placed_as(*old(self), old(self).limit_view()),
            *final(self) == old(self).with_buf(final(self).buf()),
    {
        proof {
            self.buf().lemma_len();
            self.lemma_with_buf();
            self.lemma_frame();
            self.lemma_with_limit();
        }
        let offset = self.offset + 42;
        self.get_buf_mut().put_i64_at(offset, value);
    }

    /// `status`: the code of a `OrderStatus` at byte 50 of the block.
    pub fn status(&mut self, value: OrderStatus)
        requires
            old(self).offset_view() + 51 <= old(self).buf()@.len(),
        ensures
            final(self).buf()@ == write_u8(
                old(self).buf()@,
                old(self).offset_view() + 50,
                value.code_view(),
            ),
            final(self).buf()@.len() == old(self).buf()@.len(),
            final(final(self).buf().target())@ == final(old(self).buf().target())@,
            final(self).placed_as(*old(self), old(self).limit_view()),
            *final(self) == old(self).with_buf(final(self).buf()),
    {
        proof {
            self.buf().lemma_len();
            self.lemma_with_buf();
            self.lemma_frame();
            self.lemma_with_limit();
        }
        let offset = self.offset + 50;
        self.get_buf_mut().put_u8_at(offset, value.code());
    }

    /// `timeInForce`: the code of a `TimeInForce` at byte 51 of the block.
    pub fn time_in_force(&mut self, value: TimeInForce)
        requires
            old(self).offset_view() + 52 <= old(self).buf()@.len(),
        ensures
            final(self).buf()@ == write_u8(
                old(self).buf()@,
                old(self).offset_view() + 51,
                value.code_view(),
            ),
            final(self).buf()@.len() == old(self).buf()@.len(),
            final(final(self).buf().target())@ == final(old(self).buf().target())@,
            final(self).placed_as(*old(self), old(self).limit_view()),
            *final(self) == old(self).with_buf(final(self).buf()),
    {
        proof {
            self.buf().lemma_len();
            self.lemma_with_buf();
            self.lemma_frame();
            self.lemma_with_limit();
        }
        let offset = self.offset + 51;
        self.get_buf_mut().put_u8_at(offset, value.code());
    }

    /// `orderType`: the code of a `OrderType` at byte 52 of the block.
    pub fn order_type(&mut self, value: OrderType)
        requires
            old(self).offset_view() + 53 <= old(self).buf()@.len(),
        ensures
            final(self).buf()@ == write_u8(
                old(self).buf()@,
                old(self).offset_view() + 52,
                value.code_view(),
            ),
            final(self).buf()@.len() == old(self).buf()@.len(),
            final(final(self).buf().target())@ == final(old(self).buf().target())@,
            final(self).placed_as(*old(self), old(self).limit_view()),
            *final(self) == old(self).with_buf(final(self).buf()),
    {
        proof {
            self.buf().lemma_len();
            self.lemma_with_buf();
            self.lemma_frame();
            self.lemma_with_limit();
        }
        let offset = self.offset + 52;
        self.get_buf_mut().put_u8_at(offset, value.code());
    }

    /// `side`: the code of a `OrderSide` at byte 53 of the block.
    pub fn side(&mut self, value: OrderSide)
        requires
            old(self).offset_view() + 54 <= old(self).buf()@.len(),
        ensures
            final(self).buf()@ == write_u8(
                old(self).buf()@,
                old(self).offset_view() + 53,
                value.code_view(),
            ),
            final(self).buf()@.len() == old(self).buf()@.len(),
            final(final(self).buf().target())@ == final(old(self).buf().target())@,
            final(self).placed_as(*old(self), old(self).limit_view()),
            *final(self) == old(self).with_buf(final(self).buf()),
    {
        proof {
            self.buf().lemma_len();
            self.lemma_with_buf();
            self.lemma_frame();
            self.lemma_with_limit();
        }
        let offset = self.offset + 53;
        self.get_buf_mut().put_u8_at(offset, value.code());
    }

    /// `stopPrice`: an `i64` at byte 54 of the block.
    pub fn stop_price(&mut self, value: i64)
        requires
            old(self).offset_view() + 62 <= old(self).buf()@.len(),
        ensures
            final(self).buf()@ == write_i64(old(self).buf()@, old(self).offset_view() + 54, value),
            final(self).buf()@.len() == old(self).buf()@.len(),
            final(final(self).buf().target())@ == final(old(self).buf().target())@,
            final(self).placed_as(*old(self), old(self).limit_view()),
            *final(self) == old(self).with_buf(final(self).buf()),
    {
        proof {
            self.buf().lemma_len();
            self.lemma_with_buf();
            self.lemma_frame();
            self.lemma_with_limit();
        }
        let offset = self.offset + 54;
        self.get_buf_mut().put_i64_at(offset, value);
    }

    /// `trailingDelta`: an `i64` at byte 62 of the block.
    pub fn trailing_delta(&mut self, value: i64)
        requires
            old(self).offset_view() + 70 <= old(self).buf()@.len(),
        ensures
            final(self).buf()@ == write_i64(old(self).buf()@, old(self).offset_view() + 62, value),
            final(self).buf()@.len() == old(self).buf()@.len(),
            final(final(self).buf().target())@ == final(old(self).buf().target())@,
            final(self).placed_as(*old(self), old(self).limit_view()),
            *final(self) == old(self).with_buf(final(self).buf()),
    {
        proof {
            self.buf().lemma_len();
            self.lemma_with_buf();
            self.lemma_frame();
            self.lemma_with_limit();
        }
        let offset = self.offset + 62;
        self.get_buf_mut().put_i64_at(offset, value);
    }

    /// `trailingTime`: an `i64` at byte 70 of the block.
    pub fn trailing_time(&mut self, value: i64)
        requires
            old(self).offset_view() + 78 <= old(self).buf()@.len(),
        ensures
            final(self).buf()@ == write_i64(old(self).buf()@, old(self).offset_view() + 70, value),
            final(self).buf()@.len() == old(self).buf()@.len(),
            final(final(self).buf().target())@ == final(old(self).buf().target())@,
            final(self).placed_as(*old(self), old(self).limit_view()),
            *final(self) == old(self).with_buf(final(self).buf()),
    {
        proof {
            self.buf().lemma_len();
            self.lemma_with_buf();
            self.lemma_frame();
            self.lemma_with_limit();
        }
        let offset = self.offset + 70;
        self.get_buf_mut().put_i64_at(offset, value);
    }

    /// `icebergQty`: an `i64` at byte 78 of the block.
    pub fn iceberg_qty(&mut self, value: i64)
        requires
            old(self).offset_view() + 86 <= old(self).buf()@.len(),
        ensures
            final(self).buf()@ == write_i64(old(self).buf()@, old(self).offset_view() + 78, value),
            final(self).buf()@.len() == old(self).buf()@.len(),
            final(final(self).buf().target())@ == final(old(self).buf().target())@,
            final(self).placed_as(*old(self), old(self).limit_view()),
            *final(self) == old(self).with_buf(final(self).buf()),
    {
        proof {
            self.buf().lemma_len();
            self.lemma_with_buf();
            self.lemma_frame();
            self.lemma_with_limit();
        }
        let offset = self.offset + 78;
        self.get_buf_mut().put_i64_at(offset, value);
    }

    /// `time`: an `i64` at byte 86 of the block.
    pub fn time(&mut self, value: i64)
        requires
            old(self).offset_view() + 94 <= old(self).buf()@.len(),
        ensures
            final(self).buf()@ == write_i64(old(self).buf()@, old(self).offset_view() + 86, value),
            final(self).buf()@.len() == old(self).buf()@.len(),
            final(final(self).buf().target())@ == final(old(self).buf().target())@,
            final(self).placed_as(*old(self), old(self).limit_view()),
            *final(self) == old(self).with_buf(final(self).buf()),
    {
        proof {
            self.buf().lemma_len();
            self.lemma_with_buf();
            self.lemma_frame();
            self.lemma_with_limit();
        }
        let offset = self.offset + 86;
        self.get_buf_mut().put_i64_at(offset, value);
    }

    /// `updateTime`: an `i64` at byte 94 of the block.
    pub fn update_time(&mut self, value: i64)
        requires
            old(self).offset_view() + 102 <= old(self).buf()@.len(),
        ensures
            final(self).buf()@ == write_i64(old(self).buf()@, old(self).offset_view() + 94, value),
            final(self).buf()@.len() == old(self).buf()@.len(),
            final(final(self).buf().target())@ == final(old(self).buf().target())@,
            final(self).placed_as(*old(self), old(self).limit_view()),
            *final(self) == old(self).with_buf(final(self).buf()),
    {
        proof {
            self.buf().lemma_len();
            self.lemma_with_buf();
            self.lemma_frame();
            self.lemma_with_limit();
        }
        let offset = self.offset + 94;
        self.get_buf_mut().put_i64_at(offset, value);
    }

    /// `isWorking`: the code of a `BoolEnum` at byte 102 of the block.
    pub fn is_working(&mut self, value: BoolEnum)
        requires
            old(self).offset_view() + 103 <= old(self).buf()@.len(),
        ensures
            final(self).buf()@ == write_u8(
                old(self).buf()@,
                old(self).offset_view() + 102,
                value.code_view(),
            ),
            final(self).buf()@.len() == old(self).buf()@.len(),
            final(final(self).buf().target())@ == final(old(self).buf().target())@,
            final(self).placed_as(*old(self), old(self).limit_view()),
            *final(self) == old(self).with_buf(final(self).buf()),
    {
        proof {
            self.buf().lemma_len();
            self.lemma_with_buf();
            self.lemma_frame();
            self.lemma_with_limit();
        }
        let offset = self.offset + 102;
        self.get_buf_mut().put_u8_at(offset, value.code());
    }

    /// `workingTime`: an `i64` at byte 103 of the block.
    pub fn working_time(&mut self, value: i64)
        requires
            old(self).offset_view() + 111 <= old(self).buf()@.len(),
        ensures
            final(self).buf()@ == write_i64(old(self).buf()@, old(self).offset_view() + 103, value),
            final(self).buf()@.len() == old(self).buf()@.len(),
            final(final(self).buf().target())@ == final(old(self).buf().target())@,
            final(self).placed_as(*old(self), old(self).limit_view()),
            *final(self) == old(self).with_buf(final(self).buf()),
    {
        proof {
            self.buf().lemma_len();
            self.lemma_with_buf();
            self.lemma_frame();
            self.lemma_with_limit();
        }
        let offset = self.offset + 103;
        self.get_buf_mut().put_i64_at(offset, value);
    }

    /// `origQuoteOrderQty`: an `i64` at byte 111 of the block.
    pub fn orig_quote_order_qty(&mut self, value: i64)
        requires
            old(self).offset_view() + 119 <= old(self).buf()@.len(),
        ensures
            final(self).buf()@ == write_i64(old(self).buf()@, old(self).offset_view() + 111, value),
            final(self).buf()@.len() == old(self).buf()@.len(),
            final(final(self).buf().target())@ == final(old(self).buf().target())@,
            final(self).placed_as(*old(self), old(self).limit_view()),
            *final(self) == old(self).with_buf(final(self).buf()),
    {
        proof {
            self.buf().lemma_len();
            self.lemma_with_buf();
            self.lemma_frame();
            self.lemma_with_limit();
        }
        let offset = self.offset + 111;
        self.get_buf_mut().put_i64_at(offset, value);
    }

    /// `strategyId`: an `i64` at byte 119 of the block.
    pub fn strategy_id(&mut self, value: i64)
        requires
            old(self).offset_view() + 127 <= old(self).buf()@.len(),
        ensures
            final(self).buf()@ == write_i64(old(self).buf()@, old(self).offset_view() + 119, value),
            final(self).buf()@.len() == old(self).buf()@.len(),
            final(final(self).buf().target())@ == final(old(self).buf().target())@,
            final(self).placed_as(*old(self), old(self).limit_view()),
            *final(self) == old(self).with_buf(final(self).buf()),
    {
        proof {
            self.buf().lemma_len();
            self.lemma_with_buf();
            self.lemma_frame();
            self.lemma_with_limit();
        }
        let offset = self.offset + 119;
        self.get_buf_mut().put_i64_at(offset, value);
    }

    /// `strategyType`: an `i32` at byte 127 of the block.
    pub fn strategy_type(&mut self, value: i32)
        requires
            old(self).offset_view() + 131 <= old(self).buf()@.len(),
        ensures
            final(self).buf()@ == write_i32(old(self).buf()@, old(self).offset_view() + 127, value),
            final(self).buf()@.len() == old(self).buf()@.len(),
            final(final(self).buf().target())@ == final(old(self).buf().target())@,
            final(self).placed_as(*old(self), old(self).limit_view()),
            *final(self) == old(self).with_buf(final(self).buf()),
    {
        proof {
            self.buf().lemma_len();
            self.lemma_with_buf();
            self.lemma_frame();
            self.lemma_with_limit();
        }
        let offset = self.offset + 127;
        self.get_buf_mut().put_i32_at(offset, value);
    }

    /// `orderCapacity`: the code of a `OrderCapacity` at byte 131 of the block.
    pub fn order_capacity(&mut self, value: OrderCapacity)
        requires
            old(self).offset_view() + 132 <= old(self).buf()@.len(),
        ensures
            final(self).buf()@ == write_u8(
                old(self).buf()@,
                old(self).offset_view() + 131,
                value.code_view(),
            ),
            final(self).buf()@.len() == old(self).buf()@.len(),
            final(final(self).buf().target())@ == final(old(self).buf().target())@,
            final(self).placed_as(*old(self), old(self).limit_view()),
            *final(self) == old(self).with_buf(final(self).buf()),
    {
        proof {
            self.buf().lemma_len();
            self.lemma_with_buf();
            self.lemma_frame();
            self.lemma_with_limit();
        }
        let offset = self.offset + 131;
        self.get_buf_mut().put_u8_at(offset, value.code());
    }

    /// `workingFloor`: the code of a `Floor` at byte 132 of the block.
    pub fn working_floor(&mut self, value: Floor)
        requires
            old(self).offset_view() + 133 <= old(self).buf()@.len(),
        ensures
            final(self).buf()@ == write_u8(
                old(self).buf()@,
                old(self).offset_view() + 132,
                value.code_view(),
            ),
            final(self).buf()@.len() == old(self).buf()@.len(),
            final(final(self).buf().target())@ == final(old(self).buf().target())@,
            final(self).placed_as(*old(self), old(self).limit_view()),
            *final(self) == old(self).with_buf(final(self).buf()),
    {
        proof {
            self.buf().lemma_len();
            self.lemma_with_buf();
            self.lemma_frame();
            self.lemma_with_limit();
        }
        let offset = self.offset + 132;
        self.get_buf_mut().put_u8_at(offset, value.code());
    }

    /// `selfTradePreventionMode`:
    /// the code of a `SelfTradePreventionMode` at byte 133 of the block.
    pub fn self_trade_prevention_mode(&mut self, value: SelfTradePreventionMode)
        requires
            old(self).offset_view() + 134 <= old(self).buf()@.len(),
        ensures
            final(self).buf()@ == write_u8(
                old(self).buf()@,
                old(self).offset_view() + 133,
                value.code_view(),
            ),
            final(self).buf()@.len() == old(self).buf()@.len(),
            final(final(self).buf().target())@ == final(old(self).buf().target())@,
            final(self).placed_as(*old(self), old(self).limit_view()),
            *final(self) == old(self).with_buf(final(self).buf()),
    {
        proof {
            self.buf().lemma_len();
            self.lemma_with_buf();
            self.lemma_frame();
            self.lemma_with_limit();
        }
        let offset = self.offset + 133;
        self.get_buf_mut().put_u8_at(offset, value.code());
    }

    /// `preventedMatchId`: an `i64` at byte 134 of the block.
    pub fn prevented_match_id(&mut self, value: i64)
        requires
            old(self).offset_view() + 142 <= old(self).buf()@.len(),
        ensures
            final(self).buf()@ == write_i64(old(self).buf()@, old(self).offset_view() + 134, value),
            final(self).buf()@.len() == old(self).buf()@.len(),
            final(final(self).buf().target())@ == final(old(self).buf().target())@,
            final(self).placed_as(*old(self), old(self).limit_view()),
            *final(self) == old(self).with_buf(final(self).buf()),
    {
        proof {
            self.buf().lemma_len();
            self.lemma_with_buf();
            self.lemma_frame();
            self.lemma_with_limit();
        }
        let offset = self.offset + 134;
        self.get_buf_mut().put_i64_at(offset, value);
    }

    /// `preventedQuantity`: an `i64` at byte 142 of the block.
    pub fn prevented_quantity(&mut self, value: i64)
        requires
            old(self).offset_view() + 150 <= old(self).buf()@.len(),
        ensures
            final(self).buf()@ == write_i64(old(self).buf()@, old(self).offset_view() + 142, value),
            final(self).buf()@.len() == old(self).buf()@.len(),
            final(final(self).buf().target())@ == final(old(self).buf().target())@,
            final(self).placed_as(*old(self), old(self).limit_view()),
            *final(self) == old(self).with_buf(final(self).buf()),
    {
        proof {
            self.buf().lemma_len();
            self.lemma_with_buf();
            self.lemma_frame();
            self.lemma_with_limit();
        }
        let offset = self.offset + 142;
        self.get_buf_mut().put_i64_at(offset, value);
    }

    /// `usedSor`: the code of a `BoolEnum` at byte 150 of the block.
    pub fn used_sor(&mut self, value: BoolEnum)
        requires
            old(self).offset_view() + 151 <= old(self).buf()@.len(),
        ensures
            final(self).buf()@ == write_u8(
                old(self).buf()@,
                old(self).offset_view() + 150,
                value.code_view(),
            ),
            final(self).buf()@.len() == old(self).buf()@.len(),
            final(final(self).buf().target())@ == final(old(self).buf().target())@,
            final(self).placed_as(*old(self), old(self).limit_view()),
            *final(self) == old(self).with_buf(final(self).buf()),
    {
        proof {
            self.buf().lemma_len();
            self.lemma_with_buf();
            self.lemma_frame();
            self.lemma_with_limit();
        }
        let offset = self.offset + 150;
        self.get_buf_mut().put_u8_at(offset, value.code());
    }

    /// `symbol`: text behind a `u8` length, appended at the limit.
    /// A length that the prefix cannot hold is cut to its low bits.
    pub fn symbol(&mut self, value: &str)
        requires
            old(self).limit_view() + 1 + value.spec_bytes().len() <= old(self).buf()@.len(),
        ensures
            final(self).buf()@ == write_var_u8(
                old(self).buf()@,
                old(self).limit_view() as int,
                value.spec_bytes(),
            ),
            final(self).buf()@.len() == old(self).buf()@.len(),
            final(final(self).buf().target())@ == final(old(self).buf().target())@,
            final(self).placed_as(
                *old(self),
                (old(self).limit_view() + 1 + value.spec_bytes().len()) as usize,
            ),
            *final(self) == old(self).with_limit(
                (old(self).limit_view() + 1 + value.spec_bytes().len()) as usize,
            ).with_buf(final(self).buf()),
    {
        proof {
            self.buf().lemma_len();
            self.lemma_with_buf();
            self.lemma_with_limit();
            self.lemma_frame();
        }
        let limit = self.get_limit();
        let data_length = value.len();
        self.set_limit(limit + 1 + data_length);
        proof {
            self.lemma_with_buf();
            self.lemma_with_limit();
            self.lemma_frame();
        }
        self.get_buf_mut().put_u8_at(limit, #[verifier::truncate] (data_length as u8));
        proof {
            self.lemma_with_buf();
            self.lemma_with_limit();
            self.lemma_frame();
        }
        self.get_buf_mut().put_slice_at(limit + 1, value.as_bytes());
    }

    /// `clientOrderId`: text behind a `u8` length, appended at the limit.
    /// A length that the prefix cannot hold is cut to its low bits.
    pub fn client_order_id(&mut self, value: &str)
        requires
            old(self).limit_view() + 1 + value.spec_bytes().len() <= old(self).buf()@.len(),
        ensures
            final(self).buf()@ == write_var_u8(
                old(self).buf()@,
                old(self).limit_view() as int,
                value.spec_bytes(),
            ),
            final(self).buf()@.len() == old(self).buf()@.len(),
            final(final(self).buf().target())@ == final(old(self).buf().target())@,
            final(self).placed_as(
                *old(self),
                (old(self).limit_view() + 1 + value.spec_bytes().len()) as usize,
            ),
            *final(self) == old(self).with_limit(
                (old(self).limit_view() + 1 + value.spec_bytes().len()) as usize,
            ).with_buf(final(self).buf()),
    {
        proof {
            self.buf().lemma_len();
            self.lemma_with_buf();
            self.lemma_with_limit();
            self.lemma_frame();
        }
        let limit = self.get_limit();
        let data_length = value.len();
        self.set_limit(limit + 1 + data_length);
        proof {
            self.lemma_with_buf();
            self.lemma_with_limit();
            self.lemma_frame();
        }
        self.get_buf_mut().put_u8_at(limit, #[verifier::truncate] (data_length as u8));
        proof {
            self.lemma_with_buf();
            self.lemma_with_limit();
            self.lemma_frame();
        }
        self.get_buf_mut().put_slice_at(limit + 1, value.as_bytes());
    }
}

/// The bytes after every fixed field of the block at `base` was set
/// once, in the order of the fields: what the setters make of `s`.
#[verifier::opaque]
pub open spec fn block_written(
    s: Seq<u8>,
    base: int,
    price_exponent: i8,
    qty_exponent: i8,
    order_id: i64,
    order_list_id: i64,
    price: i64,
    orig_qty: i64,
    executed_qty: i64,
    cummulative_quote_qty: i64,
    status: OrderStatus,
    time_in_force: TimeInForce,
    order_type: OrderType,
    side: OrderSide,
    stop_price: i64,
    trailing_delta: i64,
    trailing_time: i64,
    iceberg_qty: i64,
    time: i64,
    update_time: i64,
    is_working: BoolEnum,
    working_time: i64,
    orig_quote_order_qty: i64,
    strategy_id: i64,
    strategy_type: i32,
    order_capacity: OrderCapacity,
    working_floor: Floor,
    self_trade_prevention_mode: SelfTradePreventionMode,
    prevented_match_id: i64,
    prevented_quantity: i64,
    used_sor: BoolEnum,
) -> Seq<u8> {
    let s = write_i8(s, base, price_exponent);
    let s = write_i8(s, base + 1, qty_exponent);
    let s = write_i64(s, base + 2, order_id);
    let s = write_i64(s, base + 10, order_list_id);
    let s = write_i64(s, base + 18, price);
    let s = write_i64(s, base + 26, orig_qty);
    let s = write_i64(s, base + 34, executed_qty);
    let s = write_i64(s, base + 42, cummulative_quote_qty);
    let s = write_u8(s, base + 50, status.code_view());
    let s = write_u8(s, base + 51, time_in_force.code_view());
    let s = write_u8(s, base + 52, order_type.code_view());
    let s = write_u8(s, base + 53, side.code_view());
    let s = write_i64(s, base + 54, stop_price);
    let s = write_i64(s, base + 62, trailing_delta);
    let s = write_i64(s, base + 70, trailing_time);
    let s = write_i64(s, base + 78, iceberg_qty);
    let s = write_i64(s, base + 86, time);
    let s = write_i64(s, base + 94, update_time);
    let s = write_u8(s, base + 102, is_working.code_view());
    let s = write_i64(s, base + 103, working_time);
    let s = write_i64(s, base + 111, orig_quote_order_qty);
    let s = write_i64(s, base + 119, strategy_id);
    let s = write_i32(s, base + 127, strategy_type);
    let s = write_u8(s, base + 131, order_capacity.code_view());
    let s = write_u8(s, base + 132, working_floor.code_view());
    let s = write_u8(s, base + 133, self_trade_prevention_mode.code_view());
    let s = write_i64(s, base + 134, prevented_match_id);
    let s = write_i64(s, base + 142, prevented_quantity);
    let s = write_u8(s, base + 150, used_sor.code_view());
    s
}

/// Every fixed field of the block is read as it was set: the fields
/// lie side by side within the block, and the length is as it was.
pub proof fn lemma_block_round_trip(
    s: Seq<u8>,
    base: int,
    price_exponent: i8,
    qty_exponent: i8,
    order_id: i64,
    order_list_id: i64,
    price: i64,
    orig_qty: i64,
    executed_qty: i64,
    cummulative_quote_qty: i64,
    status: OrderStatus,
    time_in_force: TimeInForce,
    order_type: OrderType,
    side: OrderSide,
    stop_price: i64,
    trailing_delta: i64,
    trailing_time: i64,
    iceberg_qty: i64,
    time: i64,
    update_time: i64,
    is_working: BoolEnum,
    working_time: i64,
    orig_quote_order_qty: i64,
    strategy_id: i64,
    strategy_type: i32,
    order_capacity: OrderCapacity,
    working_floor: Floor,
    self_trade_prevention_mode: SelfTradePreventionMode,
    prevented_match_id: i64,
    prevented_quantity: i64,
    used_sor: BoolEnum,
)
    requires
        0 <= base,
        base + SBE_BLOCK_LENGTH <= s.len(),
    ensures
        ({
            let t = block_written(
                s,
                base,
                price_exponent,
                qty_exponent,
                order_id,
                order_list_id,
                price,
                orig_qty,
                executed_qty,
                cummulative_quote_qty,
                status,
                time_in_force,
                order_type,
                side,
                stop_price,
                trailing_delta,
                trailing_time,
                iceberg_qty,
                time,
                update_time,
                is_working,
                working_time,
                orig_quote_order_qty,
                strategy_id,
                strategy_type,
                order_capacity,
                working_floor,
                self_trade_prevention_mode,
                prevented_match_id,
                prevented_quantity,
                used_sor,
            );
            &&& t.len() == s.len()
            &&& read_i8(t, base) == price_exponent
            &&& read_i8(t, base + 1) == qty_exponent
            &&& read_i64(t, base + 2) == order_id
            &&& read_i64(t, base + 10) == order_list_id
            &&& read_i64(t, base + 18) == price
            &&& read_i64(t, base + 26) == orig_qty
            &&& read_i64(t, base + 34) == executed_qty
            &&& read_i64(t, base + 42) == cummulative_quote_qty
            &&& OrderStatus::of_code(read_u8(t, base + 50)) == status
            &&& TimeInForce::of_code(read_u8(t, base + 51)) == time_in_force
            &&& OrderType::of_code(read_u8(t, base + 52)) == order_type
            &&& OrderSide::of_code(read_u8(t, base + 53)) == side
            &&& read_i64(t, base + 54) == stop_price
            &&& read_i64(t, base + 62) == trailing_delta
            &&& read_i64(t, base + 70) == trailing_time
            &&& read_i64(t, base + 78) == iceberg_qty
            &&& read_i64(t, base + 86) == time
            &&& read_i64(t, base + 94) == update_time
            &&& BoolEnum::of_code(read_u8(t, base + 102)) == is_working
            &&& read_i64(t, base + 103) == working_time
            &&& read_i64(t, base + 111) == orig_quote_order_qty
            &&& read_i64(t, base + 119) == strategy_id
            &&& read_i32(t, base + 127) == strategy_type
            &&& OrderCapacity::of_code(read_u8(t, base + 131)) == order_capacity
            &&& Floor::of_code(read_u8(t, base + 132)) == working_floor
            &&& SelfTradePreventionMode::of_code(read_u8(t, base + 133)) == self_trade_prevention_mode
            &&& read_i64(t, base + 134) == prevented_match_id
            &&& read_i64(t, base + 142) == prevented_quantity
            &&& BoolEnum::of_code(read_u8(t, base + 150)) == used_sor
        }),
{
    reveal(block_written);
    let b1 = seq![u8_of(price_exponent)];
    let b2 = seq![u8_of(qty_exponent)];
    let b3 = u64_to_le(u64_of(order_id));
    lemma_u64_value(u64_of(order_id));
    let b4 = u64_to_le(u64_of(order_list_id));
    lemma_u64_value(u64_of(order_list_id));
    let b5 = u64_to_le(u64_of(price));
    lemma_u64_value(u64_of(price));
    let b6 = u64_to_le(u64_of(orig_qty));
    lemma_u64_value(u64_of(orig_qty));
    let b7 = u64_to_le(u64_of(executed_qty));
    lemma_u64_value(u64_of(executed_qty));
    let b8 = u64_to_le(u64_of(cummulative_quote_qty));
    lemma_u64_value(u64_of(cummulative_quote_qty));
    let b9 = seq![status.code_view()];
    let b10 = seq![time_in_force.code_view()];
    let b11 = seq![order_type.code_view()];
    let b12 = seq![side.code_view()];
    let b13 = u64_to_le(u64_of(stop_price));
    lemma_u64_value(u64_of(stop_price));
    let b14 = u64_to_le(u64_of(trailing_delta));
    lemma_u64_value(u64_of(trailing_delta));
    let b15 = u64_to_le(u64_of(trailing_time));
    lemma_u64_value(u64_of(trailing_time));
    let b16 = u64_to_le(u64_of(iceberg_qty));
    lemma_u64_value(u64_of(iceberg_qty));
    let b17 = u64_to_le(u64_of(time));
    lemma_u64_value(u64_of(time));
    let b18 = u64_to_le(u64_of(update_time));
    lemma_u64_value(u64_of(update_time));
    let b19 = seq![is_working.code_view()];
    let b20 = u64_to_le(u64_of(working_time));
    lemma_u64_value(u64_of(working_time));
    let b21 = u64_to_le(u64_of(orig_quote_order_qty));
    lemma_u64_value(u64_of(orig_quote_order_qty));
    let b22 = u64_to_le(u64_of(strategy_id));
    lemma_u64_value(u64_of(strategy_id));
    let b23 = u32_to_le(u32_of(strategy_type));
    lemma_u32_value(u32_of(strategy_type));
    let b24 = seq![order_capacity.code_view()];
    let b25 = seq![working_floor.code_view()];
    let b26 = seq![self_trade_prevention_mode.code_view()];
    let b27 = u64_to_le(u64_of(prevented_match_id));
    lemma_u64_value(u64_of(prevented_match_id));
    let b28 = u64_to_le(u64_of(prevented_quantity));
    lemma_u64_value(u64_of(prevented_quantity));
    let b29 = seq![used_sor.code_view()];
    let fields = |k: int|
        if k == 0 {
            (0int, b1)
        } else if k == 1 {
            (1int, b2)
        } else if k == 2 {
            (2int, b3)
        } else if k == 3 {
            (10int, b4)
        } else if k == 4 {
            (18int, b5)
        } else if k == 5 {
            (26int, b6)
        } else if k == 6 {
            (34int, b7)
        } else if k == 7 {
            (42int, b8)
        } else if k == 8 {
            (50int, b9)
        } else if k == 9 {
            (51int, b10)
        } else if k == 10 {
            (52int, b11)
        } else if k == 11 {
            (53int, b12)
        } else if k == 12 {
            (54int, b13)
        } else if k == 13 {
            (62int, b14)
        } else if k == 14 {
            (70int, b15)
        } else if k == 15 {
            (78int, b16)
        } else if k == 16 {
            (86int, b17)
        } else if k == 17 {
            (94int, b18)
        } else if k == 18 {
            (102int, b19)
        } else if k == 19 {
            (103int, b20)
        } else if k == 20 {
            (111int, b21)
        } else if k == 21 {
            (119int, b22)
        } else if k == 22 {
            (127int, b23)
        } else if k == 23 {
            (131int, b24)
        } else if k == 24 {
            (132int, b25)
        } else if k == 25 {
            (133int, b26)
        } else if k == 26 {
            (134int, b27)
        } else if k == 27 {
            (142int, b28)
        } else if k == 28 {
            (150int, b29)
        } else {
            (0int, Seq::<u8>::empty())
        };
    lemma_next_field(s, base, fields, 0, 0, 1);
    lemma_next_field(s, base, fields, 1, 1, 2);
    lemma_next_field(s, base, fields, 2, 2, 10);
    lemma_next_field(s, base, fields, 3, 10, 18);
    lemma_next_field(s, base, fields, 4, 18, 26);
    lemma_next_field(s, base, fields, 5, 26, 34);
    lemma_next_field(s, base, fields, 6, 34, 42);
    lemma_next_field(s, base, fields, 7, 42, 50);
    lemma_next_field(s, base, fields, 8, 50, 51);
    lemma_next_field(s, base, fields, 9, 51, 52);
    lemma_next_field(s, base, fields, 10, 52, 53);
    lemma_next_field(s, base, fields, 11, 53, 54);
    lemma_next_field(s, base, fields, 12, 54, 62);
    lemma_next_field(s, base, fields, 13, 62, 70);
    lemma_next_field(s, base, fields, 14, 70, 78);
    lemma_next_field(s, base, fields, 15, 78, 86);
    lemma_next_field(s, base, fields, 16, 86, 94);
    lemma_next_field(s, base, fields, 17, 94, 102);
    lemma_next_field(s, base, fields, 18, 102, 103);
    lemma_next_field(s, base, fields, 19, 103, 111);
    lemma_next_field(s, base, fields, 20, 111, 119);
    lemma_next_field(s, base, fields, 21, 119, 127);
    lemma_next_field(s, base, fields, 22, 127, 131);
    lemma_next_field(s, base, fields, 23, 131, 132);
    lemma_next_field(s, base, fields, 24, 132, 133);
    lemma_next_field(s, base, fields, 25, 133, 134);
    lemma_next_field(s, base, fields, 26, 134, 142);
    lemma_next_field(s, base, fields, 27, 142, 150);
    lemma_next_field(s, base, fields, 28, 150, 151);
    lemma_side_by_side_wider(fields, 29, 151, SBE_BLOCK_LENGTH as int);
    let t = laid(s, base, fields, 29);
    lemma_laid(s, base, fields, 29, SBE_BLOCK_LENGTH as int, 0);
    lemma_read_spelled(t, base, price_exponent, 0, 0, 0);
    lemma_laid(s, base, fields, 29, SBE_BLOCK_LENGTH as int, 1);
    lemma_read_spelled(t, base + 1, qty_exponent, 0, 0, 0);
    lemma_laid(s, base, fields, 29, SBE_BLOCK_LENGTH as int, 2);
    lemma_read_spelled(t, base + 2, 0, 0, 0, order_id);
    lemma_laid(s, base, fields, 29, SBE_BLOCK_LENGTH as int, 3);
    lemma_read_spelled(t, base + 10, 0, 0, 0, order_list_id);
    lemma_laid(s, base, fields, 29, SBE_BLOCK_LENGTH as int, 4);
    lemma_read_spelled(t, base + 18, 0, 0, 0, price);
    lemma_laid(s, base, fields, 29, SBE_BLOCK_LENGTH as int, 5);
    lemma_read_spelled(t, base + 26, 0, 0, 0, orig_qty);
    lemma_laid(s, base, fields, 29, SBE_BLOCK_LENGTH as int, 6);
    lemma_read_spelled(t, base + 34, 0, 0, 0, executed_qty);
    lemma_laid(s, base, fields, 29, SBE_BLOCK_LENGTH as int, 7);
    lemma_read_spelled(t, base + 42, 0, 0, 0, cummulative_quote_qty);
    lemma_laid(s, base, fields, 29, SBE_BLOCK_LENGTH as int, 8);
    lemma_read_spelled_unsigned(t, base + 50, status.code_view(), 0, 0, 0);
    OrderStatus::lemma_codes(0, status);
    lemma_laid(s, base, fields, 29, SBE_BLOCK_LENGTH as int, 9);
    lemma_read_spelled_unsigned(t, base + 51, time_in_force.code_view(), 0, 0, 0);
    TimeInForce::lemma_codes(0, time_in_force);
    lemma_laid(s, base, fields, 29, SBE_BLOCK_LENGTH as int, 10);
    lemma_read_spelled_unsigned(t, base + 52, order_type.code_view(), 0, 0, 0);
    OrderType::lemma_codes(0, order_type);
    lemma_laid(s, base, fields, 29, SBE_BLOCK_LENGTH as int, 11);
    lemma_read_spelled_unsigned(t, base + 53, side.code_view(), 0, 0, 0);
    OrderSide::lemma_codes(0, side);
    lemma_laid(s, base, fields, 29, SBE_BLOCK_LENGTH as int, 12);
    lemma_read_spelled(t, base + 54, 0, 0, 0, stop_price);
    lemma_laid(s, base, fields, 29, SBE_BLOCK_LENGTH as int, 13);
    lemma_read_spelled(t, base + 62, 0, 0, 0, trailing_delta);
    lemma_laid(s, base, fields, 29, SBE_BLOCK_LENGTH as int, 14);
    lemma_read_spelled(t, base + 70, 0, 0, 0, trailing_time);
    lemma_laid(s, base, fields, 29, SBE_BLOCK_LENGTH as int, 15);
    lemma_read_spelled(t, base + 78, 0, 0, 0, iceberg_qty);
    lemma_laid(s, base, fields, 29, SBE_BLOCK_LENGTH as int, 16);
    lemma_read_spelled(t, base + 86, 0, 0, 0, time);
    lemma_laid(s, base, fields, 29, SBE_BLOCK_LENGTH as int, 17);
    lemma_read_spelled(t, base + 94, 0, 0, 0, update_time);
    lemma_laid(s, base, fields, 29, SBE_BLOCK_LENGTH as int, 18);
    lemma_read_spelled_unsigned(t, base + 102, is_working.code_view(), 0, 0, 0);
    BoolEnum::lemma_codes(0, is_working);
    lemma_laid(s, base, fields, 29, SBE_BLOCK_LENGTH as int, 19);
    lemma_read_spelled(t, base + 103, 0, 0, 0, working_time);
    lemma_laid(s, base, fields, 29, SBE_BLOCK_LENGTH as int, 20);
    lemma_read_spelled(t, base + 111, 0, 0, 0, orig_quote_order_qty);
    lemma_laid(s, base, fields, 29, SBE_BLOCK_LENGTH as int, 21);
    lemma_read_spelled(t, base + 119, 0, 0, 0, strategy_id);
    lemma_laid(s, base, fields, 29, SBE_BLOCK_LENGTH as int, 22);
    lemma_read_spelled(t, base + 127, 0, 0, strategy_type, 0);
    lemma_laid(s, base, fields, 29, SBE_BLOCK_LENGTH as int, 23);
    lemma_read_spelled_unsigned(t, base + 131, order_capacity.code_view(), 0, 0, 0);
    OrderCapacity::lemma_codes(0, order_capacity);
    lemma_laid(s, base, fields, 29, SBE_BLOCK_LENGTH as int, 24);
    lemma_read_spelled_unsigned(t, base + 132, working_floor.code_view(), 0, 0, 0);
    Floor::lemma_codes(0, working_floor);
    lemma_laid(s, base, fields, 29, SBE_BLOCK_LENGTH as int, 25);
    lemma_read_spelled_unsigned(t, base + 133, self_trade_prevention_mode.code_view(), 0, 0, 0);
    SelfTradePreventionMode::lemma_codes(0, self_trade_prevention_mode);
    lemma_laid(s, base, fields, 29, SBE_BLOCK_LENGTH as int, 26);
    lemma_read_spelled(t, base + 134, 0, 0, 0, prevented_match_id);
    lemma_laid(s, base, fields, 29, SBE_BLOCK_LENGTH as int, 27);
    lemma_read_spelled(t, base + 142, 0, 0, 0, prevented_quantity);
    lemma_laid(s, base, fields, 29, SBE_BLOCK_LENGTH as int, 28);
    lemma_read_spelled_unsigned(t, base + 150, used_sor.code_view(), 0, 0, 0);
    BoolEnum::lemma_codes(0, used_sor);
}

/// The block written with what is read from it is as it was, where each code in
/// it is one that the schema declares, or the null code.
pub proof fn lemma_block_written_back(s: Seq<u8>, base: int)
    requires
        0 <= base,
        base + SBE_BLOCK_LENGTH <= s.len(),
        OrderStatus::declared(read_u8(s, base + 50)) || read_u8(s, base + 50) == 255,
        TimeInForce::declared(read_u8(s, base + 51)) || read_u8(s, base + 51) == 255,
        OrderType::declared(read_u8(s, base + 52)) || read_u8(s, base + 52) == 255,
        OrderSide::declared(read_u8(s, base + 53)) || read_u8(s, base + 53) == 255,
        BoolEnum::declared(read_u8(s, base + 102)) || read_u8(s, base + 102) == 255,
        OrderCapacity::declared(read_u8(s, base + 131)) || read_u8(s, base + 131) == 255,
        Floor::declared(read_u8(s, base + 132)) || read_u8(s, base + 132) == 255,
        SelfTradePreventionMode::declared(read_u8(s, base + 133)) || read_u8(s, base + 133) == 255,
        BoolEnum::declared(read_u8(s, base + 150)) || read_u8(s, base + 150) == 255,
    ensures
        block_written(
            s,
            base,
            read_i8(s, base),
            read_i8(s, base + 1),
            read_i64(s, base + 2),
            read_i64(s, base + 10),
            read_i64(s, base + 18),
            read_i64(s, base + 26),
            read_i64(s, base + 34),
            read_i64(s, base + 42),
            OrderStatus::of_code(read_u8(s, base + 50)),
            TimeInForce::of_code(read_u8(s, base + 51)),
            OrderType::of_code(read_u8(s, base + 52)),
            OrderSide::of_code(read_u8(s, base + 53)),
            read_i64(s, base + 54),
            read_i64(s, base + 62),
            read_i64(s, base + 70),
            read_i64(s, base + 78),
            read_i64(s, base + 86),
            read_i64(s, base + 94),
            BoolEnum::of_code(read_u8(s, base + 102)),
            read_i64(s, base + 103),
            read_i64(s, base + 111),
            read_i64(s, base + 119),
            read_i32(s, base + 127),
            OrderCapacity::of_code(read_u8(s, base + 131)),
            Floor::of_code(read_u8(s, base + 132)),
            SelfTradePreventionMode::of_code(read_u8(s, base + 133)),
            read_i64(s, base + 134),
            read_i64(s, base + 142),
            BoolEnum::of_code(read_u8(s, base + 150)),
        ) == s,
{
    reveal(block_written);
    lemma_round_trip_8(s, base, 0, 0);
    lemma_round_trip_8(s, base + 1, 0, 0);
    lemma_round_trip_64(s, base + 2, 0, 0);
    lemma_round_trip_64(s, base + 10, 0, 0);
    lemma_round_trip_64(s, base + 18, 0, 0);
    lemma_round_trip_64(s, base + 26, 0, 0);
    lemma_round_trip_64(s, base + 34, 0, 0);
    lemma_round_trip_64(s, base + 42, 0, 0);
    lemma_round_trip_8(s, base + 50, 0, 0);
    OrderStatus::lemma_codes(read_u8(s, base + 50), OrderStatus::NullVal);
    lemma_round_trip_8(s, base + 51, 0, 0);
    TimeInForce::lemma_codes(read_u8(s, base + 51), TimeInForce::NullVal);
    lemma_round_trip_8(s, base + 52, 0, 0);
    OrderType::lemma_codes(read_u8(s, base + 52), OrderType::NullVal);
    lemma_round_trip_8(s, base + 53, 0, 0);
    OrderSide::lemma_codes(read_u8(s, base + 53), OrderSide::NullVal);
    lemma_round_trip_64(s, base + 54, 0, 0);
    lemma_round_trip_64(s, base + 62, 0, 0);
    lemma_round_trip_64(s, base + 70, 0, 0);
    lemma_round_trip_64(s, base + 78, 0, 0);
    lemma_round_trip_64(s, base + 86, 0, 0);
    lemma_round_trip_64(s, base + 94, 0, 0);
    lemma_round_trip_8(s, base + 102, 0, 0);
    BoolEnum::lemma_codes(read_u8(s, base + 102), BoolEnum::NullVal);
    lemma_round_trip_64(s, base + 103, 0, 0);
    lemma_round_trip_64(s, base + 111, 0, 0);
    lemma_round_trip_64(s, base + 119, 0, 0);
    lemma_round_trip_32(s, base + 127, 0, 0);
    lemma_round_trip_8(s, base + 131, 0, 0);
    OrderCapacity::lemma_codes(read_u8(s, base + 131), OrderCapacity::NullVal);
    lemma_round_trip_8(s, base + 132, 0, 0);
    Floor::lemma_codes(read_u8(s, base + 132), Floor::NullVal);
    lemma_round_trip_8(s, base + 133, 0, 0);
    SelfTradePreventionMode::lemma_codes(read_u8(s, base + 133), SelfTradePreventionMode::NullVal);
    lemma_round_trip_64(s, base + 134, 0, 0);
    lemma_round_trip_64(s, base + 142, 0, 0);
    lemma_round_trip_8(s, base + 150, 0, 0);
    BoolEnum::lemma_codes(read_u8(s, base + 150), BoolEnum::NullVal);
}

#[derive(Clone, Copy, Debug)]
pub struct OrderResponseDecoder<'a> {
    buf: ReadBuf<'a>,
    initial_offset: usize,
    offset: usize,
    limit: usize,
    pub acting_block_length: u16,
    pub acting_version: u16,
}

impl<'a> Default for OrderResponseDecoder<'a> {
    fn default() -> (r: Self)
        ensures
            r.buf()@.len() == 0,
            r.initial_offset_view() == 0,
            r.offset_view() == 0,
            r.limit_view() == 0,
            r.acting_block_length_view() == 0,
            r.acting_version_view() == 0,
    {
        Self {
            buf: ReadBuf::default(),
            initial_offset: 0,
            offset: 0,
            limit: 0,
            acting_block_length: 0,
            acting_version: 0,
        }
    }
}

impl<'a> Reader<'a> for OrderResponseDecoder<'a> {
    open spec fn buf_ok(&self) -> bool {
        true
    }

    closed spec fn buf(self) -> ReadBuf<'a> {
        self.buf
    }

    fn get_buf(&self) -> (r: &ReadBuf<'a>) {
        &self.buf
    }
}

impl<'a> Decoder<'a> for OrderResponseDecoder<'a> {
    closed spec fn limit_view(self) -> usize {
        self.limit
    }

    closed spec fn with_limit(self, limit: usize) -> Self {
        Self { limit, ..self }
    }

    proof fn lemma_with_limit(self) {
    }

    fn get_limit(&self) -> (r: usize) {
        self.limit
    }

    fn set_limit(&mut self, limit: usize) {
        self.limit = limit;
    }
}

impl<'a> OrderResponseDecoder<'a> {
    pub closed spec fn initial_offset_view(self) -> usize {
        self.initial_offset
    }

    /// Where the fixed block begins.
    pub closed spec fn offset_view(self) -> usize {
        self.offset
    }

    /// The block length that the sender declared.
    pub closed spec fn acting_block_length_view(self) -> u16 {
        self.acting_block_length
    }

    /// The schema version that the sender declared.
    pub closed spec fn acting_version_view(self) -> u16 {
        self.acting_version
    }

    /// This decoder stands where `pre` stood, but for the limit, which is
    /// at `limit`.
    pub open spec fn placed_as(self, pre: Self, limit: usize) -> bool {
        &&& self.limit_view() == limit
        &&& self.buf() == pre.buf()
        &&& self.offset_view() == pre.offset_view()
        &&& self.initial_offset_view() == pre.initial_offset_view()
        &&& self.acting_block_length_view() == pre.acting_block_length_view()
        &&& self.acting_version_view() == pre.acting_version_view()
    }

    /// Moving the limit leaves all else alone.
    pub proof fn lemma_frame(self)
        ensures
            forall|limit: usize|
                #![trigger self.with_limit(limit)]
                {
                    let w = self.with_limit(limit);
                    &&& w.offset_view() == self.offset_view()
                    &&& w.initial_offset_view() == self.initial_offset_view()
                    &&& w.acting_block_length_view() == self.acting_block_length_view()
                    &&& w.acting_version_view() == self.acting_version_view()
                },
    {
    }

    /// Places the decoder over `buf` with its fixed block at `offset`; the
    /// limit stands behind the block, whose length the sender declared.
    pub fn wrap(
        self,
        buf: ReadBuf<'a>,
        offset: usize,
        acting_block_length: u16,
        acting_version: u16,
    ) -> (r: Self)
        requires
            offset + acting_block_length <= usize::MAX,
        ensures
            r.buf() == buf,
            r.initial_offset_view() == offset,
            r.offset_view() == offset,
            r.limit_view() == offset + acting_block_length,
            r.acting_block_length_view() == acting_block_length,
            r.acting_version_view() == acting_version,
    {
        let limit = offset + acting_block_length as usize;
        let mut this = self;
        this.buf = buf;
        this.initial_offset = offset;
        this.offset = offset;
        this.limit = limit;
        this.acting_block_length = acting_block_length;
        this.acting_version = acting_version;
        this
    }

    /// The bytes from the start of the block to the limit.
    pub fn encoded_length(&self) -> (r: usize)
        requires
            self.offset_view() <= self.limit_view(),
        ensures
            r == self.limit_view() - self.offset_view(),
    {
        self.limit - self.offset
    }

    /// The block length that the sender declared.
    pub fn acting_block_length(&self) -> (r: u16)
        ensures
            r == self.acting_block_length_view(),
    {
        self.acting_block_length
    }

    /// The schema version that the sender declared.
    pub fn acting_version(&self) -> (r: u16)
        ensures
            r == self.acting_version_view(),
    {
        self.acting_version
    }

    /// Takes over from a header that announces this message: the decoder
    /// stands behind the header, on the header's buffer, with the block
    /// length and version that the header declares.
    pub fn header(self, header: MessageHeaderDecoder<ReadBuf<'a>>) -> (r: Self)
        requires
            header.buf_ok(),
            header.offset_view() + 8 <= header.buf()@.len(),
            read_u16(header.buf()@, header.offset_view() + 2) == SBE_TEMPLATE_ID,
            header.offset_view() + 8 + read_u16(header.buf()@, header.offset_view() as int)
                <= usize::MAX,
        ensures
            r.buf() == header.buf(),
            r.initial_offset_view() == header.offset_view() + 8,
            r.offset_view() == header.offset_view() + 8,
            r.acting_block_length_view() == read_u16(header.buf()@, header.offset_view() as int),
            r.acting_version_view() == read_u16(header.buf()@, header.offset_view() + 6),
            r.limit_view() == header.offset_view() + 8 + r.acting_block_length_view(),
    {
        let mut header = header;
        proof {
            header.buf().lemma_len();
        }
        let acting_block_length = header.block_length();
        let acting_version = header.version();
        let offset = header.offset() + crate::message_header_codec::ENCODED_LENGTH;
        self.wrap(header.parent().unwrap(), offset, acting_block_length, acting_version)
    }

    /// `priceExponent`: an `i8` at byte 0 of the block.
    pub fn price_exponent(&self) -> (r: i8)
        requires
            self.offset_view() + 1 <= self.buf()@.len(),
        ensures
            r == read_i8(self.buf()@, self.offset_view() as int),
    {
        proof {
            self.buf().lemma_len();
        }
        self.get_buf().get_i8_at(self.offset)
    }

    /// `qtyExponent`: an `i8` at byte 1 of the block.
    pub fn qty_exponent(&self) -> (r: i8)
        requires
            self.offset_view() + 2 <= self.buf()@.len(),
        ensures
            r == read_i8(self.buf()@, self.offset_view() + 1),
    {
        proof {
            self.buf().lemma_len();
        }
        self.get_buf().get_i8_at(self.offset + 1)
    }

    /// `orderId`: an `i64` at byte 2 of the block.
    pub fn order_id(&self) -> (r: i64)
        requires
            self.offset_view() + 10 <= self.buf()@.len(),
        ensures
            r == read_i64(self.buf()@, self.offset_view() + 2),
    {
        proof {
            self.buf().lemma_len();
        }
        self.get_buf().get_i64_at(self.offset + 2)
    }

    /// `orderListId`: an `i64` at byte 10 of the block.
    /// The least value of the type stands for an absent field.
    pub fn order_list_id(&self) -> (r: Option<i64>)
        requires
            self.offset_view() + 18 <= self.buf()@.len(),
        ensures
            r == absent_if(read_i64(self.buf()@, self.offset_view() + 10), i64::MIN),
    {
        proof {
            self.buf().lemma_len();
        }
        let value = self.get_buf().get_i64_at(self.offset + 10);
        if value == i64::MIN {
            None
        } else {
            Some(value)
        }
    }

    /// `price`: an `i64` at byte 18 of the block.
    pub fn price(&self) -> (r: i64)
        requires
            self.offset_view() + 26 <= self.buf()@.len(),
        ensures
            r == read_i64(self.buf()@, self.offset_view() + 18),
    {
        proof {
            self.buf().lemma_len();
        }
        self.get_buf().get_i64_at(self.offset + 18)
    }

    /// `origQty`: an `i64` at byte 26 of the block.
    pub fn orig_qty(&self) -> (r: i64)
        requires
            self.offset_view() + 34 <= self.buf()@.len(),
        ensures
            r == read_i64(self.buf()@, self.offset_view() + 26),
    {
        proof {
            self.buf().lemma_len();
        }
        self.get_buf().get_i64_at(self.offset + 26)
    }

    /// `executedQty`: an `i64` at byte 34 of the block.
    pub fn executed_qty(&self) -> (r: i64)
        requires
            self.offset_view() + 42 <= self.buf()@.len(),
        ensures
            r == read_i64(self.buf()@, self.offset_view() + 34),
    {
        proof {
            self.buf().lemma_len();
        }
        self.get_buf().get_i64_at(self.offset + 34)
    }

    /// `cummulativeQuoteQty`: an `i64` at byte 42 of the block.
    pub fn cummulative_quote_qty(&self) -> (r: i64)
        requires
            self.offset_view() + 50 <= self.buf()@.len(),
        ensures
            r == read_i64(self.buf()@, self.offset_view() + 42),
    {
        proof {
            self.buf().lemma_len();
        }
        self.get_buf().get_i64_at(self.offset + 42)
    }

    /// `status`: the code of a `OrderStatus` at byte 50 of the block.
    pub fn status(&self) -> (r: OrderStatus)
        requires
            self.offset_view() + 51 <= self.buf()@.len(),
        ensures
            r == OrderStatus::of_code(read_u8(self.buf()@, self.offset_view() + 50)),
    {
        proof {
            self.buf().lemma_len();
        }
        OrderStatus::from(self.get_buf().get_u8_at(self.offset + 50))
    }

    /// `timeInForce`: the code of a `TimeInForce` at byte 51 of the block.
    pub fn time_in_force(&self) -> (r: TimeInForce)
        requires
            self.offset_view() + 52 <= self.buf()@.len(),
        ensures
            r == TimeInForce::of_code(read_u8(self.buf()@, self.offset_view() + 51)),
    {
        proof {
            self.buf().lemma_len();
        }
        TimeInForce::from(self.get_buf().get_u8_at(self.offset + 51))
    }

    /// `orderType`: the code of a `OrderType` at byte 52 of the block.
    pub fn order_type(&self) -> (r: OrderType)
        requires
            self.offset_view() + 53 <= self.buf()@.len(),
        ensures
            r == OrderType::of_code(read_u8(self.buf()@, self.offset_view() + 52)),
    {
        proof {
            self.buf().lemma_len();
        }
        OrderType::from(self.get_buf().get_u8_at(self.offset + 52))
    }

    /// `side`: the code of a `OrderSide` at byte 53 of the block.
    pub fn side(&self) -> (r: OrderSide)
        requires
            self.offset_view() + 54 <= self.buf()@.len(),
        ensures
            r == OrderSide::of_code(read_u8(self.buf()@, self.offset_view() + 53)),
    {
        proof {
            self.buf().lemma_len();
        }
        OrderSide::from(self.get_buf().get_u8_at(self.offset + 53))
    }

    /// `stopPrice`: an `i64` at byte 54 of the block.
    /// The least value of the type stands for an absent field.
    pub fn stop_price(&self) -> (r: Option<i64>)
        requires
            self.offset_view() + 62 <= self.buf()@.len(),
        ensures
            r == absent_if(read_i64(self.buf()@, self.offset_view() + 54), i64::MIN),
    {
        proof {
            self.buf().lemma_len();
        }
        let value = self.get_buf().get_i64_at(self.offset + 54);
        if value == i64::MIN {
            None
        } else {
            Some(value)
        }
    }

    /// `trailingDelta`: an `i64` at byte 62 of the block.
    /// The least value of the type stands for an absent field.
    pub fn trailing_delta(&self) -> (r: Option<i64>)
        requires
            self.offset_view() + 70 <= self.buf()@.len(),
        ensures
            r == absent_if(read_i64(self.buf()@, self.offset_view() + 62), i64::MIN),
    {
        proof {
            self.buf().lemma_len();
        }
        let value = self.get_buf().get_i64_at(self.offset + 62);
        if value == i64::MIN {
            None
        } else {
            Some(value)
        }
    }

    /// `trailingTime`: an `i64` at byte 70 of the block.
    /// The least value of the type stands for an absent field.
    pub fn trailing_time(&self) -> (r: Option<i64>)
        requires
            self.offset_view() + 78 <= self.buf()@.len(),
        ensures
            r == absent_if(read_i64(self.buf()@, self.offset_view() + 70), i64::MIN),
    {
        proof {
            self.buf().lemma_len();
        }
        let value = self.get_buf().get_i64_at(self.offset + 70);
        if value == i64::MIN {
            None
        } else {
            Some(value)
        }
    }

    /// `icebergQty`: an `i64` at byte 78 of the block.
    /// The least value of the type stands for an absent field.
    pub fn iceberg_qty(&self) -> (r: Option<i64>)
        requires
            self.offset_view() + 86 <= self.buf()@.len(),
        ensures
            r == absent_if(read_i64(self.buf()@, self.offset_view() + 78), i64::MIN),
    {
        proof {
            self.buf().lemma_len();
        }
        let value = self.get_buf().get_i64_at(self.offset + 78);
        if value == i64::MIN {
            None
        } else {
            Some(value)
        }
    }

    /// `time`: an `i64` at byte 86 of the block.
    pub fn time(&self) -> (r: i64)
        requires
            self.offset_view() + 94 <= self.buf()@.len(),
        ensures
            r == read_i64(self.buf()@, self.offset_view() + 86),
    {
        proof {
            self.buf().lemma_len();
        }
        self.get_buf().get_i64_at(self.offset + 86)
    }

    /// `updateTime`: an `i64` at byte 94 of the block.
    pub fn update_time(&self) -> (r: i64)
        requires
            self.offset_view() + 102 <= self.buf()@.len(),
        ensures
            r == read_i64(self.buf()@, self.offset_view() + 94),
    {
        proof {
            self.buf().lemma_len();
        }
        self.get_buf().get_i64_at(self.offset + 94)
    }

    /// `isWorking`: the code of a `BoolEnum` at byte 102 of the block.
    pub fn is_working(&self) -> (r: BoolEnum)
        requires
            self.offset_view() + 103 <= self.buf()@.len(),
        ensures
            r == BoolEnum::of_code(read_u8(self.buf()@, self.offset_view() + 102)),
    {
        proof {
            self.buf().lemma_len();
        }
        BoolEnum::from(self.get_buf().get_u8_at(self.offset + 102))
    }

    /// `workingTime`: an `i64` at byte 103 of the block.
    /// The least value of the type stands for an absent field.
    pub fn working_time(&self) -> (r: Option<i64>)
        requires
            self.offset_view() + 111 <= self.buf()@.len(),
        ensures
            r == absent_if(read_i64(self.buf()@, self.offset_view() + 103), i64::MIN),
    {
        proof {
            self.buf().lemma_len();
        }
        let value = self.get_buf().get_i64_at(self.offset + 103);
        if value == i64::MIN {
            None
        } else {
            Some(value)
        }
    }

    /// `origQuoteOrderQty`: an `i64` at byte 111 of the block.
    pub fn orig_quote_order_qty(&self) -> (r: i64)
        requires
            self.offset_view() + 119 <= self.buf()@.len(),
        ensures
            r == read_i64(self.buf()@, self.offset_view() + 111),
    {
        proof {
            self.buf().lemma_len();
        }
        self.get_buf().get_i64_at(self.offset + 111)
    }

    /// `strategyId`: an `i64` at byte 119 of the block.
    /// The least value of the type stands for an absent field.
    pub fn strategy_id(&self) -> (r: Option<i64>)
        requires
            self.offset_view() + 127 <= self.buf()@.len(),
        ensures
            r == absent_if(read_i64(self.buf()@, self.offset_view() + 119), i64::MIN),
    {
        proof {
            self.buf().lemma_len();
        }
        let value = self.get_buf().get_i64_at(self.offset + 119);
        if value == i64::MIN {
            None
        } else {
            Some(value)
        }
    }

    /// `strategyType`: an `i32` at byte 127 of the block.
    /// The least value of the type stands for an absent field.
    pub fn strategy_type(&self) -> (r: Option<i32>)
        requires
            self.offset_view() + 131 <= self.buf()@.len(),
        ensures
            r == absent_if(read_i32(self.buf()@, self.offset_view() + 127), i32::MIN),
    {
        proof {
            self.buf().lemma_len();
        }
        let value = self.get_buf().get_i32_at(self.offset + 127);
        if value == i32::MIN {
            None
        } else {
            Some(value)
        }
    }

    /// `orderCapacity`: the code of a `OrderCapacity` at byte 131 of the block.
    pub fn order_capacity(&self) -> (r: OrderCapacity)
        requires
            self.offset_view() + 132 <= self.buf()@.len(),
        ensures
            r == OrderCapacity::of_code(read_u8(self.buf()@, self.offset_view() + 131)),
    {
        proof {
            self.buf().lemma_len();
        }
        OrderCapacity::from(self.get_buf().get_u8_at(self.offset + 131))
    }

    /// `workingFloor`: the code of a `Floor` at byte 132 of the block.
    pub fn working_floor(&self) -> (r: Floor)
        requires
            self.offset_view() + 133 <= self.buf()@.len(),
        ensures
            r == Floor::of_code(read_u8(self.buf()@, self.offset_view() + 132)),
    {
        proof {
            self.buf().lemma_len();
        }
        Floor::from(self.get_buf().get_u8_at(self.offset + 132))
    }

    /// `selfTradePreventionMode`:
    /// the code of a `SelfTradePreventionMode` at byte 133 of the block.
    pub fn self_trade_prevention_mode(&self) -> (r: SelfTradePreventionMode)
        requires
            self.offset_view() + 134 <= self.buf()@.len(),
        ensures
            r == SelfTradePreventionMode::of_code(read_u8(self.buf()@, self.offset_view() + 133)),
    {
        proof {
            self.buf().lemma_len();
        }
        SelfTradePreventionMode::from(self.get_buf().get_u8_at(self.offset + 133))
    }

    /// `preventedMatchId`: an `i64` at byte 134 of the block.
    /// The least value of the type stands for an absent field.
    pub fn prevented_match_id(&self) -> (r: Option<i64>)
        requires
            self.offset_view() + 142 <= self.buf()@.len(),
        ensures
            r == absent_if(read_i64(self.buf()@, self.offset_view() + 134), i64::MIN),
    {
        proof {
            self.buf().lemma_len();
        }
        let value = self.get_buf().get_i64_at(self.offset + 134);
        if value == i64::MIN {
            None
        } else {
            Some(value)
        }
    }

    /// `preventedQuantity`: an `i64` at byte 142 of the block.
    /// The least value of the type stands for an absent field.
    pub fn prevented_quantity(&self) -> (r: Option<i64>)
        requires
            self.offset_view() + 150 <= self.buf()@.len(),
        ensures
            r == absent_if(read_i64(self.buf()@, self.offset_view() + 142), i64::MIN),
    {
        proof {
            self.buf().lemma_len();
        }
        let value = self.get_buf().get_i64_at(self.offset + 142);
        if value == i64::MIN {
            None
        } else {
            Some(value)
        }
    }

    /// `usedSor`: the code of a `BoolEnum` at byte 150 of the block.
    pub fn used_sor(&self) -> (r: BoolEnum)
        requires
            self.offset_view() + 151 <= self.buf()@.len(),
        ensures
            r == BoolEnum::of_code(read_u8(self.buf()@, self.offset_view() + 150)),
    {
        proof {
            self.buf().lemma_len();
        }
        BoolEnum::from(self.get_buf().get_u8_at(self.offset + 150))
    }

    /// `symbol`: where its bytes begin and how many they are, by the `u8`
    /// length at the limit. The limit moves behind them.
    pub fn symbol_decoder(&mut self) -> (r: (usize, usize))
        requires
            old(self).limit_view() + 1 <= old(self).buf()@.len(),
            old(self).limit_view() + 1 + read_u8(old(self).buf()@, old(self).limit_view() as int)
                <= usize::MAX,
        ensures
            r.0 == old(self).limit_view() + 1,
            r.1 == read_u8(old(self).buf()@, old(self).limit_view() as int),
            final(self).placed_as(*old(self), (r.0 + r.1) as usize),
            *final(self) == old(self).with_limit((r.0 + r.1) as usize),
    {
        proof {
            self.buf().lemma_len();
            self.lemma_with_limit();
            self.lemma_frame();
        }
        let offset = self.get_limit();
        let data_length = self.get_buf().get_u8_at(offset) as usize;
        self.set_limit(offset + 1 + data_length);
        (offset + 1, data_length)
    }

    /// The bytes of `symbol` at the coordinates that `symbol_decoder` gave.
    pub fn symbol_slice(&'a self, coordinates: (usize, usize)) -> (r: &'a [u8])
        requires
            coordinates.0 + coordinates.1 <= self.limit_view(),
            coordinates.0 + coordinates.1 <= self.buf()@.len(),
        ensures
            r@ == self.buf()@.subrange(coordinates.0 as int, coordinates.0 + coordinates.1),
    {
        self.get_buf().get_slice_at(coordinates.0, coordinates.1)
    }

    /// `clientOrderId`: where its bytes begin and how many they are, by the `u8`
    /// length at the limit. The limit moves behind them.
    pub fn client_order_id_decoder(&mut self) -> (r: (usize, usize))
        requires
            old(self).limit_view() + 1 <= old(self).buf()@.len(),
            old(self).limit_view() + 1 + read_u8(old(self).buf()@, old(self).limit_view() as int)
                <= usize::MAX,
        ensures
            r.0 == old(self).limit_view() + 1,
            r.1 == read_u8(old(self).buf()@, old(self).limit_view() as int),
            final(self).placed_as(*old(self), (r.0 + r.1) as usize),
            *final(self) == old(self).with_limit((r.0 + r.1) as usize),
    {
        proof {
            self.buf().lemma_len();
            self.lemma_with_limit();
            self.lemma_frame();
        }
        let offset = self.get_limit();
        let data_length = self.get_buf().get_u8_at(offset) as usize;
        self.set_limit(offset + 1 + data_length);
        (offset + 1, data_length)
    }

    /// The bytes of `clientOrderId` at the coordinates that `client_order_id_decoder` gave.
    pub fn client_order_id_slice(&'a self, coordinates: (usize, usize)) -> (r: &'a [u8])
        requires
            coordinates.0 + coordinates.1 <= self.limit_view(),
            coordinates.0 + coordinates.1 <= self.buf()@.len(),
        ensures
            r@ == self.buf()@.subrange(coordinates.0 as int, coordinates.0 + coordinates.1),
    {
        self.get_buf().get_slice_at(coordinates.0, coordinates.1)
    }
}

} // verus!
