//! The repeating groups of the exchange information and of the websocket
//! envelope: what their bytes say, and the decoders that walk them.
use crate::allowed_self_trade_prevention_modes::AllowedSelfTradePreventionModes;
use crate::buffer::ReadBuf;
use crate::codec::{Decoder, Reader};
use crate::decode::{
    DecodeError, decode_text, flag_at, into_bool, lemma_walk_stops, text_at, text_of, var8_at,
    walk,
};
use crate::decode::filters::{
    decode_exchange_filter, decode_symbol_filter, exchange_filter_of, symbol_filter_of,
};
use crate::exchange_info::{
    ExchangeFilter, Sor, SorView, SymbolFilter, SymbolInfo, SymbolInfoView, SymbolTerms,
    sor_views, symbol_views, texts,
};
use crate::exchange_info_response_codec::{ExchangeInfoResponseDecoder, SorsDecoder, SymbolsDecoder};
use crate::message_header_codec::MessageHeaderDecoder;
use crate::order_types::OrderTypes;
use crate::rate_limit::RateLimit;
use crate::rate_limit_interval::RateLimitInterval;
use crate::rate_limit_type::RateLimitType;
use crate::self_trade_prevention_mode::SelfTradePreventionMode;
use crate::symbol_status::SymbolStatus;
use crate::web_socket_response_codec::WebSocketResponseDecoder;
use crate::wire::{read_i64, read_u16, read_u32, read_u8};
use vstd::prelude::*;

verus! {

/// An element that holds one text behind a one-byte length. `bl` is the
/// block length that the group declares and `pos` where the element begins.
pub open spec fn text_elem(s: Seq<u8>, bl: int, pos: int) -> Result<(Seq<char>, int), DecodeError> {
    if pos + bl > usize::MAX {
        Err(DecodeError::Truncated)
    } else {
        match var8_at(s, pos + bl) {
            Err(e) => Err(e),
            Ok((b, next)) => match text_of(b) {
                Err(e) => Err(e),
                Ok(t) => Ok((t, next)),
            },
        }
    }
}

pub open spec fn text_step(s: Seq<u8>, bl: int) -> spec_fn(int) -> Result<
    (Seq<char>, int),
    DecodeError,
> {
    |pos: int| text_elem(s, bl, pos)
}

/// A group of texts behind its size prefix at `limit`: the texts, and the
/// limit behind the group.
pub open spec fn texts_at(s: Seq<u8>, limit: int) -> Result<(Seq<Seq<char>>, int), DecodeError> {
    if limit + 6 > s.len() {
        Err(DecodeError::Truncated)
    } else {
        walk(text_step(s, read_u16(s, limit) as int), limit + 6, read_u32(s, limit + 2) as nat)
    }
}

/// An element that holds a filter of the exchange: a message of its own,
/// header and block, behind a one-byte length.
pub open spec fn exchange_filter_elem(s: Seq<u8>, bl: int, pos: int) -> Result<
    (ExchangeFilter, int),
    DecodeError,
> {
    if pos + bl > usize::MAX {
        Err(DecodeError::Truncated)
    } else {
        match var8_at(s, pos + bl) {
            Err(e) => Err(e),
            Ok((b, next)) => if b.len() < 8 {
                Err(DecodeError::Truncated)
            } else {
                match exchange_filter_of(b, 0) {
                    Err(e) => Err(e),
                    Ok(f) => Ok((f, next)),
                }
            },
        }
    }
}

pub open spec fn exchange_filter_step(s: Seq<u8>, bl: int) -> spec_fn(int) -> Result<
    (ExchangeFilter, int),
    DecodeError,
> {
    |pos: int| exchange_filter_elem(s, bl, pos)
}

/// The group of the exchange's filters behind its size prefix at `limit`.
pub open spec fn exchange_filters_at(s: Seq<u8>, limit: int) -> Result<
    (Seq<ExchangeFilter>, int),
    DecodeError,
> {
    if limit + 6 > s.len() {
        Err(DecodeError::Truncated)
    } else {
        walk(
            exchange_filter_step(s, read_u16(s, limit) as int),
            limit + 6,
            read_u32(s, limit + 2) as nat,
        )
    }
}

/// An element that holds a filter of a symbol: a message of its own,
/// header and block, behind a one-byte length.
pub open spec fn symbol_filter_elem(s: Seq<u8>, bl: int, pos: int) -> Result<
    (SymbolFilter, int),
    DecodeError,
> {
    if pos + bl > usize::MAX {
        Err(DecodeError::Truncated)
    } else {
        match var8_at(s, pos + bl) {
            Err(e) => Err(e),
            Ok((b, next)) => if b.len() < 8 {
                Err(DecodeError::Truncated)
            } else {
                match symbol_filter_of(b, 0) {
                    Err(e) => Err(e),
                    Ok(f) => Ok((f, next)),
                }
            },
        }
    }
}

pub open spec fn symbol_filter_step(s: Seq<u8>, bl: int) -> spec_fn(int) -> Result<
    (SymbolFilter, int),
    DecodeError,
> {
    |pos: int| symbol_filter_elem(s, bl, pos)
}

/// The group of a symbol's filters behind its size prefix at `limit`.
pub open spec fn symbol_filters_at(s: Seq<u8>, limit: int) -> Result<
    (Seq<SymbolFilter>, int),
    DecodeError,
> {
    if limit + 6 > s.len() {
        Err(DecodeError::Truncated)
    } else {
        walk(
            symbol_filter_step(s, read_u16(s, limit) as int),
            limit + 6,
            read_u32(s, limit + 2) as nat,
        )
    }
}

/// The rate limit whose fields begin at `pos`; `counted` says whether the
/// element ends with the count that was used up.
pub open spec fn rate_limit_at(s: Seq<u8>, pos: int, counted: bool) -> RateLimit {
    RateLimit {
        rate_limit_type: RateLimitType::of_code(read_u8(s, pos)),
        interval: RateLimitInterval::of_code(read_u8(s, pos + 1)),
        interval_num: read_u8(s, pos + 2),
        limit: read_i64(s, pos + 3),
        count: if counted {
            Some(read_i64(s, pos + 11))
        } else {
            None
        },
    }
}

/// An element that holds a rate limit in its fixed block.
pub open spec fn rate_limit_elem(s: Seq<u8>, counted: bool, bl: int, pos: int) -> Result<
    (RateLimit, int),
    DecodeError,
> {
    if pos + bl > usize::MAX {
        Err(DecodeError::Truncated)
    } else if pos + (if counted {
        19int
    } else {
        11int
    }) > s.len() {
        Err(DecodeError::Truncated)
    } else {
        Ok((rate_limit_at(s, pos, counted), pos + bl))
    }
}

pub open spec fn rate_limit_step(s: Seq<u8>, counted: bool, bl: int) -> spec_fn(int) -> Result<
    (RateLimit, int),
    DecodeError,
> {
    |pos: int| rate_limit_elem(s, counted, bl, pos)
}

/// A group of rate limits behind its size prefix at `limit`.
pub open spec fn rate_limits_at(s: Seq<u8>, counted: bool, limit: int) -> Result<
    (Seq<RateLimit>, int),
    DecodeError,
> {
    if limit + 6 > s.len() {
        Err(DecodeError::Truncated)
    } else {
        walk(
            rate_limit_step(s, counted, read_u16(s, limit) as int),
            limit + 6,
            read_u32(s, limit + 2) as nat,
        )
    }
}

/// A group of rate limits with their counts.
pub open spec fn counted_rate_limits_at(s: Seq<u8>, limit: int) -> Result<
    (Seq<RateLimit>, int),
    DecodeError,
> {
    rate_limits_at(s, true, limit)
}

/// A group of rate limits without counts.
pub open spec fn plain_rate_limits_at(s: Seq<u8>, limit: int) -> Result<
    (Seq<RateLimit>, int),
    DecodeError,
> {
    rate_limits_at(s, false, limit)
}

/// Decodes the group of permissions at the limit of a symbol, and hands the
/// symbol's decoder back with the limit behind the group.
pub fn decode_permissions<'a>(
    parent: SymbolsDecoder<ExchangeInfoResponseDecoder<'a>>,
) -> (r: Result<
    (Vec<String>, SymbolsDecoder<ExchangeInfoResponseDecoder<'a>>),
    DecodeError,
>)
    requires
        parent.buf_ok(),
    ensures
        match texts_at(parent.buf()@, parent.limit_view() as int) {
            Ok((items, pos)) => {
                &&& r is Ok
                &&& texts(r->Ok_0.0@) == items
                &&& 0 <= pos <= usize::MAX
                &&& r->Ok_0.1 == parent.with_limit(pos as usize)
            },
            Err(e) => r is Err && r->Err_0 == e,
        },
{
    let len = parent.get_buf().len();
    let start = parent.get_limit();
    if start > len || len - start < 6 {
        return Err(DecodeError::Truncated);
    }
    let block_length = parent.get_buf().get_u16_at(start) as usize;
    let mut decoder = parent.permissions_decoder();
    let count = decoder.count();
    let ghost s = parent.buf()@;
    let ghost step = text_step(s, block_length as int);
    let mut found: Vec<String> = Vec::new();
    let mut k: u32 = 0;
    assert(texts(found@) =~= Seq::empty());
    while k < count
        invariant
            k <= count,
            s == parent.buf()@,
            s.len() == len,
            start == parent.limit_view(),
            step == text_step(s, block_length as int),
            parent.buf_ok(),
            decoder.buf_ok(),
            decoder.buf() == parent.buf(),
            decoder.count_view() == count,
            decoder.block_length_view() == block_length,
            decoder.index_view() == (if k == 0 {
                usize::MAX
            } else {
                (k - 1) as usize
            }),
            decoder.parent_view() == Some(parent.with_limit(decoder.limit_view())),
            walk(step, start + 6, k as nat) == Ok::<(Seq<Seq<char>>, int), DecodeError>(
                (texts(found@), decoder.limit_view() as int),
            ),
            texts_at(s, start as int) == walk(step, start + 6, count as nat),
        decreases count - k,
    {
        let at = decoder.get_limit();
        let ghost before = decoder;
        proof {
            parent.lemma_with_limit();
            before.lemma_frame();
        }
        if block_length > usize::MAX - at {
            proof {
                lemma_walk_stops(step, start + 6, k as nat, count as nat);
            }
            return Err(DecodeError::Truncated);
        }
        proof {
            before.with_limit((at + block_length) as usize).lemma_frame();
        }
        let advanced = decoder.advance();
        let limit = at + block_length;
        if limit > len || len - limit < 1 {
            proof {
                lemma_walk_stops(step, start + 6, k as nat, count as nat);
            }
            return Err(DecodeError::Truncated);
        }
        let length = decoder.get_buf().get_u8_at(limit) as usize;
        if len - limit - 1 < length {
            proof {
                lemma_walk_stops(step, start + 6, k as nat, count as nat);
            }
            return Err(DecodeError::Truncated);
        }
        let ghost moved = decoder;
        proof {
            moved.lemma_frame();
        }
        let coordinates = decoder.permission_decoder();
        let slice = decoder.permission_slice(coordinates);
        match decode_text(slice) {
            Ok(text) => {
                assert(texts(found@.push(text)) =~= texts(found@).push(text@));
                found.push(text);
            },
            Err(e) => {
                proof {
                    lemma_walk_stops(step, start + 6, k as nat, count as nat);
                }
                return Err(e);
            },
        }
        k += 1;
    }
    let parent = decoder.parent().unwrap();
    Ok((found, parent))
}

/// Decodes the group of symbol names at the limit of a routing entry, and
/// hands the entry's decoder back with the limit behind the group.
pub fn decode_sor_symbols<'a>(parent: SorsDecoder<ExchangeInfoResponseDecoder<'a>>) -> (r: Result<
    (Vec<String>, SorsDecoder<ExchangeInfoResponseDecoder<'a>>),
    DecodeError,
>)
    requires
        parent.buf_ok(),
    ensures
        match texts_at(parent.buf()@, parent.limit_view() as int) {
            Ok((items, pos)) => {
                &&& r is Ok
                &&& texts(r->Ok_0.0@) == items
                &&& 0 <= pos <= usize::MAX
                &&& r->Ok_0.1 == parent.with_limit(pos as usize)
            },
            Err(e) => r is Err && r->Err_0 == e,
        },
{
    let len = parent.get_buf().len();
    let start = parent.get_limit();
    if start > len || len - start < 6 {
        return Err(DecodeError::Truncated);
    }
    let block_length = parent.get_buf().get_u16_at(start) as usize;
    let mut decoder = parent.sor_symbols_decoder();
    let count = decoder.count();
    let ghost s = parent.buf()@;
    let ghost step = text_step(s, block_length as int);
    let mut found: Vec<String> = Vec::new();
    let mut k: u32 = 0;
    assert(texts(found@) =~= Seq::empty());
    while k < count
        invariant
            k <= count,
            s == parent.buf()@,
            s.len() == len,
            start == parent.limit_view(),
            step == text_step(s, block_length as int),
            parent.buf_ok(),
            decoder.buf_ok(),
            decoder.buf() == parent.buf(),
            decoder.count_view() == count,
            decoder.block_length_view() == block_length,
            decoder.index_view() == (if k == 0 {
                usize::MAX
            } else {
                (k - 1) as usize
            }),
            decoder.parent_view() == Some(parent.with_limit(decoder.limit_view())),
            walk(step, start + 6, k as nat) == Ok::<(Seq<Seq<char>>, int), DecodeError>(
                (texts(found@), decoder.limit_view() as int),
            ),
            texts_at(s, start as int) == walk(step, start + 6, count as nat),
        decreases count - k,
    {
        let at = decoder.get_limit();
        let ghost before = decoder;
        proof {
            parent.lemma_with_limit();
            before.lemma_frame();
        }
        if block_length > usize::MAX - at {
            proof {
                lemma_walk_stops(step, start + 6, k as nat, count as nat);
            }
            return Err(DecodeError::Truncated);
        }
        proof {
            before.with_limit((at + block_length) as usize).lemma_frame();
        }
        let advanced = decoder.advance();
        let limit = at + block_length;
        if limit > len || len - limit < 1 {
            proof {
                lemma_walk_stops(step, start + 6, k as nat, count as nat);
            }
            return Err(DecodeError::Truncated);
        }
        let length = decoder.get_buf().get_u8_at(limit) as usize;
        if len - limit - 1 < length {
            proof {
                lemma_walk_stops(step, start + 6, k as nat, count as nat);
            }
            return Err(DecodeError::Truncated);
        }
        let ghost moved = decoder;
        proof {
            moved.lemma_frame();
        }
        let coordinates = decoder.symbol_decoder();
        let slice = decoder.symbol_slice(coordinates);
        match decode_text(slice) {
            Ok(text) => {
                assert(texts(found@.push(text)) =~= texts(found@).push(text@));
                found.push(text);
            },
            Err(e) => {
                proof {
                    lemma_walk_stops(step, start + 6, k as nat, count as nat);
                }
                return Err(e);
            },
        }
        k += 1;
    }
    let parent = decoder.parent().unwrap();
    Ok((found, parent))
}

/// Decodes the group of the exchange's filters at the limit, and hands the
/// message's decoder back with the limit behind the group.
pub fn decode_exchange_filters<'a>(parent: ExchangeInfoResponseDecoder<'a>) -> (r: Result<
    (Vec<ExchangeFilter>, ExchangeInfoResponseDecoder<'a>),
    DecodeError,
>)
    requires
        parent.buf_ok(),
    ensures
        match exchange_filters_at(parent.buf()@, parent.limit_view() as int) {
            Ok((items, pos)) => {
                &&& r is Ok
                &&& r->Ok_0.0@ == items
                &&& 0 <= pos <= usize::MAX
                &&& r->Ok_0.1 == parent.with_limit(pos as usize)
            },
            Err(e) => r is Err && r->Err_0 == e,
        },
{
    let len = parent.get_buf().len();
    let start = parent.get_limit();
    if start > len || len - start < 6 {
        return Err(DecodeError::Truncated);
    }
    let block_length = parent.get_buf().get_u16_at(start) as usize;
    let mut decoder = parent.exchange_filters_decoder();
    let count = decoder.count();
    let ghost s = parent.buf()@;
    let ghost step = exchange_filter_step(s, block_length as int);
    let mut found: Vec<ExchangeFilter> = Vec::new();
    let mut k: u32 = 0;
    assert(found@ =~= Seq::empty());
    while k < count
        invariant
            k <= count,
            s == parent.buf()@,
            s.len() == len,
            start == parent.limit_view(),
            step == exchange_filter_step(s, block_length as int),
            parent.buf_ok(),
            decoder.buf_ok(),
            decoder.buf() == parent.buf(),
            decoder.count_view() == count,
            decoder.block_length_view() == block_length,
            decoder.index_view() == (if k == 0 {
                usize::MAX
            } else {
                (k - 1) as usize
            }),
            decoder.parent_view() == Some(parent.with_limit(decoder.limit_view())),
            walk(step, start + 6, k as nat) == Ok::<(Seq<ExchangeFilter>, int), DecodeError>(
                (found@, decoder.limit_view() as int),
            ),
            exchange_filters_at(s, start as int) == walk(step, start + 6, count as nat),
        decreases count - k,
    {
        let at = decoder.get_limit();
        let ghost before = decoder;
        proof {
            parent.lemma_with_limit();
            before.lemma_frame();
        }
        if block_length > usize::MAX - at {
            proof {
                lemma_walk_stops(step, start + 6, k as nat, count as nat);
            }
            return Err(DecodeError::Truncated);
        }
        proof {
            before.with_limit((at + block_length) as usize).lemma_frame();
        }
        let advanced = decoder.advance();
        let limit = at + block_length;
        if limit > len || len - limit < 1 {
            proof {
                lemma_walk_stops(step, start + 6, k as nat, count as nat);
            }
            return Err(DecodeError::Truncated);
        }
        let length = decoder.get_buf().get_u8_at(limit) as usize;
        if len - limit - 1 < length {
            proof {
                lemma_walk_stops(step, start + 6, k as nat, count as nat);
            }
            return Err(DecodeError::Truncated);
        }
        let ghost moved = decoder;
        proof {
            moved.lemma_frame();
        }
        let coordinates = decoder.filter_decoder();
        let slice = decoder.filter_slice(coordinates);
        if slice.len() < 8 {
            proof {
                lemma_walk_stops(step, start + 6, k as nat, count as nat);
            }
            return Err(DecodeError::Truncated);
        }
        let header = MessageHeaderDecoder::default().wrap(ReadBuf::new(slice), 0);
        match decode_exchange_filter(header) {
            Ok(filter) => {
                found.push(filter);
            },
            Err(e) => {
                proof {
                    lemma_walk_stops(step, start + 6, k as nat, count as nat);
                }
                return Err(e);
            },
        }
        k += 1;
    }
    let parent = decoder.parent().unwrap();
    Ok((found, parent))
}

/// Decodes the group of filters at the limit of a symbol, and hands the
/// symbol's decoder back with the limit behind the group.
pub fn decode_symbol_filters<'a>(
    parent: SymbolsDecoder<ExchangeInfoResponseDecoder<'a>>,
) -> (r: Result<
    (Vec<SymbolFilter>, SymbolsDecoder<ExchangeInfoResponseDecoder<'a>>),
    DecodeError,
>)
    requires
        parent.buf_ok(),
    ensures
        match symbol_filters_at(parent.buf()@, parent.limit_view() as int) {
            Ok((items, pos)) => {
                &&& r is Ok
                &&& r->Ok_0.0@ == items
                &&& 0 <= pos <= usize::MAX
                &&& r->Ok_0.1 == parent.with_limit(pos as usize)
            },
            Err(e) => r is Err && r->Err_0 == e,
        },
{
    let len = parent.get_buf().len();
    let start = parent.get_limit();
    if start > len || len - start < 6 {
        return Err(DecodeError::Truncated);
    }
    let block_length = parent.get_buf().get_u16_at(start) as usize;
    let mut decoder = parent.filters_decoder();
    let count = decoder.count();
    let ghost s = parent.buf()@;
    let ghost step = symbol_filter_step(s, block_length as int);
    let mut found: Vec<SymbolFilter> = Vec::new();
    let mut k: u32 = 0;
    assert(found@ =~= Seq::empty());
    while k < count
        invariant
            k <= count,
            s == parent.buf()@,
            s.len() == len,
            start == parent.limit_view(),
            step == symbol_filter_step(s, block_length as int),
            parent.buf_ok(),
            decoder.buf_ok(),
            decoder.buf() == parent.buf(),
            decoder.count_view() == count,
            decoder.block_length_view() == block_length,
            decoder.index_view() == (if k == 0 {
                usize::MAX
            } else {
                (k - 1) as usize
            }),
            decoder.parent_view() == Some(parent.with_limit(decoder.limit_view())),
            walk(step, start + 6, k as nat) == Ok::<(Seq<SymbolFilter>, int), DecodeError>(
                (found@, decoder.limit_view() as int),
            ),
            symbol_filters_at(s, start as int) == walk(step, start + 6, count as nat),
        decreases count - k,
    {
        let at = decoder.get_limit();
        let ghost before = decoder;
        proof {
            parent.lemma_with_limit();
            before.lemma_frame();
        }
        if block_length > usize::MAX - at {
            proof {
                lemma_walk_stops(step, start + 6, k as nat, count as nat);
            }
            return Err(DecodeError::Truncated);
        }
        proof {
            before.with_limit((at + block_length) as usize).lemma_frame();
        }
        let advanced = decoder.advance();
        let limit = at + block_length;
        if limit > len || len - limit < 1 {
            proof {
                lemma_walk_stops(step, start + 6, k as nat, count as nat);
            }
            return Err(DecodeError::Truncated);
        }
        let length = decoder.get_buf().get_u8_at(limit) as usize;
        if len - limit - 1 < length {
            proof {
                lemma_walk_stops(step, start + 6, k as nat, count as nat);
            }
            return Err(DecodeError::Truncated);
        }
        let ghost moved = decoder;
        proof {
            moved.lemma_frame();
        }
        let coordinates = decoder.filter_decoder();
        let slice = decoder.filter_slice(coordinates);
        if slice.len() < 8 {
            proof {
                lemma_walk_stops(step, start + 6, k as nat, count as nat);
            }
            return Err(DecodeError::Truncated);
        }
        let header = MessageHeaderDecoder::default().wrap(ReadBuf::new(slice), 0);
        match decode_symbol_filter(header) {
            Ok(filter) => {
                found.push(filter);
            },
            Err(e) => {
                proof {
                    lemma_walk_stops(step, start + 6, k as nat, count as nat);
                }
                return Err(e);
            },
        }
        k += 1;
    }
    let parent = decoder.parent().unwrap();
    Ok((found, parent))
}

/// Decodes the group of rate limits at the limit of the exchange
/// information, and hands the message's decoder back with the limit behind
/// the group.
pub fn decode_rate_limits<'a>(parent: ExchangeInfoResponseDecoder<'a>) -> (r: Result<
    (Vec<RateLimit>, ExchangeInfoResponseDecoder<'a>),
    DecodeError,
>)
    requires
        parent.buf_ok(),
    ensures
        match plain_rate_limits_at(parent.buf()@, parent.limit_view() as int) {
            Ok((items, pos)) => {
                &&& r is Ok
                &&& r->Ok_0.0@ == items
                &&& 0 <= pos <= usize::MAX
                &&& r->Ok_0.1 == parent.with_limit(pos as usize)
            },
            Err(e) => r is Err && r->Err_0 == e,
        },
{
    let len = parent.get_buf().len();
    let start = parent.get_limit();
    if start > len || len - start < 6 {
        return Err(DecodeError::Truncated);
    }
    let block_length = parent.get_buf().get_u16_at(start) as usize;
    let mut decoder = parent.rate_limits_decoder();
    let count = decoder.count();
    let ghost s = parent.buf()@;
    let ghost step = rate_limit_step(s, false, block_length as int);
    let mut found: Vec<RateLimit> = Vec::new();
    let mut k: u32 = 0;
    assert(found@ =~= Seq::empty());
    while k < count
        invariant
            k <= count,
            s == parent.buf()@,
            s.len() == len,
            start == parent.limit_view(),
            step == rate_limit_step(s, false, block_length as int),
            parent.buf_ok(),
            decoder.buf_ok(),
            decoder.buf() == parent.buf(),
            decoder.count_view() == count,
            decoder.block_length_view() == block_length,
            decoder.index_view() == (if k == 0 {
                usize::MAX
            } else {
                (k - 1) as usize
            }),
            decoder.parent_view() == Some(parent.with_limit(decoder.limit_view())),
            walk(step, start + 6, k as nat) == Ok::<(Seq<RateLimit>, int), DecodeError>(
                (found@, decoder.limit_view() as int),
            ),
            plain_rate_limits_at(s, start as int) == walk(step, start + 6, count as nat),
        decreases count - k,
    {
        let at = decoder.get_limit();
        let ghost before = decoder;
        proof {
            parent.lemma_with_limit();
            before.lemma_frame();
        }
        if block_length > usize::MAX - at {
            proof {
                lemma_walk_stops(step, start + 6, k as nat, count as nat);
            }
            return Err(DecodeError::Truncated);
        }
        proof {
            before.with_limit((at + block_length) as usize).lemma_frame();
        }
        let advanced = decoder.advance();
        if at > len || len - at < 11 {
            proof {
                lemma_walk_stops(step, start + 6, k as nat, count as nat);
            }
            return Err(DecodeError::Truncated);
        }
        let rate_limit = RateLimit {
            rate_limit_type: decoder.rate_limit_type(),
            interval: decoder.interval(),
            interval_num: decoder.interval_num(),
            limit: decoder.rate_limit(),
            count: None,
        };
        found.push(rate_limit);
        k += 1;
    }
    let parent = decoder.parent().unwrap();
    Ok((found, parent))
}

/// Decodes the group of rate limits at the limit of a websocket envelope,
/// each with the count that was used up, and hands the envelope's decoder
/// back with the limit behind the group.
pub fn decode_counted_rate_limits<'a>(parent: WebSocketResponseDecoder<'a>) -> (r: Result<
    (Vec<RateLimit>, WebSocketResponseDecoder<'a>),
    DecodeError,
>)
    requires
        parent.buf_ok(),
    ensures
        match counted_rate_limits_at(parent.buf()@, parent.limit_view() as int) {
            Ok((items, pos)) => {
                &&& r is Ok
                &&& r->Ok_0.0@ == items
                &&& 0 <= pos <= usize::MAX
                &&& r->Ok_0.1 == parent.with_limit(pos as usize)
            },
            Err(e) => r is Err && r->Err_0 == e,
        },
{
    let len = parent.get_buf().len();
    let start = parent.get_limit();
    if start > len || len - start < 6 {
        return Err(DecodeError::Truncated);
    }
    let block_length = parent.get_buf().get_u16_at(start) as usize;
    let mut decoder = parent.rate_limits_decoder();
    let count = decoder.count();
    let ghost s = parent.buf()@;
    let ghost step = rate_limit_step(s, true, block_length as int);
    let mut found: Vec<RateLimit> = Vec::new();
    let mut k: u32 = 0;
    assert(found@ =~= Seq::empty());
    while k < count
        invariant
            k <= count,
            s == parent.buf()@,
            s.len() == len,
            start == parent.limit_view(),
            step == rate_limit_step(s, true, block_length as int),
            parent.buf_ok(),
            decoder.buf_ok(),
            decoder.buf() == parent.buf(),
            decoder.count_view() == count,
            decoder.block_length_view() == block_length,
            decoder.index_view() == (if k == 0 {
                usize::MAX
            } else {
                (k - 1) as usize
            }),
            decoder.parent_view() == Some(parent.with_limit(decoder.limit_view())),
            walk(step, start + 6, k as nat) == Ok::<(Seq<RateLimit>, int), DecodeError>(
                (found@, decoder.limit_view() as int),
            ),
            counted_rate_limits_at(s, start as int) == walk(step, start + 6, count as nat),
        decreases count - k,
    {
        let at = decoder.get_limit();
        let ghost before = decoder;
        proof {
            parent.lemma_with_limit();
            before.lemma_frame();
        }
        if block_length > usize::MAX - at {
            proof {
                lemma_walk_stops(step, start + 6, k as nat, count as nat);
            }
            return Err(DecodeError::Truncated);
        }
        proof {
            before.with_limit((at + block_length) as usize).lemma_frame();
        }
        let advanced = decoder.advance();
        if at > len || len - at < 19 {
            proof {
                lemma_walk_stops(step, start + 6, k as nat, count as nat);
            }
            return Err(DecodeError::Truncated);
        }
        let rate_limit = RateLimit {
            rate_limit_type: decoder.rate_limit_type(),
            interval: decoder.interval(),
            interval_num: decoder.interval_num(),
            limit: decoder.rate_limit(),
            count: Some(decoder.current()),
        };
        found.push(rate_limit);
        k += 1;
    }
    let parent = decoder.parent().unwrap();
    Ok((found, parent))
}

/// The fixed block of a symbol, which begins at `pos`. None of its flags
/// may be null.
pub open spec fn symbol_terms_at(s: Seq<u8>, pos: int) -> Result<SymbolTerms, DecodeError> {
    if flag_at(s, pos + 7) is Err || flag_at(s, pos + 8) is Err || flag_at(s, pos + 9) is Err
        || flag_at(s, pos + 10) is Err || flag_at(s, pos + 11) is Err || flag_at(s, pos + 12) is Err
        || flag_at(s, pos + 13) is Err {
        Err(DecodeError::NullBool)
    } else {
    Ok(
        SymbolTerms {
            status: SymbolStatus::of_code(read_u8(s, pos)),
            base_asset_precision: read_u8(s, pos + 1),
            quote_asset_precision: read_u8(s, pos + 2),
            base_commission_precision: read_u8(s, pos + 3),
            quote_commission_precision: read_u8(s, pos + 4),
            order_types: OrderTypes(read_u16(s, pos + 5)),
            iceberg_allowed: flag_at(s, pos + 7)->Ok_0,
            oco_allowed: flag_at(s, pos + 8)->Ok_0,
            quote_order_qty_market_allowed: flag_at(s, pos + 9)->Ok_0,
            allow_trailing_stop: flag_at(s, pos + 10)->Ok_0,
            cancel_replace_allowed: flag_at(s, pos + 11)->Ok_0,
            is_spot_trading_allowed: flag_at(s, pos + 12)->Ok_0,
            is_margin_trading_allowed: flag_at(s, pos + 13)->Ok_0,
            default_self_trade_prevention_mode: SelfTradePreventionMode::of_code(
                read_u8(s, pos + 14),
            ),
            allowed_self_trade_prevention_modes: AllowedSelfTradePreventionModes(
                read_u8(s, pos + 15),
            ),
        },
    )
    }
}

/// What follows the fixed block of a symbol, from `limit` on: filters,
/// permissions and three names.
pub open spec fn symbol_rest_at(s: Seq<u8>, terms: SymbolTerms, limit: int) -> Result<
    (SymbolInfoView, int),
    DecodeError,
> {
    match symbol_filters_at(s, limit) {
        Err(e) => Err(e),
        Ok((filters, q1)) => match texts_at(s, q1) {
            Err(e) => Err(e),
            Ok((permissions, q2)) => match text_at(s, q2) {
                Err(e) => Err(e),
                Ok((symbol, q3)) => match text_at(s, q3) {
                    Err(e) => Err(e),
                    Ok((base_asset, q4)) => match text_at(s, q4) {
                        Err(e) => Err(e),
                        Ok((quote_asset, q5)) => Ok(
                            (
                                SymbolInfoView {
                                    terms,
                                    filters,
                                    permissions,
                                    symbol,
                                    base_asset,
                                    quote_asset,
                                },
                                q5,
                            ),
                        ),
                    },
                },
            },
        },
    }
}

/// An element that holds a symbol: its fixed block at `pos`, and behind
/// the `bl` bytes of the block the rest.
pub open spec fn symbol_elem(s: Seq<u8>, bl: int, pos: int) -> Result<
    (SymbolInfoView, int),
    DecodeError,
> {
    if pos + bl > usize::MAX || pos + 16 > s.len() {
        Err(DecodeError::Truncated)
    } else {
        match symbol_terms_at(s, pos) {
            Err(e) => Err(e),
            Ok(terms) => symbol_rest_at(s, terms, pos + bl),
        }
    }
}

pub open spec fn symbol_step(s: Seq<u8>, bl: int) -> spec_fn(int) -> Result<
    (SymbolInfoView, int),
    DecodeError,
> {
    |pos: int| symbol_elem(s, bl, pos)
}

/// The group of symbols behind its size prefix at `limit`.
pub open spec fn symbols_at(s: Seq<u8>, limit: int) -> Result<
    (Seq<SymbolInfoView>, int),
    DecodeError,
> {
    if limit + 6 > s.len() {
        Err(DecodeError::Truncated)
    } else {
        walk(symbol_step(s, read_u16(s, limit) as int), limit + 6, read_u32(s, limit + 2) as nat)
    }
}

/// An element that holds a routing entry: behind the `bl` bytes of its
/// block a group of symbol names, and the base asset.
pub open spec fn sor_elem(s: Seq<u8>, bl: int, pos: int) -> Result<(SorView, int), DecodeError> {
    if pos + bl > usize::MAX {
        Err(DecodeError::Truncated)
    } else {
        match texts_at(s, pos + bl) {
            Err(e) => Err(e),
            Ok((symbols, q1)) => match text_at(s, q1) {
                Err(e) => Err(e),
                Ok((base_asset, q2)) => Ok((SorView { symbols, base_asset }, q2)),
            },
        }
    }
}

pub open spec fn sor_step(s: Seq<u8>, bl: int) -> spec_fn(int) -> Result<
    (SorView, int),
    DecodeError,
> {
    |pos: int| sor_elem(s, bl, pos)
}

/// The group of routing entries behind its size prefix at `limit`.
pub open spec fn sors_at(s: Seq<u8>, limit: int) -> Result<(Seq<SorView>, int), DecodeError> {
    if limit + 6 > s.len() {
        Err(DecodeError::Truncated)
    } else {
        walk(sor_step(s, read_u16(s, limit) as int), limit + 6, read_u32(s, limit + 2) as nat)
    }
}

/// Decodes the fixed block of the symbol that `decoder` stands at.
pub fn decode_symbol_terms<'a>(
    decoder: &SymbolsDecoder<ExchangeInfoResponseDecoder<'a>>,
) -> (r: Result<
    SymbolTerms,
    DecodeError,
>)
    requires
        decoder.buf_ok(),
        decoder.offset_view() + 16 <= decoder.buf()@.len(),
    ensures
        r == symbol_terms_at(decoder.buf()@, decoder.offset_view() as int),
{
    let status = decoder.status();
    let base_asset_precision = decoder.base_asset_precision();
    let quote_asset_precision = decoder.quote_asset_precision();
    let base_commission_precision = decoder.base_commission_precision();
    let quote_commission_precision = decoder.quote_commission_precision();
    let order_types = decoder.order_types();
    let iceberg_allowed = match into_bool(decoder.iceberg_allowed()) {
        Ok(b) => b,
        Err(e) => {
            return Err(e);
        },
    };
    let oco_allowed = match into_bool(decoder.oco_allowed()) {
        Ok(b) => b,
        Err(e) => {
            return Err(e);
        },
    };
    let quote_order_qty_market_allowed = match into_bool(decoder.quote_order_qty_market_allowed()) {
        Ok(b) => b,
        Err(e) => {
            return Err(e);
        },
    };
    let allow_trailing_stop = match into_bool(decoder.allow_trailing_stop()) {
        Ok(b) => b,
        Err(e) => {
            return Err(e);
        },
    };
    let cancel_replace_allowed = match into_bool(decoder.cancel_replace_allowed()) {
        Ok(b) => b,
        Err(e) => {
            return Err(e);
        },
    };
    let is_spot_trading_allowed = match into_bool(decoder.is_spot_trading_allowed()) {
        Ok(b) => b,
        Err(e) => {
            return Err(e);
        },
    };
    let is_margin_trading_allowed = match into_bool(decoder.is_margin_trading_allowed()) {
        Ok(b) => b,
        Err(e) => {
            return Err(e);
        },
    };
    let default_self_trade_prevention_mode = decoder.default_self_trade_prevention_mode();
    let allowed_self_trade_prevention_modes = decoder.allowed_self_trade_prevention_modes();
    Ok(
        SymbolTerms {
            status,
            base_asset_precision,
            quote_asset_precision,
            base_commission_precision,
            quote_commission_precision,
            order_types,
            iceberg_allowed,
            oco_allowed,
            quote_order_qty_market_allowed,
            allow_trailing_stop,
            cancel_replace_allowed,
            is_spot_trading_allowed,
            is_margin_trading_allowed,
            default_self_trade_prevention_mode,
            allowed_self_trade_prevention_modes,
        },
    )
}

/// Decodes what follows the fixed block of a symbol, from the limit on,
/// and hands the decoder back with the limit behind it.
pub fn decode_symbol_rest<'a>(
    decoder: SymbolsDecoder<ExchangeInfoResponseDecoder<'a>>,
    terms: SymbolTerms,
) -> (r: Result<(SymbolInfo, SymbolsDecoder<ExchangeInfoResponseDecoder<'a>>), DecodeError>)
    requires
        decoder.buf_ok(),
    ensures
        match symbol_rest_at(decoder.buf()@, terms, decoder.limit_view() as int) {
            Ok((info, pos)) => {
                &&& r is Ok
                &&& r->Ok_0.0@ == info
                &&& 0 <= pos <= usize::MAX
                &&& r->Ok_0.1 == decoder.with_limit(pos as usize)
            },
            Err(e) => r is Err && r->Err_0 == e,
        },
{
    let ghost first = decoder;
    proof {
        first.lemma_with_limit();
    }
    let len = decoder.get_buf().len();
    let mut decoder = decoder;
    let ghost s = decoder.buf()@;
    let ghost outer = decoder;
    proof {
        outer.lemma_frame();
        outer.lemma_with_limit();
    }
    let (filters, back) = match decode_symbol_filters(decoder) {
        Ok(x) => x,
        Err(e) => {
            return Err(e);
        },
    };
    decoder = back;
    let ghost outer = decoder;
    proof {
        outer.lemma_frame();
        outer.lemma_with_limit();
    }
    let (permissions, back) = match decode_permissions(decoder) {
        Ok(x) => x,
        Err(e) => {
            return Err(e);
        },
    };
    decoder = back;
    let limit = decoder.get_limit();
    if limit > len || len - limit < 1 {
        return Err(DecodeError::Truncated);
    }
    let length = decoder.get_buf().get_u8_at(limit) as usize;
    if len - limit - 1 < length {
        return Err(DecodeError::Truncated);
    }
    let ghost moved = decoder;
    proof {
        moved.lemma_frame();
        moved.lemma_with_limit();
    }
    let coordinates = decoder.symbol_decoder();
    let slice = decoder.symbol_slice(coordinates);
    let symbol = match decode_text(slice) {
        Ok(text) => text,
        Err(e) => {
            return Err(e);
        },
    };
    let limit = decoder.get_limit();
    if limit > len || len - limit < 1 {
        return Err(DecodeError::Truncated);
    }
    let length = decoder.get_buf().get_u8_at(limit) as usize;
    if len - limit - 1 < length {
        return Err(DecodeError::Truncated);
    }
    let ghost moved = decoder;
    proof {
        moved.lemma_frame();
        moved.lemma_with_limit();
    }
    let coordinates = decoder.base_asset_decoder();
    let slice = decoder.base_asset_slice(coordinates);
    let base_asset = match decode_text(slice) {
        Ok(text) => text,
        Err(e) => {
            return Err(e);
        },
    };
    let limit = decoder.get_limit();
    if limit > len || len - limit < 1 {
        return Err(DecodeError::Truncated);
    }
    let length = decoder.get_buf().get_u8_at(limit) as usize;
    if len - limit - 1 < length {
        return Err(DecodeError::Truncated);
    }
    let ghost moved = decoder;
    proof {
        moved.lemma_frame();
        moved.lemma_with_limit();
    }
    let coordinates = decoder.quote_asset_decoder();
    let slice = decoder.quote_asset_slice(coordinates);
    let quote_asset = match decode_text(slice) {
        Ok(text) => text,
        Err(e) => {
            return Err(e);
        },
    };
    Ok(
        (
            SymbolInfo {
                status: terms.status,
                base_asset_precision: terms.base_asset_precision,
                quote_asset_precision: terms.quote_asset_precision,
                base_commission_precision: terms.base_commission_precision,
                quote_commission_precision: terms.quote_commission_precision,
                order_types: terms.order_types,
                iceberg_allowed: terms.iceberg_allowed,
                oco_allowed: terms.oco_allowed,
                quote_order_qty_market_allowed: terms.quote_order_qty_market_allowed,
                allow_trailing_stop: terms.allow_trailing_stop,
                cancel_replace_allowed: terms.cancel_replace_allowed,
                is_spot_trading_allowed: terms.is_spot_trading_allowed,
                is_margin_trading_allowed: terms.is_margin_trading_allowed,
                default_self_trade_prevention_mode: terms.default_self_trade_prevention_mode,
                allowed_self_trade_prevention_modes: terms.allowed_self_trade_prevention_modes,
                filters,
                permissions,
                symbol,
                base_asset,
                quote_asset,
            },
            decoder,
        ),
    )
}

/// Decodes the group of symbols at the limit, and hands the message's
/// decoder back with the limit behind the group.
pub fn decode_symbols<'a>(parent: ExchangeInfoResponseDecoder<'a>) -> (r: Result<
    (Vec<SymbolInfo>, ExchangeInfoResponseDecoder<'a>),
    DecodeError,
>)
    requires
        parent.buf_ok(),
    ensures
        match symbols_at(parent.buf()@, parent.limit_view() as int) {
            Ok((items, pos)) => {
                &&& r is Ok
                &&& symbol_views(r->Ok_0.0@) == items
                &&& 0 <= pos <= usize::MAX
                &&& r->Ok_0.1 == parent.with_limit(pos as usize)
            },
            Err(e) => r is Err && r->Err_0 == e,
        },
{
    let len = parent.get_buf().len();
    let start = parent.get_limit();
    if start > len || len - start < 6 {
        return Err(DecodeError::Truncated);
    }
    let block_length = parent.get_buf().get_u16_at(start) as usize;
    let mut decoder = parent.symbols_decoder();
    let count = decoder.count();
    let ghost s = parent.buf()@;
    let ghost step = symbol_step(s, block_length as int);
    let mut found: Vec<SymbolInfo> = Vec::new();
    let mut k: u32 = 0;
    assert(symbol_views(found@) =~= Seq::empty());
    while k < count
        invariant
            k <= count,
            s == parent.buf()@,
            s.len() == len,
            start == parent.limit_view(),
            step == symbol_step(s, block_length as int),
            parent.buf_ok(),
            decoder.buf_ok(),
            decoder.buf() == parent.buf(),
            decoder.count_view() == count,
            decoder.block_length_view() == block_length,
            decoder.index_view() == (if k == 0 {
                usize::MAX
            } else {
                (k - 1) as usize
            }),
            decoder.parent_view() == Some(parent.with_limit(decoder.limit_view())),
            walk(step, start + 6, k as nat) == Ok::<(Seq<SymbolInfoView>, int), DecodeError>(
                (symbol_views(found@), decoder.limit_view() as int),
            ),
            symbols_at(s, start as int) == walk(step, start + 6, count as nat),
        decreases count - k,
    {
        let at = decoder.get_limit();
        let ghost before = decoder;
        proof {
            parent.lemma_with_limit();
            before.lemma_frame();
        }
        if block_length > usize::MAX - at {
            proof {
                lemma_walk_stops(step, start + 6, k as nat, count as nat);
            }
            return Err(DecodeError::Truncated);
        }
        proof {
            before.with_limit((at + block_length) as usize).lemma_frame();
        }
        let advanced = decoder.advance();
        if at > len || len - at < 16 {
            proof {
                lemma_walk_stops(step, start + 6, k as nat, count as nat);
            }
            return Err(DecodeError::Truncated);
        }
        let terms = match decode_symbol_terms(&decoder) {
            Ok(terms) => terms,
            Err(e) => {
                proof {
                    lemma_walk_stops(step, start + 6, k as nat, count as nat);
                }
                return Err(e);
            },
        };
        let ghost outer = decoder;
        proof {
            outer.lemma_frame();
            outer.lemma_with_limit();
        }
        let (symbol_info, back) = match decode_symbol_rest(decoder, terms) {
            Ok(x) => x,
            Err(e) => {
                proof {
                    lemma_walk_stops(step, start + 6, k as nat, count as nat);
                }
                return Err(e);
            },
        };
        decoder = back;
        assert(symbol_views(found@.push(symbol_info)) =~= symbol_views(found@).push(symbol_info@));
        found.push(symbol_info);
        k += 1;
    }
    let parent = decoder.parent().unwrap();
    Ok((found, parent))
}

/// Decodes the group of routing entries at the limit, and hands the
/// message's decoder back with the limit behind the group.
pub fn decode_sors<'a>(parent: ExchangeInfoResponseDecoder<'a>) -> (r: Result<
    (Vec<Sor>, ExchangeInfoResponseDecoder<'a>),
    DecodeError,
>)
    requires
        parent.buf_ok(),
    ensures
        match sors_at(parent.buf()@, parent.limit_view() as int) {
            Ok((items, pos)) => {
                &&& r is Ok
                &&& sor_views(r->Ok_0.0@) == items
                &&& 0 <= pos <= usize::MAX
                &&& r->Ok_0.1 == parent.with_limit(pos as usize)
            },
            Err(e) => r is Err && r->Err_0 == e,
        },
{
    let len = parent.get_buf().len();
    let start = parent.get_limit();
    if start > len || len - start < 6 {
        return Err(DecodeError::Truncated);
    }
    let block_length = parent.get_buf().get_u16_at(start) as usize;
    let mut decoder = parent.sors_decoder();
    let count = decoder.count();
    let ghost s = parent.buf()@;
    let ghost step = sor_step(s, block_length as int);
    let mut found: Vec<Sor> = Vec::new();
    let mut k: u32 = 0;
    assert(sor_views(found@) =~= Seq::empty());
    while k < count
        invariant
            k <= count,
            s == parent.buf()@,
            s.len() == len,
            start == parent.limit_view(),
            step == sor_step(s, block_length as int),
            parent.buf_ok(),
            decoder.buf_ok(),
            decoder.buf() == parent.buf(),
            decoder.count_view() == count,
            decoder.block_length_view() == block_length,
            decoder.index_view() == (if k == 0 {
                usize::MAX
            } else {
                (k - 1) as usize
            }),
            decoder.parent_view() == Some(parent.with_limit(decoder.limit_view())),
            walk(step, start + 6, k as nat) == Ok::<(Seq<SorView>, int), DecodeError>(
                (sor_views(found@), decoder.limit_view() as int),
            ),
            sors_at(s, start as int) == walk(step, start + 6, count as nat),
        decreases count - k,
    {
        let at = decoder.get_limit();
        let ghost before = decoder;
        proof {
            parent.lemma_with_limit();
            before.lemma_frame();
        }
        if block_length > usize::MAX - at {
            proof {
                lemma_walk_stops(step, start + 6, k as nat, count as nat);
            }
            return Err(DecodeError::Truncated);
        }
        proof {
            before.with_limit((at + block_length) as usize).lemma_frame();
        }
        let advanced = decoder.advance();
        let ghost outer = decoder;
        proof {
            outer.lemma_frame();
            outer.lemma_with_limit();
        }
        let (symbols, back) = match decode_sor_symbols(decoder) {
            Ok(x) => x,
            Err(e) => {
                proof {
                    lemma_walk_stops(step, start + 6, k as nat, count as nat);
                }
                return Err(e);
            },
        };
        decoder = back;
        let limit = decoder.get_limit();
        if limit > len || len - limit < 1 {
            proof {
                lemma_walk_stops(step, start + 6, k as nat, count as nat);
            }
            return Err(DecodeError::Truncated);
        }
        let length = decoder.get_buf().get_u8_at(limit) as usize;
        if len - limit - 1 < length {
            proof {
                lemma_walk_stops(step, start + 6, k as nat, count as nat);
            }
            return Err(DecodeError::Truncated);
        }
        let ghost moved = decoder;
        proof {
            moved.lemma_frame();
            moved.lemma_with_limit();
        }
        let coordinates = decoder.base_asset_decoder();
        let slice = decoder.base_asset_slice(coordinates);
        let base_asset = match decode_text(slice) {
            Ok(text) => text,
            Err(e) => {
                proof {
                    lemma_walk_stops(step, start + 6, k as nat, count as nat);
                }
                return Err(e);
            },
        };
        let sor = Sor { symbols, base_asset };
        assert(sor_views(found@.push(sor)) =~= sor_views(found@).push(sor@));
        found.push(sor);
        k += 1;
    }
    let parent = decoder.parent().unwrap();
    Ok((found, parent))
}

} // verus!
