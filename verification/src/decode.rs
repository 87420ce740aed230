//! From a payload to what it says.
//!
//! A payload is one message behind its header, or a websocket envelope with
//! a message behind it. The spec functions of this module say what a
//! sequence of bytes stands for, the executable functions compute it, and no
//! byte is read that the payload does not hold: where the bytes end too
//! early, the answer is `DecodeError::Truncated`.
use crate::bool_enum::BoolEnum;
use crate::buffer::ReadBuf;
use crate::codec::Reader;
use crate::message_header_codec::MessageHeaderDecoder;
use crate::wire::{read_u16, read_u8};
use vstd::prelude::*;
use vstd::utf8::{decode_utf8, valid_utf8};

pub mod filters;
pub mod groups;
pub mod payload;

verus! {

/// Why a payload could not be decoded.
#[derive(Clone, Copy, Debug, PartialEq, Eq, Structural)]
pub enum DecodeError {
    /// The payload ends before the bytes that the message declares.
    Truncated,
    /// A flag that has to be true or false is null.
    NullBool,
    /// A text is not UTF-8.
    InvalidUtf8,
    /// The message is of another schema.
    SchemaId { got: u16, expected: u16 },
    /// The payload is no exchange information.
    Template { got: u16 },
    /// A filter of the exchange is of no known kind.
    ExchangeFilterTemplate { got: u16 },
    /// A filter of a symbol is of no known kind.
    SymbolFilterTemplate { got: u16 },
}

/// The truth value of a flag; the null value is none.
pub open spec fn bool_of(value: BoolEnum) -> Result<bool, DecodeError> {
    match value {
        BoolEnum::True => Ok(true),
        BoolEnum::False => Ok(false),
        BoolEnum::NullVal => Err(DecodeError::NullBool),
    }
}

pub fn into_bool(value: BoolEnum) -> (r: Result<bool, DecodeError>)
    ensures
        r == bool_of(value),
{
    Ok(
        match value {
            BoolEnum::True => true,
            BoolEnum::False => false,
            BoolEnum::NullVal => {
                return Err(DecodeError::NullBool);
            },
        },
    )
}

/// The text that bytes encode, where they are UTF-8.
pub open spec fn text_of(b: Seq<u8>) -> Result<Seq<char>, DecodeError> {
    if valid_utf8(b) {
        Ok(decode_utf8(b))
    } else {
        Err(DecodeError::InvalidUtf8)
    }
}

/// The error of `String::from_utf8` in the standard library. Nothing is
/// read from it.
#[verifier::external_type_specification]
#[verifier::external_body]
pub struct ExFromUtf8Error(std::string::FromUtf8Error);

/// `String::from_utf8` of the standard library: the string whose text the
/// bytes encode where they are valid UTF-8, and an error where they are
/// not.
pub assume_specification[ String::from_utf8 ](vec: Vec<u8>) -> (r: Result<
    String,
    std::string::FromUtf8Error,
>)
    ensures
        r is Ok <==> valid_utf8(vec@),
        r is Ok ==> r->Ok_0@ == decode_utf8(vec@),
;

/// One result stands for the other: the same error, or a value with the
/// view that is expected.
pub open spec fn stands_for<T: View>(
    r: Result<T, DecodeError>,
    expected: Result<T::V, DecodeError>,
) -> bool {
    match (r, expected) {
        (Ok(x), Ok(v)) => x@ == v,
        (Err(e), Err(f)) => e == f,
        _ => false,
    }
}

/// The bytes as a string, where they are UTF-8.
pub fn decode_text(bytes: &[u8]) -> (r: Result<String, DecodeError>)
    ensures
        stands_for(r, text_of(bytes@)),
{
    match String::from_utf8(vstd::slice::slice_to_vec(bytes)) {
        Ok(s) => Ok(s),
        Err(_) => Err(DecodeError::InvalidUtf8),
    }
}

/// The block of a message behind the header at `at` is there: its `block`
/// bytes, which begin eight bytes behind `at`, lie within `s`, and the limit
/// behind the block length that the header declares is a position that a
/// `usize` holds.
pub open spec fn block_fits(s: Seq<u8>, at: int, block: int) -> bool {
    at + 8 + block <= s.len() && at + 8 + read_u16(s, at) <= usize::MAX
}

/// Whether the block of the message that `header` announces is there.
pub fn has_block(header: &MessageHeaderDecoder<ReadBuf<'_>>, block: usize) -> (r: bool)
    requires
        header.buf_ok(),
        header.offset_view() + 8 <= header.buf()@.len(),
    ensures
        r == block_fits(header.buf()@, header.offset_view() as int, block as int),
{
    let room = header.get_buf().len() - header.offset() - 8;
    block <= room && header.block_length() as usize <= usize::MAX - header.offset() - 8
}

/// Variable-length data behind a one-byte length at `limit`: its bytes and
/// the limit behind them.
pub open spec fn var8_at(s: Seq<u8>, limit: int) -> Result<(Seq<u8>, int), DecodeError> {
    if limit + 1 > s.len() {
        Err(DecodeError::Truncated)
    } else if limit + 1 + read_u8(s, limit) > s.len() {
        Err(DecodeError::Truncated)
    } else {
        Ok((s.subrange(limit + 1, limit + 1 + read_u8(s, limit)), limit + 1 + read_u8(s, limit)))
    }
}

/// Variable-length data behind a two-byte length at `limit`: its bytes and
/// the limit behind them.
pub open spec fn var16_at(s: Seq<u8>, limit: int) -> Result<(Seq<u8>, int), DecodeError> {
    if limit + 2 > s.len() {
        Err(DecodeError::Truncated)
    } else if limit + 2 + read_u16(s, limit) > s.len() {
        Err(DecodeError::Truncated)
    } else {
        Ok((s.subrange(limit + 2, limit + 2 + read_u16(s, limit)), limit + 2 + read_u16(s, limit)))
    }
}

/// The walk over `n` elements of a group that begins at `start`: `elem`
/// says for a position what the element there holds and where it ends, and
/// the next element begins there. The first failure ends the walk.
pub open spec fn walk<T>(
    elem: spec_fn(int) -> Result<(T, int), DecodeError>,
    start: int,
    n: nat,
) -> Result<(Seq<T>, int), DecodeError>
    decreases n,
{
    if n == 0 {
        Ok((Seq::empty(), start))
    } else {
        match walk(elem, start, (n - 1) as nat) {
            Err(e) => Err(e),
            Ok((items, pos)) => match elem(pos) {
                Err(e) => Err(e),
                Ok((x, next)) => Ok((items.push(x), next)),
            },
        }
    }
}

/// A walk that has failed stays failed, however many elements follow.
pub proof fn lemma_walk_fails<T>(
    elem: spec_fn(int) -> Result<(T, int), DecodeError>,
    start: int,
    k: nat,
    n: nat,
)
    requires
        k <= n,
        walk(elem, start, k) is Err,
    ensures
        walk(elem, start, n) == walk(elem, start, k),
    decreases n,
{
    if k < n {
        lemma_walk_fails(elem, start, k, (n - 1) as nat);
    }
}

/// A walk ends with the failure of the first element that fails.
pub proof fn lemma_walk_stops<T>(
    elem: spec_fn(int) -> Result<(T, int), DecodeError>,
    start: int,
    k: nat,
    n: nat,
)
    requires
        k < n,
        walk(elem, start, k) is Ok,
        elem(walk(elem, start, k)->Ok_0.1) is Err,
    ensures
        walk(elem, start, n) == Err::<(Seq<T>, int), DecodeError>(
            elem(walk(elem, start, k)->Ok_0.1)->Err_0,
        ),
{
    assert(walk(elem, start, (k + 1) as nat) is Err);
    lemma_walk_fails(elem, start, (k + 1) as nat, n);
}

/// The flag at `pos`: true or false, and an error where it is null.
pub open spec fn flag_at(s: Seq<u8>, pos: int) -> Result<bool, DecodeError> {
    bool_of(BoolEnum::of_code(read_u8(s, pos)))
}

/// A text behind a one-byte length at `limit`, and the limit behind it.
pub open spec fn text_at(s: Seq<u8>, limit: int) -> Result<(Seq<char>, int), DecodeError> {
    match var8_at(s, limit) {
        Err(e) => Err(e),
        Ok((b, next)) => match text_of(b) {
            Err(e) => Err(e),
            Ok(t) => Ok((t, next)),
        },
    }
}

} // verus!
