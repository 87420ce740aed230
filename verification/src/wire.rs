//! The little-endian layout of fixed-width integers, stated on byte sequences.
//!
//! Every accessor of the codecs is specified by the functions of this module:
//! a field of width `n` at position `i` is the number that the bytes
//! `s[i..i + n]` spell, least significant byte first, and writing it replaces
//! exactly those bytes.
//!
//! The functions that spell a number and `patch` are opaque: the proofs that
//! use them go by the laws below (the round trips, `lemma_patch`,
//! `lemma_read_digits`, `lemma_spelling_digits`), and a proof that needs the
//! definitions reveals them.
use vstd::prelude::*;

verus! {

/// The number spelled by two bytes, least significant first.
#[verifier::opaque]
pub open spec fn u16_from_le(b: Seq<u8>) -> u16
    recommends
        b.len() == 2,
{
    (b[0] as int + 0x100 * (b[1] as int)) as u16
}

/// The two bytes that spell `v`, least significant first.
#[verifier::opaque]
pub open spec fn u16_to_le(v: u16) -> Seq<u8> {
    seq![(v % 0x100) as u8, (v / 0x100) as u8]
}

/// The number spelled by four bytes: the low half comes first.
#[verifier::opaque]
pub open spec fn u32_from_le(b: Seq<u8>) -> u32
    recommends
        b.len() == 4,
{
    (u16_from_le(b.subrange(0, 2)) as int + 0x1_0000 * (u16_from_le(b.subrange(2, 4)) as int))
        as u32
}

/// The four bytes that spell `v`, least significant first.
#[verifier::opaque]
pub open spec fn u32_to_le(v: u32) -> Seq<u8> {
    u16_to_le((v % 0x1_0000) as u16) + u16_to_le((v / 0x1_0000) as u16)
}

/// The number spelled by eight bytes: the low half comes first.
#[verifier::opaque]
pub open spec fn u64_from_le(b: Seq<u8>) -> u64
    recommends
        b.len() == 8,
{
    (u32_from_le(b.subrange(0, 4)) as int + 0x1_0000_0000 * (u32_from_le(b.subrange(4, 8))
        as int)) as u64
}

/// The eight bytes that spell `v`, least significant first.
#[verifier::opaque]
pub open spec fn u64_to_le(v: u64) -> Seq<u8> {
    u32_to_le((v % 0x1_0000_0000) as u32) + u32_to_le((v / 0x1_0000_0000) as u32)
}

/// Two's complement reading of one byte.
pub open spec fn i8_of(u: u8) -> i8 {
    if u < 0x80 {
        u as i8
    } else {
        (u - 0x100) as i8
    }
}

/// The byte whose two's complement reading is `v`.
pub open spec fn u8_of(v: i8) -> u8 {
    if v >= 0 {
        v as u8
    } else {
        (v + 0x100) as u8
    }
}

/// Two's complement reading of a 16-bit pattern.
pub open spec fn i16_of(u: u16) -> i16 {
    if u < 0x8000 {
        u as i16
    } else {
        (u - 0x1_0000) as i16
    }
}

/// The 16-bit pattern whose two's complement reading is `v`.
pub open spec fn u16_of(v: i16) -> u16 {
    if v >= 0 {
        v as u16
    } else {
        (v + 0x1_0000) as u16
    }
}

/// Two's complement reading of a 32-bit pattern.
pub open spec fn i32_of(u: u32) -> i32 {
    if u < 0x8000_0000 {
        u as i32
    } else {
        (u - 0x1_0000_0000) as i32
    }
}

/// The 32-bit pattern whose two's complement reading is `v`.
pub open spec fn u32_of(v: i32) -> u32 {
    if v >= 0 {
        v as u32
    } else {
        (v + 0x1_0000_0000) as u32
    }
}

/// Two's complement reading of a 64-bit pattern.
pub open spec fn i64_of(u: u64) -> i64 {
    if u < 0x8000_0000_0000_0000 {
        u as i64
    } else {
        (u - 0x1_0000_0000_0000_0000) as i64
    }
}

/// The 64-bit pattern whose two's complement reading is `v`.
pub open spec fn u64_of(v: i64) -> u64 {
    if v >= 0 {
        v as u64
    } else {
        (v + 0x1_0000_0000_0000_0000) as u64
    }
}

/// `s` with the bytes `b` laid over it from position `i` on; the length stays.
#[verifier::opaque]
pub open spec fn patch(s: Seq<u8>, i: int, b: Seq<u8>) -> Seq<u8> {
    Seq::new(
        s.len(),
        |j: int|
            if i <= j < i + b.len() {
                b[j - i]
            } else {
                s[j]
            },
    )
}

/// The byte at `i`.
pub open spec fn read_u8(s: Seq<u8>, i: int) -> u8 {
    s[i]
}

/// The byte at `i`, read in two's complement.
pub open spec fn read_i8(s: Seq<u8>, i: int) -> i8 {
    i8_of(s[i])
}

/// The number that the two bytes from `i` on spell.
pub open spec fn read_u16(s: Seq<u8>, i: int) -> u16 {
    u16_from_le(s.subrange(i, i + 2))
}

/// The two bytes from `i` on, read in two's complement.
pub open spec fn read_i16(s: Seq<u8>, i: int) -> i16 {
    i16_of(read_u16(s, i))
}

/// The number that the four bytes from `i` on spell.
pub open spec fn read_u32(s: Seq<u8>, i: int) -> u32 {
    u32_from_le(s.subrange(i, i + 4))
}

/// The four bytes from `i` on, read in two's complement.
pub open spec fn read_i32(s: Seq<u8>, i: int) -> i32 {
    i32_of(read_u32(s, i))
}

/// The number that the eight bytes from `i` on spell.
pub open spec fn read_u64(s: Seq<u8>, i: int) -> u64 {
    u64_from_le(s.subrange(i, i + 8))
}

/// The eight bytes from `i` on, read in two's complement.
pub open spec fn read_i64(s: Seq<u8>, i: int) -> i64 {
    i64_of(read_u64(s, i))
}

/// `s` with `v` as the byte at `i`.
pub open spec fn write_u8(s: Seq<u8>, i: int, v: u8) -> Seq<u8> {
    patch(s, i, seq![v])
}

/// `s` with the byte of `v` in two's complement at `i`.
pub open spec fn write_i8(s: Seq<u8>, i: int, v: i8) -> Seq<u8> {
    patch(s, i, seq![u8_of(v)])
}

/// `s` with the two bytes that spell `v` from `i` on.
pub open spec fn write_u16(s: Seq<u8>, i: int, v: u16) -> Seq<u8> {
    patch(s, i, u16_to_le(v))
}

/// `s` with the two bytes of `v` in two's complement from `i` on.
pub open spec fn write_i16(s: Seq<u8>, i: int, v: i16) -> Seq<u8> {
    patch(s, i, u16_to_le(u16_of(v)))
}

/// `s` with the four bytes that spell `v` from `i` on.
pub open spec fn write_u32(s: Seq<u8>, i: int, v: u32) -> Seq<u8> {
    patch(s, i, u32_to_le(v))
}

/// `s` with the four bytes of `v` in two's complement from `i` on.
pub open spec fn write_i32(s: Seq<u8>, i: int, v: i32) -> Seq<u8> {
    patch(s, i, u32_to_le(u32_of(v)))
}

/// `s` with the eight bytes that spell `v` from `i` on.
pub open spec fn write_u64(s: Seq<u8>, i: int, v: u64) -> Seq<u8> {
    patch(s, i, u64_to_le(v))
}

/// `s` with the eight bytes of `v` in two's complement from `i` on.
pub open spec fn write_i64(s: Seq<u8>, i: int, v: i64) -> Seq<u8> {
    patch(s, i, u64_to_le(u64_of(v)))
}

/// An optional field: the value `null` on the wire stands for no value.
pub open spec fn absent_if<T>(v: T, null: T) -> Option<T> {
    if v == null {
        None
    } else {
        Some(v)
    }
}

/// Variable-length data behind a one-byte length. A length that does not fit
/// the prefix is cut to its low bits.
pub open spec fn write_var_u8(s: Seq<u8>, i: int, data: Seq<u8>) -> Seq<u8> {
    patch(write_u8(s, i, data.len() as usize as u8), i + 1, data)
}

/// Variable-length data behind a two-byte length. A length that does not fit
/// the prefix is cut to its low bits.
pub open spec fn write_var_u16(s: Seq<u8>, i: int, data: Seq<u8>) -> Seq<u8> {
    patch(write_u16(s, i, data.len() as usize as u16), i + 2, data)
}

/// Variable-length data behind a four-byte length. A length that does not fit
/// the prefix is cut to its low bits.
pub open spec fn write_var_u32(s: Seq<u8>, i: int, data: Seq<u8>) -> Seq<u8> {
    patch(write_u32(s, i, data.len() as usize as u32), i + 4, data)
}

/// The six bytes before the elements of a group: the length of one element's
/// fixed block and the number of elements.
pub open spec fn write_group_size(s: Seq<u8>, i: int, block_length: u16, count: u32) -> Seq<u8> {
    write_u32(write_u16(s, i, block_length), i + 2, count)
}

/// The four bytes before the elements of a group whose count is a `u16`.
pub open spec fn write_group_size_16(s: Seq<u8>, i: int, block_length: u16, count: u16) -> Seq<u8> {
    write_u16(write_u16(s, i, block_length), i + 2, count)
}

/// Every 16-bit number is spelled by its two bytes.
pub proof fn lemma_u16_value(v: u16)
    ensures
        u16_to_le(v).len() == 2,
        u16_from_le(u16_to_le(v)) == v,
{
    reveal(u16_from_le);
    reveal(u16_to_le);
}

/// Two bytes are the spelling of the number that they spell.
pub proof fn lemma_u16_bytes(b: Seq<u8>)
    requires
        b.len() == 2,
    ensures
        u16_to_le(u16_from_le(b)) == b,
{
    reveal(u16_from_le);
    reveal(u16_to_le);
    assert(u16_to_le(u16_from_le(b)) =~= b);
}

/// Every 32-bit number is spelled by its four bytes.
pub proof fn lemma_u32_value(v: u32)
    ensures
        u32_to_le(v).len() == 4,
        u32_from_le(u32_to_le(v)) == v,
{
    reveal(u32_from_le);
    reveal(u32_to_le);
    let lo = (v % 0x1_0000) as u16;
    let hi = (v / 0x1_0000) as u16;
    lemma_u16_value(lo);
    lemma_u16_value(hi);
    let e = u16_to_le(lo) + u16_to_le(hi);
    assert(e.subrange(0, 2) =~= u16_to_le(lo));
    assert(e.subrange(2, 4) =~= u16_to_le(hi));
}

/// Four bytes are the spelling of the number that they spell.
pub proof fn lemma_u32_bytes(b: Seq<u8>)
    requires
        b.len() == 4,
    ensures
        u32_to_le(u32_from_le(b)) == b,
{
    reveal(u32_from_le);
    reveal(u32_to_le);
    let lo = u16_from_le(b.subrange(0, 2));
    let hi = u16_from_le(b.subrange(2, 4));
    lemma_u16_bytes(b.subrange(0, 2));
    lemma_u16_bytes(b.subrange(2, 4));
    let v = u32_from_le(b);
    assert(v == hi * 0x1_0000 + lo);
    vstd::arithmetic::div_mod::lemma_fundamental_div_mod_converse(
        v as int,
        0x1_0000,
        hi as int,
        lo as int,
    );
    assert(b.subrange(0, 2) + b.subrange(2, 4) =~= b);
}

/// Every 64-bit number is spelled by its eight bytes.
pub proof fn lemma_u64_value(v: u64)
    ensures
        u64_to_le(v).len() == 8,
        u64_from_le(u64_to_le(v)) == v,
{
    reveal(u64_from_le);
    reveal(u64_to_le);
    let lo = (v % 0x1_0000_0000) as u32;
    let hi = (v / 0x1_0000_0000) as u32;
    lemma_u32_value(lo);
    lemma_u32_value(hi);
    let e = u32_to_le(lo) + u32_to_le(hi);
    assert(e.subrange(0, 4) =~= u32_to_le(lo));
    assert(e.subrange(4, 8) =~= u32_to_le(hi));
}

/// Eight bytes are the spelling of the number that they spell.
pub proof fn lemma_u64_bytes(b: Seq<u8>)
    requires
        b.len() == 8,
    ensures
        u64_to_le(u64_from_le(b)) == b,
{
    reveal(u64_from_le);
    reveal(u64_to_le);
    let lo = u32_from_le(b.subrange(0, 4));
    let hi = u32_from_le(b.subrange(4, 8));
    lemma_u32_bytes(b.subrange(0, 4));
    lemma_u32_bytes(b.subrange(4, 8));
    let v = u64_from_le(b);
    assert(v == hi * 0x1_0000_0000 + lo);
    vstd::arithmetic::div_mod::lemma_fundamental_div_mod_converse(
        v as int,
        0x1_0000_0000,
        hi as int,
        lo as int,
    );
    assert(b.subrange(0, 4) + b.subrange(4, 8) =~= b);
}

/// The signed and the unsigned reading of a bit pattern determine each other.
pub proof fn lemma_twos_complement(a: u8, b: u16, c: u32, d: u64, e: i8, f: i16, g: i32, h: i64)
    ensures
        u8_of(i8_of(a)) == a,
        u16_of(i16_of(b)) == b,
        u32_of(i32_of(c)) == c,
        u64_of(i64_of(d)) == d,
        i8_of(u8_of(e)) == e,
        i16_of(u16_of(f)) == f,
        i32_of(u32_of(g)) == g,
        i64_of(u64_of(h)) == h,
{
}

/// What `patch` leaves and what it puts: the length and the bytes outside
/// `[i, i + b.len())` stay, and that range then holds `b`.
pub proof fn lemma_patch(s: Seq<u8>, i: int, b: Seq<u8>)
    requires
        0 <= i,
        i + b.len() <= s.len(),
    ensures
        patch(s, i, b).len() == s.len(),
        patch(s, i, b).subrange(i, i + b.len()) == b,
        forall|j: int| 0 <= j < i ==> patch(s, i, b)[j] == s[j],
        forall|j: int| i + b.len() <= j < s.len() ==> patch(s, i, b)[j] == s[j],
        patch(s, i, s.subrange(i, i + b.len())) == s,
{
    reveal(patch);
    assert(patch(s, i, b).subrange(i, i + b.len()) =~= b);
    assert(patch(s, i, s.subrange(i, i + b.len())) =~= s);
}

/// A patch holds its bytes, and the length stays.
pub proof fn lemma_patch_holds(s: Seq<u8>, i: int, b: Seq<u8>)
    requires
        0 <= i,
        i + b.len() <= s.len(),
    ensures
        patch(s, i, b).len() == s.len(),
        patch(s, i, b).subrange(i, i + b.len()) == b,
        b.len() >= 1 ==> patch(s, i, b)[i] == b[0],
{
    reveal(patch);
    assert(patch(s, i, b).subrange(i, i + b.len()) =~= b);
}

/// A range that lies wholly before or wholly behind a patch reads as before.
pub proof fn lemma_patch_apart(s: Seq<u8>, i: int, b: Seq<u8>, j: int, n: int)
    requires
        0 <= i,
        i + b.len() <= s.len(),
        0 <= j,
        0 <= n,
        j + n <= s.len(),
        j + n <= i || i + b.len() <= j,
    ensures
        patch(s, i, b).len() == s.len(),
        patch(s, i, b).subrange(j, j + n) == s.subrange(j, j + n),
        n >= 1 ==> patch(s, i, b)[j] == s[j],
{
    reveal(patch);
    assert(patch(s, i, b).subrange(j, j + n) =~= s.subrange(j, j + n));
}

/// What was written is read back, and writing back what was read changes
/// nothing: one byte.
pub proof fn lemma_round_trip_8(s: Seq<u8>, i: int, u: u8, v: i8)
    requires
        0 <= i < s.len(),
    ensures
        write_u8(s, i, u).len() == s.len(),
        write_i8(s, i, v).len() == s.len(),
        read_u8(write_u8(s, i, u), i) == u,
        read_i8(write_i8(s, i, v), i) == v,
        write_u8(s, i, read_u8(s, i)) == s,
        write_i8(s, i, read_i8(s, i)) == s,
{
    reveal(patch);
    lemma_twos_complement(s[i], 0, 0, 0, v, 0, 0, 0);
    assert(write_u8(s, i, read_u8(s, i)) =~= s);
    assert(write_i8(s, i, read_i8(s, i)) =~= s);
}

/// What was written is read back, and writing back what was read changes
/// nothing: two bytes.
pub proof fn lemma_round_trip_16(s: Seq<u8>, i: int, u: u16, v: i16)
    requires
        0 <= i,
        i + 2 <= s.len(),
    ensures
        write_u16(s, i, u).len() == s.len(),
        write_i16(s, i, v).len() == s.len(),
        read_u16(write_u16(s, i, u), i) == u,
        read_i16(write_i16(s, i, v), i) == v,
        write_u16(s, i, read_u16(s, i)) == s,
        write_i16(s, i, read_i16(s, i)) == s,
{
    lemma_u16_value(u);
    lemma_u16_value(u16_of(v));
    lemma_u16_bytes(s.subrange(i, i + 2));
    lemma_twos_complement(0, read_u16(s, i), 0, 0, 0, v, 0, 0);
    lemma_patch(s, i, u16_to_le(u));
    lemma_patch(s, i, u16_to_le(u16_of(v)));
}

/// What was written is read back, and writing back what was read changes
/// nothing: four bytes.
pub proof fn lemma_round_trip_32(s: Seq<u8>, i: int, u: u32, v: i32)
    requires
        0 <= i,
        i + 4 <= s.len(),
    ensures
        write_u32(s, i, u).len() == s.len(),
        write_i32(s, i, v).len() == s.len(),
        read_u32(write_u32(s, i, u), i) == u,
        read_i32(write_i32(s, i, v), i) == v,
        write_u32(s, i, read_u32(s, i)) == s,
        write_i32(s, i, read_i32(s, i)) == s,
{
    lemma_u32_value(u);
    lemma_u32_value(u32_of(v));
    lemma_u32_bytes(s.subrange(i, i + 4));
    lemma_twos_complement(0, 0, read_u32(s, i), 0, 0, 0, v, 0);
    lemma_patch(s, i, u32_to_le(u));
    lemma_patch(s, i, u32_to_le(u32_of(v)));
}

/// What was written is read back, and writing back what was read changes
/// nothing: eight bytes.
pub proof fn lemma_round_trip_64(s: Seq<u8>, i: int, u: u64, v: i64)
    requires
        0 <= i,
        i + 8 <= s.len(),
    ensures
        write_u64(s, i, u).len() == s.len(),
        write_i64(s, i, v).len() == s.len(),
        read_u64(write_u64(s, i, u), i) == u,
        read_i64(write_i64(s, i, v), i) == v,
        write_u64(s, i, read_u64(s, i)) == s,
        write_i64(s, i, read_i64(s, i)) == s,
{
    lemma_u64_value(u);
    lemma_u64_value(u64_of(v));
    lemma_u64_bytes(s.subrange(i, i + 8));
    lemma_twos_complement(0, 0, 0, read_u64(s, i), 0, 0, 0, v);
    lemma_patch(s, i, u64_to_le(u));
    lemma_patch(s, i, u64_to_le(u64_of(v)));
}

/// The null value of an optional field: the least value of its width is
/// read as no value once it was written, and every other value as itself.
pub proof fn lemma_null_value(s: Seq<u8>, i: int, a: i8, b: i16, c: i32, d: i64)
    requires
        0 <= i,
    ensures
        i + 1 <= s.len() ==> absent_if(read_i8(write_i8(s, i, a), i), i8::MIN) == (if a == i8::MIN {
            None
        } else {
            Some(a)
        }),
        i + 2 <= s.len() ==> absent_if(read_i16(write_i16(s, i, b), i), i16::MIN) == (if b
            == i16::MIN {
            None
        } else {
            Some(b)
        }),
        i + 4 <= s.len() ==> absent_if(read_i32(write_i32(s, i, c), i), i32::MIN) == (if c
            == i32::MIN {
            None
        } else {
            Some(c)
        }),
        i + 8 <= s.len() ==> absent_if(read_i64(write_i64(s, i, d), i), i64::MIN) == (if d
            == i64::MIN {
            None
        } else {
            Some(d)
        }),
{
    if i + 1 <= s.len() {
        lemma_round_trip_8(s, i, 0, a);
    }
    if i + 2 <= s.len() {
        lemma_round_trip_16(s, i, 0, b);
    }
    if i + 4 <= s.len() {
        lemma_round_trip_32(s, i, 0, c);
    }
    if i + 8 <= s.len() {
        lemma_round_trip_64(s, i, 0, d);
    }
}

/// The size prefix of a group is read back as it was written.
pub proof fn lemma_group_size_round_trip(s: Seq<u8>, i: int, block_length: u16, count: u32, n: u16)
    requires
        0 <= i,
    ensures
        i + 6 <= s.len() ==> read_u16(write_group_size(s, i, block_length, count), i)
            == block_length && read_u32(write_group_size(s, i, block_length, count), i + 2)
            == count && write_group_size(s, i, block_length, count).len() == s.len(),
        i + 4 <= s.len() ==> read_u16(write_group_size_16(s, i, block_length, n), i)
            == block_length && read_u16(write_group_size_16(s, i, block_length, n), i + 2) == n
            && write_group_size_16(s, i, block_length, n).len() == s.len(),
{
    if i + 4 <= s.len() {
        let t = write_u16(s, i, block_length);
        lemma_round_trip_16(s, i, block_length, 0);
        lemma_round_trip_16(t, i + 2, n, 0);
        lemma_u16_value(n);
        lemma_patch_apart(t, i + 2, u16_to_le(n), i, 2);
    }
    if i + 6 <= s.len() {
        let t = write_u16(s, i, block_length);
        lemma_round_trip_16(s, i, block_length, 0);
        lemma_round_trip_32(t, i + 2, count, 0);
        lemma_u32_value(count);
        lemma_patch_apart(t, i + 2, u32_to_le(count), i, 2);
    }
}

/// Variable-length data is read back as it was written, where its length
/// fits the prefix: the length at `i`, and the data behind it.
pub proof fn lemma_var_round_trip(s: Seq<u8>, i: int, data: Seq<u8>)
    requires
        0 <= i,
    ensures
        data.len() <= u8::MAX && i + 1 + data.len() <= s.len() ==> read_u8(
            write_var_u8(s, i, data),
            i,
        ) == data.len() && write_var_u8(s, i, data).subrange(i + 1, i + 1 + data.len()) == data
            && write_var_u8(s, i, data).len() == s.len(),
        data.len() <= u16::MAX && i + 2 + data.len() <= s.len() ==> read_u16(
            write_var_u16(s, i, data),
            i,
        ) == data.len() && write_var_u16(s, i, data).subrange(i + 2, i + 2 + data.len()) == data
            && write_var_u16(s, i, data).len() == s.len(),
        data.len() <= u32::MAX && i + 4 + data.len() <= s.len() ==> read_u32(
            write_var_u32(s, i, data),
            i,
        ) == data.len() && write_var_u32(s, i, data).subrange(i + 4, i + 4 + data.len()) == data
            && write_var_u32(s, i, data).len() == s.len(),
{
    if data.len() <= u8::MAX && i + 1 + data.len() <= s.len() {
        let n = data.len() as usize as u8;
        let t = write_u8(s, i, n);
        lemma_round_trip_8(s, i, n, 0);
        lemma_patch(t, i + 1, data);
    }
    if data.len() <= u16::MAX && i + 2 + data.len() <= s.len() {
        let n = data.len() as usize as u16;
        let t = write_u16(s, i, n);
        lemma_round_trip_16(s, i, n, 0);
        lemma_patch(t, i + 2, data);
        lemma_patch_apart(t, i + 2, data, i, 2);
    }
    if data.len() <= u32::MAX && i + 4 + data.len() <= s.len() {
        let n = data.len() as usize as u32;
        let t = write_u32(s, i, n);
        lemma_round_trip_32(s, i, n, 0);
        lemma_patch(t, i + 4, data);
        lemma_patch_apart(t, i + 4, data, i, 4);
    }
}

/// The size prefix of a group and variable-length data, written with what
/// is read from them, are as they were.
pub proof fn lemma_written_back(s: Seq<u8>, i: int)
    requires
        0 <= i,
    ensures
        i + 6 <= s.len() ==> write_group_size(s, i, read_u16(s, i), read_u32(s, i + 2)) == s,
        i + 4 <= s.len() ==> write_group_size_16(s, i, read_u16(s, i), read_u16(s, i + 2)) == s,
        i + 1 + read_u8(s, i) <= s.len() ==> write_var_u8(
            s,
            i,
            s.subrange(i + 1, i + 1 + read_u8(s, i)),
        ) == s,
        i + 2 + read_u16(s, i) <= s.len() ==> write_var_u16(
            s,
            i,
            s.subrange(i + 2, i + 2 + read_u16(s, i)),
        ) == s,
        i + 4 + read_u32(s, i) <= s.len() ==> write_var_u32(
            s,
            i,
            s.subrange(i + 4, i + 4 + read_u32(s, i)),
        ) == s,
{
    if i + 4 <= s.len() {
        lemma_round_trip_16(s, i, 0, 0);
        lemma_round_trip_16(s, i + 2, 0, 0);
    }
    if i + 6 <= s.len() {
        lemma_round_trip_16(s, i, 0, 0);
        lemma_round_trip_32(s, i + 2, 0, 0);
    }
    if i + 1 + read_u8(s, i) <= s.len() {
        lemma_round_trip_8(s, i, 0, 0);
        lemma_patch(s, i + 1, s.subrange(i + 1, i + 1 + read_u8(s, i)));
    }
    if i + 2 + read_u16(s, i) <= s.len() {
        lemma_round_trip_16(s, i, 0, 0);
        lemma_patch(s, i + 2, s.subrange(i + 2, i + 2 + read_u16(s, i)));
    }
    if i + 4 + read_u32(s, i) <= s.len() {
        lemma_round_trip_32(s, i, 0, 0);
        lemma_patch(s, i + 4, s.subrange(i + 4, i + 4 + read_u32(s, i)));
    }
}

/// `s` after the first `n` fields of a block were written behind `base`,
/// one after the other. `fields` says of each field, by its number, where it
/// begins, counted from `base`, and its bytes.
pub open spec fn laid(
    s: Seq<u8>,
    base: int,
    fields: spec_fn(int) -> (int, Seq<u8>),
    n: nat,
) -> Seq<u8>
    decreases n,
{
    if n == 0 {
        s
    } else {
        patch(laid(s, base, fields, (n - 1) as nat), base + fields(n - 1).0, fields(n - 1).1)
    }
}

/// The first `n` fields lie side by side within `block` bytes: each begins
/// where the one before it has ended, or behind that, and the last ends
/// within the block.
pub open spec fn side_by_side(fields: spec_fn(int) -> (int, Seq<u8>), n: nat, block: int) -> bool
    decreases n,
{
    n == 0 || (0 <= fields(n - 1).0 && fields(n - 1).0 + fields(n - 1).1.len() <= block
        && side_by_side(fields, (n - 1) as nat, fields(n - 1).0))
}

/// One more field behind fields that lie side by side: they still do, and
/// the new field is written last.
pub proof fn lemma_next_field(
    s: Seq<u8>,
    base: int,
    fields: spec_fn(int) -> (int, Seq<u8>),
    n: nat,
    end: int,
    block: int,
)
    requires
        side_by_side(fields, n, end),
        0 <= end <= fields(n as int).0,
        fields(n as int).0 + fields(n as int).1.len() <= block,
    ensures
        side_by_side(fields, n + 1, block),
        laid(s, base, fields, n + 1) == patch(
            laid(s, base, fields, n),
            base + fields(n as int).0,
            fields(n as int).1,
        ),
{
    lemma_side_by_side_wider(fields, n, end, fields(n as int).0);
}

/// Fields that lie within a block lie within every longer one.
pub proof fn lemma_side_by_side_wider(
    fields: spec_fn(int) -> (int, Seq<u8>),
    n: nat,
    block: int,
    wider: int,
)
    requires
        side_by_side(fields, n, block),
        block <= wider,
    ensures
        side_by_side(fields, n, wider),
{
}

/// Each of the fields that lie side by side lies within the block.
pub proof fn lemma_side_by_side_within(
    fields: spec_fn(int) -> (int, Seq<u8>),
    n: nat,
    block: int,
    k: int,
)
    requires
        side_by_side(fields, n, block),
        0 <= k < n,
    ensures
        0 <= fields(k).0,
        fields(k).0 + fields(k).1.len() <= block,
    decreases n,
{
    if k < n - 1 {
        lemma_side_by_side_within(fields, (n - 1) as nat, fields(n - 1).0, k);
    }
}

/// Fields that lie side by side do not disturb each other: once all were
/// written, each holds its bytes, and the length is as it was.
pub proof fn lemma_laid(
    s: Seq<u8>,
    base: int,
    fields: spec_fn(int) -> (int, Seq<u8>),
    n: nat,
    block: int,
    k: int,
)
    requires
        0 <= base,
        base + block <= s.len(),
        side_by_side(fields, n, block),
        0 <= k < n,
    ensures
        laid(s, base, fields, n).len() == s.len(),
        laid(s, base, fields, n).subrange(
            base + fields(k).0,
            base + fields(k).0 + fields(k).1.len(),
        ) == fields(k).1,
        fields(k).1.len() >= 1 ==> laid(s, base, fields, n)[base + fields(k).0] == fields(k).1[0],
    decreases n,
{
    let m = (n - 1) as nat;
    let f = fields(n - 1);
    lemma_laid_len(s, base, fields, m, f.0);
    lemma_patch_holds(laid(s, base, fields, m), base + f.0, f.1);
    if k < n - 1 {
        lemma_laid(s, base, fields, m, f.0, k);
        lemma_side_by_side_within(fields, m, f.0, k);
        lemma_patch_apart(
            laid(s, base, fields, m),
            base + f.0,
            f.1,
            base + fields(k).0,
            fields(k).1.len() as int,
        );
    }
}

/// Fields that lie side by side within a block leave what lies before the
/// block and behind it as it was.
pub proof fn lemma_laid_apart(
    s: Seq<u8>,
    base: int,
    fields: spec_fn(int) -> (int, Seq<u8>),
    n: nat,
    block: int,
    j: int,
    w: int,
)
    requires
        0 <= base,
        base + block <= s.len(),
        side_by_side(fields, n, block),
        0 <= j,
        0 <= w,
        j + w <= s.len(),
        j + w <= base || base + block <= j,
    ensures
        laid(s, base, fields, n).len() == s.len(),
        laid(s, base, fields, n).subrange(j, j + w) == s.subrange(j, j + w),
        w >= 1 ==> laid(s, base, fields, n)[j] == s[j],
    decreases n,
{
    if n > 0 {
        let m = (n - 1) as nat;
        let f = fields(n - 1);
        lemma_laid_len(s, base, fields, m, f.0);
        lemma_laid_apart(s, base, fields, m, f.0, j, w);
        lemma_patch_apart(laid(s, base, fields, m), base + f.0, f.1, j, w);
    }
}

/// Writing fields that lie within the bytes leaves the length as it was.
pub proof fn lemma_laid_len(
    s: Seq<u8>,
    base: int,
    fields: spec_fn(int) -> (int, Seq<u8>),
    n: nat,
    block: int,
)
    requires
        0 <= base,
        base + block <= s.len(),
        side_by_side(fields, n, block),
    ensures
        laid(s, base, fields, n).len() == s.len(),
    decreases n,
{
    if n > 0 {
        let f = fields(n - 1);
        lemma_laid_len(s, base, fields, (n - 1) as nat, f.0);
        lemma_patch_holds(laid(s, base, fields, (n - 1) as nat), base + f.0, f.1);
    }
}

/// A field is read as the value that its bytes spell.
pub proof fn lemma_read_spelled(t: Seq<u8>, at: int, a: i8, b: i16, c: i32, d: i64)
    ensures
        t[at] == u8_of(a) ==> read_i8(t, at) == a,
        t.subrange(at, at + 2) == u16_to_le(u16_of(b)) ==> read_i16(t, at) == b,
        t.subrange(at, at + 4) == u32_to_le(u32_of(c)) ==> read_i32(t, at) == c,
        t.subrange(at, at + 8) == u64_to_le(u64_of(d)) ==> read_i64(t, at) == d,
{
    lemma_twos_complement(0, 0, 0, 0, a, b, c, d);
    lemma_u16_value(u16_of(b));
    lemma_u32_value(u32_of(c));
    lemma_u64_value(u64_of(d));
}

/// A field is read as the number that its bytes spell.
pub proof fn lemma_read_spelled_unsigned(t: Seq<u8>, at: int, a: u8, b: u16, c: u32, d: u64)
    ensures
        t[at] == a ==> read_u8(t, at) == a,
        t.subrange(at, at + 2) == u16_to_le(b) ==> read_u16(t, at) == b,
        t.subrange(at, at + 4) == u32_to_le(c) ==> read_u32(t, at) == c,
        t.subrange(at, at + 8) == u64_to_le(d) ==> read_u64(t, at) == d,
{
    lemma_u16_value(b);
    lemma_u32_value(c);
    lemma_u64_value(d);
}

/// The number that bytes spell, digit by digit: the byte at `i` counts
/// once, the next 256 times, and so on.
pub proof fn lemma_read_digits(s: Seq<u8>, i: int)
    requires
        0 <= i,
    ensures
        i + 2 <= s.len() ==> read_u16(s, i) == s[i] + 0x100 * s[i + 1],
        i + 4 <= s.len() ==> read_u32(s, i) == s[i] + 0x100 * s[i + 1] + 0x1_0000 * s[i + 2]
            + 0x100_0000 * s[i + 3],
        i + 8 <= s.len() ==> read_u64(s, i) == s[i] + 0x100 * s[i + 1] + 0x1_0000 * s[i + 2]
            + 0x100_0000 * s[i + 3] + 0x1_0000_0000 * s[i + 4] + 0x100_0000_0000 * s[i + 5]
            + 0x1_0000_0000_0000 * s[i + 6] + 0x100_0000_0000_0000 * s[i + 7],
{
    reveal(u16_from_le);
    reveal(u32_from_le);
    reveal(u64_from_le);
    if i + 4 <= s.len() {
        let b = s.subrange(i, i + 4);
        assert(b.subrange(0, 2) =~= s.subrange(i, i + 2));
        assert(b.subrange(2, 4) =~= s.subrange(i + 2, i + 4));
    }
    if i + 8 <= s.len() {
        let b = s.subrange(i, i + 8);
        let lo = b.subrange(0, 4);
        let hi = b.subrange(4, 8);
        assert(lo.subrange(0, 2) =~= s.subrange(i, i + 2));
        assert(lo.subrange(2, 4) =~= s.subrange(i + 2, i + 4));
        assert(hi.subrange(0, 2) =~= s.subrange(i + 4, i + 6));
        assert(hi.subrange(2, 4) =~= s.subrange(i + 6, i + 8));
    }
}

/// The bytes that spell a number, digit by digit; those of a 64-bit number
/// are the bytes of its low half and behind them those of its high half.
pub proof fn lemma_spelling_digits(a: u16, b: u32, c: u64)
    ensures
        u16_to_le(a) == seq![(a % 0x100) as u8, (a / 0x100) as u8],
        u32_to_le(b) == seq![
            (b % 0x100) as u8,
            (b / 0x100 % 0x100) as u8,
            (b / 0x1_0000 % 0x100) as u8,
            (b / 0x100_0000) as u8,
        ],
        u64_to_le(c) == u32_to_le((c % 0x1_0000_0000) as u32) + u32_to_le(
            (c / 0x1_0000_0000) as u32,
        ),
{
    reveal(u16_to_le);
    reveal(u32_to_le);
    reveal(u64_to_le);
    assert(u32_to_le(b) =~= seq![
        (b % 0x100) as u8,
        (b / 0x100 % 0x100) as u8,
        (b / 0x1_0000 % 0x100) as u8,
        (b / 0x100_0000) as u8,
    ]);
}

} // verus!
