//! Borrowed byte spans with little-endian accessors at absolute positions.
use crate::wire::{
    i16_of, i32_of, i64_of, i8_of, lemma_u16_value, lemma_u32_value, patch, read_i16, read_i32,
    read_i64, read_i8, read_u16, read_u32, read_u64, read_u8, u16_from_le, u16_of, u16_to_le,
    u32_from_le, u32_of, u32_to_le, u64_from_le, u64_of, u64_to_le, u8_of, write_i16, write_i32,
    write_i64, write_i8, write_u16, write_u32, write_u64, write_u8,
};
use vstd::prelude::*;

verus! {

/// A read-only window over a byte buffer.
#[derive(Clone, Copy, Debug)]
pub struct ReadBuf<'a> {
    data: &'a [u8],
}

impl<'a> View for ReadBuf<'a> {
    type V = Seq<u8>;

    closed spec fn view(&self) -> Seq<u8> {
        self.data@
    }
}

impl<'a> Default for ReadBuf<'a> {
    fn default() -> (r: Self)
        ensures
            r@.len() == 0,
    {
        Self { data: &[] }
    }
}

/// The number that the two bytes from `index` on spell.
fn u16_at(data: &[u8], index: usize) -> (r: u16)
    requires
        index + 2 <= data@.len(),
    ensures
        r == read_u16(data@, index as int),
{
    proof {
        reveal(u16_from_le);
    }
    let lo: u16 = data[index] as u16;
    let hi: u16 = data[index + 1] as u16;
    lo + 0x100 * hi
}

/// The number that the four bytes from `index` on spell.
fn u32_at(data: &[u8], index: usize) -> (r: u32)
    requires
        index + 4 <= data@.len(),
    ensures
        r == read_u32(data@, index as int),
{
    proof {
        vstd::slice::axiom_spec_len(data);
        reveal(u32_from_le);
    }
    let lo: u32 = u16_at(data, index) as u32;
    let hi: u32 = u16_at(data, index + 2) as u32;
    proof {
        let b = data@.subrange(index as int, index + 4);
        assert(b.subrange(0, 2) =~= data@.subrange(index as int, index + 2));
        assert(b.subrange(2, 4) =~= data@.subrange(index + 2, index + 4));
    }
    lo + 0x1_0000 * hi
}

/// The number that the eight bytes from `index` on spell.
fn u64_at(data: &[u8], index: usize) -> (r: u64)
    requires
        index + 8 <= data@.len(),
    ensures
        r == read_u64(data@, index as int),
{
    proof {
        vstd::slice::axiom_spec_len(data);
        reveal(u64_from_le);
    }
    let lo: u64 = u32_at(data, index) as u64;
    let hi: u64 = u32_at(data, index + 4) as u64;
    proof {
        let b = data@.subrange(index as int, index + 8);
        assert(b.subrange(0, 4) =~= data@.subrange(index as int, index + 4));
        assert(b.subrange(4, 8) =~= data@.subrange(index + 4, index + 8));
    }
    lo + 0x1_0000_0000 * hi
}

/// The 8-bit pattern `u`, read in two's complement.
fn signed8(u: u8) -> (r: i8)
    ensures
        r == i8_of(u),
{
    if u < 0x80 {
        u as i8
    } else {
        ((u - 0x80) as i8) + i8::MIN
    }
}

/// The 16-bit pattern `u`, read in two's complement.
fn signed16(u: u16) -> (r: i16)
    ensures
        r == i16_of(u),
{
    if u < 0x8000 {
        u as i16
    } else {
        ((u - 0x8000) as i16) + i16::MIN
    }
}

/// The 32-bit pattern `u`, read in two's complement.
fn signed32(u: u32) -> (r: i32)
    ensures
        r == i32_of(u),
{
    if u < 0x8000_0000 {
        u as i32
    } else {
        ((u - 0x8000_0000) as i32) + i32::MIN
    }
}

/// The 64-bit pattern `u`, read in two's complement.
fn signed64(u: u64) -> (r: i64)
    ensures
        r == i64_of(u),
{
    if u < 0x8000_0000_0000_0000 {
        u as i64
    } else {
        ((u - 0x8000_0000_0000_0000) as i64) + i64::MIN
    }
}

/// The 8-bit pattern of `v` in two's complement.
fn unsigned8(v: i8) -> (r: u8)
    ensures
        r == u8_of(v),
{
    if v >= 0 {
        v as u8
    } else {
        ((v - i8::MIN) as u8) + 0x80
    }
}

/// The 16-bit pattern of `v` in two's complement.
fn unsigned16(v: i16) -> (r: u16)
    ensures
        r == u16_of(v),
{
    if v >= 0 {
        v as u16
    } else {
        ((v - i16::MIN) as u16) + 0x8000
    }
}

/// The 32-bit pattern of `v` in two's complement.
fn unsigned32(v: i32) -> (r: u32)
    ensures
        r == u32_of(v),
{
    if v >= 0 {
        v as u32
    } else {
        ((v - i32::MIN) as u32) + 0x8000_0000
    }
}

/// The 64-bit pattern of `v` in two's complement.
fn unsigned64(v: i64) -> (r: u64)
    ensures
        r == u64_of(v),
{
    if v >= 0 {
        v as u64
    } else {
        ((v - i64::MIN) as u64) + 0x8000_0000_0000_0000
    }
}

/// The two bytes that spell `v`.
fn le_bytes_u16(v: u16) -> (r: [u8; 2])
    ensures
        r@ == u16_to_le(v),
{
    proof {
        reveal(u16_to_le);
    }
    let r: [u8; 2] = [(v % 0x100) as u8, (v / 0x100) as u8];
    assert(r@ =~= u16_to_le(v));
    r
}

/// The four bytes that spell `v`.
fn le_bytes_u32(v: u32) -> (r: [u8; 4])
    ensures
        r@ == u32_to_le(v),
{
    let lo = le_bytes_u16((v % 0x1_0000) as u16);
    let hi = le_bytes_u16((v / 0x1_0000) as u16);
    proof {
        reveal(u32_to_le);
        lemma_u16_value((v % 0x1_0000) as u16);
        lemma_u16_value((v / 0x1_0000) as u16);
    }
    let r: [u8; 4] = [lo[0], lo[1], hi[0], hi[1]];
    assert(r@ =~= u32_to_le(v));
    r
}

/// The eight bytes that spell `v`.
fn le_bytes_u64(v: u64) -> (r: [u8; 8])
    ensures
        r@ == u64_to_le(v),
{
    let lo = le_bytes_u32((v % 0x1_0000_0000) as u32);
    let hi = le_bytes_u32((v / 0x1_0000_0000) as u32);
    proof {
        reveal(u64_to_le);
        lemma_u32_value((v % 0x1_0000_0000) as u32);
        lemma_u32_value((v / 0x1_0000_0000) as u32);
    }
    let r: [u8; 8] = [lo[0], lo[1], lo[2], lo[3], hi[0], hi[1], hi[2], hi[3]];
    assert(r@ =~= u64_to_le(v));
    r
}

impl<'a> ReadBuf<'a> {
    /// The span has a length that a `usize` holds.
    pub proof fn lemma_len(self)
        ensures
            self@.len() <= usize::MAX,
    {
        vstd::slice::axiom_spec_len(self.data);
    }

    /// A window over `data`.
    pub fn new(data: &'a [u8]) -> (r: Self)
        ensures
            r@ == data@,
            r@.len() <= usize::MAX,
    {
        proof {
            vstd::slice::axiom_spec_len(data);
        }
        Self { data }
    }

    /// The number of bytes in the window.
    pub fn len(&self) -> (r: usize)
        ensures
            r == self@.len(),
    {
        self.data.len()
    }

    /// The `u8` at `index`.
    pub fn get_u8_at(&self, index: usize) -> (r: u8)
        requires
            index < self@.len(),
        ensures
            r == read_u8(self@, index as int),
    {
        self.data[index]
    }

    /// The `i8` at `index`.
    pub fn get_i8_at(&self, index: usize) -> (r: i8)
        requires
            index < self@.len(),
        ensures
            r == read_i8(self@, index as int),
    {
        signed8(self.data[index])
    }

    /// The `i16` at `index`.
    pub fn get_i16_at(&self, index: usize) -> (r: i16)
        requires
            index + 2 <= self@.len(),
        ensures
            r == read_i16(self@, index as int),
    {
        signed16(u16_at(self.data, index))
    }

    /// The `i32` at `index`.
    pub fn get_i32_at(&self, index: usize) -> (r: i32)
        requires
            index + 4 <= self@.len(),
        ensures
            r == read_i32(self@, index as int),
    {
        signed32(u32_at(self.data, index))
    }

    /// The `i64` at `index`.
    pub fn get_i64_at(&self, index: usize) -> (r: i64)
        requires
            index + 8 <= self@.len(),
        ensures
            r == read_i64(self@, index as int),
    {
        signed64(u64_at(self.data, index))
    }

    /// The `u16` at `index`.
    pub fn get_u16_at(&self, index: usize) -> (r: u16)
        requires
            index + 2 <= self@.len(),
        ensures
            r == read_u16(self@, index as int),
    {
        u16_at(self.data, index)
    }

    /// The `u32` at `index`.
    pub fn get_u32_at(&self, index: usize) -> (r: u32)
        requires
            index + 4 <= self@.len(),
        ensures
            r == read_u32(self@, index as int),
    {
        u32_at(self.data, index)
    }

    /// The `u64` at `index`.
    pub fn get_u64_at(&self, index: usize) -> (r: u64)
        requires
            index + 8 <= self@.len(),
        ensures
            r == read_u64(self@, index as int),
    {
        u64_at(self.data, index)
    }

    /// The `len` bytes from `index` on.
    pub fn get_slice_at(&self, index: usize, len: usize) -> (r: &[u8])
        requires
            index + len <= self@.len(),
        ensures
            r@ == self@.subrange(index as int, index + len),
    {
        proof {
            self.lemma_len();
        }
        &self.data[index..index + len]
    }
}

/// A writable window over a byte buffer.
#[derive(Debug)]
pub struct WriteBuf<'a> {
    data: &'a mut [u8],
}

impl<'a> View for WriteBuf<'a> {
    type V = Seq<u8>;

    closed spec fn view(&self) -> Seq<u8> {
        self.data@
    }
}

impl<'a> Default for WriteBuf<'a> {
    fn default() -> (r: Self)
        ensures
            r@.len() == 0,
    {
        Self { data: &mut [] }
    }
}

impl<'a> WriteBuf<'a> {
    /// The borrow that this window writes through. What the lender sees once
    /// the window is gone is `final(w.target())@`.
    pub closed spec fn target(self) -> &'a mut [u8] {
        self.data
    }

    /// The span has a length that a `usize` holds.
    pub proof fn lemma_len(self)
        ensures
            self@.len() <= usize::MAX,
    {
        vstd::slice::axiom_spec_len(&*self.data);
    }

    /// Once nothing writes through this window any more, the lender's bytes
    /// are what the window holds.
    pub proof fn lemma_resolved(self)
        requires
            has_resolved(self),
        ensures
            final(self.target())@ == self@,
    {
    }

    /// The number of bytes in the window.
    pub fn len(&self) -> (r: usize)
        ensures
            r == self@.len(),
    {
        self.data.len()
    }

    /// A window over `data`, which is written through it.
    pub fn new(data: &'a mut [u8]) -> (r: Self)
        ensures
            r@ == old(data)@,
            r@.len() <= usize::MAX,
            final(r.target())@ == final(data)@,
    {
        proof {
            vstd::slice::axiom_spec_len(&*data);
        }
        Self { data }
    }

    /// Copies `bytes` to `index` and says how many they were.
    pub fn put_bytes_at<const COUNT: usize>(&mut self, index: usize, bytes: [u8; COUNT]) -> (r:
        usize)
        requires
            index + COUNT <= old(self)@.len(),
        ensures
            r == COUNT,
            final(self)@ == patch(old(self)@, index as int, bytes@),
            final(self)@.len() == old(self)@.len(),
            final(final(self).target())@ == final(old(self).target())@,
    {
        proof {
            self.lemma_len();
            reveal(patch);
        }
        let mut k: usize = 0;
        assert(self.data@ =~= patch(old(self)@, index as int, bytes@.subrange(0, 0)));
        while k < COUNT
            invariant
                k <= COUNT,
                index + COUNT <= self.data@.len(),
                self.data@.len() == old(self)@.len(),
                old(self)@.len() <= usize::MAX,
                self.data@ == patch(old(self)@, index as int, bytes@.subrange(0, k as int)),
                final(self.data)@ == final(old(self).target())@,
            decreases COUNT - k,
        {
            self.data[index + k] = bytes[k];
            k += 1;
            proof {
                reveal(patch);
            }
            assert(self.data@ =~= patch(old(self)@, index as int, bytes@.subrange(0, k as int)));
        }
        assert(bytes@.subrange(0, COUNT as int) =~= bytes@);
        COUNT
    }

    /// Writes `value` at `index`; every other byte stays.
    pub fn put_u8_at(&mut self, index: usize, value: u8)
        requires
            index < old(self)@.len(),
        ensures
            final(self)@ == write_u8(old(self)@, index as int, value),
            final(self)@.len() == old(self)@.len(),
            final(final(self).target())@ == final(old(self).target())@,
    {
        self.data[index] = value;
        proof {
            reveal(patch);
        }
        assert(self.data@ =~= write_u8(old(self)@, index as int, value));
    }

    /// Writes `value` at `index`; every other byte stays.
    pub fn put_i8_at(&mut self, index: usize, value: i8)
        requires
            index < old(self)@.len(),
        ensures
            final(self)@ == write_i8(old(self)@, index as int, value),
            final(self)@.len() == old(self)@.len(),
            final(final(self).target())@ == final(old(self).target())@,
    {
        self.put_u8_at(index, unsigned8(value));
    }

    /// Writes `value` at `index`; every other byte stays.
    pub fn put_i16_at(&mut self, index: usize, value: i16)
        requires
            index + 2 <= old(self)@.len(),
        ensures
            final(self)@ == write_i16(old(self)@, index as int, value),
            final(self)@.len() == old(self)@.len(),
            final(final(self).target())@ == final(old(self).target())@,
    {
        self.put_bytes_at(index, le_bytes_u16(unsigned16(value)));
    }

    /// Writes `value` at `index`; every other byte stays.
    pub fn put_i32_at(&mut self, index: usize, value: i32)
        requires
            index + 4 <= old(self)@.len(),
        ensures
            final(self)@ == write_i32(old(self)@, index as int, value),
            final(self)@.len() == old(self)@.len(),
            final(final(self).target())@ == final(old(self).target())@,
    {
        self.put_bytes_at(index, le_bytes_u32(unsigned32(value)));
    }

    /// Writes `value` at `index`; every other byte stays.
    pub fn put_i64_at(&mut self, index: usize, value: i64)
        requires
            index + 8 <= old(self)@.len(),
        ensures
            final(self)@ == write_i64(old(self)@, index as int, value),
            final(self)@.len() == old(self)@.len(),
            final(final(self).target())@ == final(old(self).target())@,
    {
        self.put_bytes_at(index, le_bytes_u64(unsigned64(value)));
    }

    /// Writes `value` at `index`; every other byte stays.
    pub fn put_u16_at(&mut self, index: usize, value: u16)
        requires
            index + 2 <= old(self)@.len(),
        ensures
            final(self)@ == write_u16(old(self)@, index as int, value),
            final(self)@.len() == old(self)@.len(),
            final(final(self).target())@ == final(old(self).target())@,
    {
        self.put_bytes_at(index, le_bytes_u16(value));
    }

    /// Writes `value` at `index`; every other byte stays.
    pub fn put_u32_at(&mut self, index: usize, value: u32)
        requires
            index + 4 <= old(self)@.len(),
        ensures
            final(self)@ == write_u32(old(self)@, index as int, value),
            final(self)@.len() == old(self)@.len(),
            final(final(self).target())@ == final(old(self).target())@,
    {
        self.put_bytes_at(index, le_bytes_u32(value));
    }

    /// Writes `value` at `index`; every other byte stays.
    pub fn put_u64_at(&mut self, index: usize, value: u64)
        requires
            index + 8 <= old(self)@.len(),
        ensures
            final(self)@ == write_u64(old(self)@, index as int, value),
            final(self)@.len() == old(self)@.len(),
            final(final(self).target())@ == final(old(self).target())@,
    {
        self.put_bytes_at(index, le_bytes_u64(value));
    }

    /// Copies `src` to `index` and says how many bytes it was.
    pub fn put_slice_at(&mut self, index: usize, src: &[u8]) -> (r: usize)
        requires
            index + src@.len() <= old(self)@.len(),
        ensures
            r == src@.len(),
            final(self)@ == patch(old(self)@, index as int, src@),
            final(self)@.len() == old(self)@.len(),
            final(final(self).target())@ == final(old(self).target())@,
    {
        proof {
            self.lemma_len();
            reveal(patch);
        }
        let len = src.len();
        let mut k: usize = 0;
        assert(self.data@ =~= patch(old(self)@, index as int, src@.subrange(0, 0)));
        while k < len
            invariant
                k <= len,
                len == src@.len(),
                index + len <= self.data@.len(),
                self.data@.len() == old(self)@.len(),
                old(self)@.len() <= usize::MAX,
                self.data@ == patch(old(self)@, index as int, src@.subrange(0, k as int)),
                final(self.data)@ == final(old(self).target())@,
            decreases len - k,
        {
            self.data[index + k] = src[k];
            k += 1;
            proof {
                reveal(patch);
            }
            assert(self.data@ =~= patch(old(self)@, index as int, src@.subrange(0, k as int)));
        }
        assert(src@.subrange(0, len as int) =~= src@);
        len
    }
}

} // verus!
