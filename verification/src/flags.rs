//! Single flags in a fixed-width integer.
use vstd::prelude::*;

verus! {

/// Bit `k` of `v` is set.
pub open spec fn flag_u8(v: u8, k: u8) -> bool {
    0 != v & (1u8 << k)
}

/// `v` with bit `k` set or taken away; the other bits stay.
pub open spec fn with_flag_u8(v: u8, k: u8, on: bool) -> u8 {
    if on {
        v | (1u8 << k)
    } else {
        v & !(1u8 << k)
    }
}

/// Bit `k` of `v` is set.
pub open spec fn flag_u16(v: u16, k: u16) -> bool {
    0 != v & (1u16 << k)
}

/// `v` with bit `k` set or taken away; the other bits stay.
pub open spec fn with_flag_u16(v: u16, k: u16, on: bool) -> u16 {
    if on {
        v | (1u16 << k)
    } else {
        v & !(1u16 << k)
    }
}

/// A flag reads as it was last set, and setting it leaves every other flag
/// as it was, those without a name included.
pub proof fn lemma_flags_u8(v: u8, k: u8, j: u8, on: bool)
    requires
        k < 8,
        j < 8,
    ensures
        flag_u8(with_flag_u8(v, k, on), k) == on,
        j != k ==> flag_u8(with_flag_u8(v, k, on), j) == flag_u8(v, j),
        flag_u8(v, k) == on ==> with_flag_u8(v, k, on) == v,
        !flag_u8(0, k),
{
    assert(0 != (v | (1u8 << k)) & (1u8 << k)) by (bit_vector)
        requires
            k < 8,
    ;
    assert(0 == (v & !(1u8 << k)) & (1u8 << k)) by (bit_vector)
        requires
            k < 8,
    ;
    assert(j != k ==> (v | (1u8 << k)) & (1u8 << j) == v & (1u8 << j)) by (bit_vector)
        requires
            k < 8,
            j < 8,
    ;
    assert(j != k ==> (v & !(1u8 << k)) & (1u8 << j) == v & (1u8 << j)) by (bit_vector)
        requires
            k < 8,
            j < 8,
    ;
    assert(0 != v & (1u8 << k) ==> v | (1u8 << k) == v) by (bit_vector)
        requires
            k < 8,
    ;
    assert(0 == v & (1u8 << k) ==> v & !(1u8 << k) == v) by (bit_vector)
        requires
            k < 8,
    ;
    assert(0 == 0u8 & (1u8 << k)) by (bit_vector);
}

/// A flag reads as it was last set, and setting it leaves every other flag
/// as it was, those without a name included.
pub proof fn lemma_flags_u16(v: u16, k: u16, j: u16, on: bool)
    requires
        k < 16,
        j < 16,
    ensures
        flag_u16(with_flag_u16(v, k, on), k) == on,
        j != k ==> flag_u16(with_flag_u16(v, k, on), j) == flag_u16(v, j),
        flag_u16(v, k) == on ==> with_flag_u16(v, k, on) == v,
        !flag_u16(0, k),
{
    assert(0 != (v | (1u16 << k)) & (1u16 << k)) by (bit_vector)
        requires
            k < 16,
    ;
    assert(0 == (v & !(1u16 << k)) & (1u16 << k)) by (bit_vector)
        requires
            k < 16,
    ;
    assert(j != k ==> (v | (1u16 << k)) & (1u16 << j) == v & (1u16 << j)) by (bit_vector)
        requires
            k < 16,
            j < 16,
    ;
    assert(j != k ==> (v & !(1u16 << k)) & (1u16 << j) == v & (1u16 << j)) by (bit_vector)
        requires
            k < 16,
            j < 16,
    ;
    assert(0 != v & (1u16 << k) ==> v | (1u16 << k) == v) by (bit_vector)
        requires
            k < 16,
    ;
    assert(0 == v & (1u16 << k) ==> v & !(1u16 << k) == v) by (bit_vector)
        requires
            k < 16,
    ;
    assert(0 == 0u16 & (1u16 << k)) by (bit_vector);
}

} // verus!
