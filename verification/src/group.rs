//! The cursor of a repeating group, as plain numbers.
//!
//! A group codec is positioned before its first element when it is made, and
//! `advance` moves it one element on until `count` of them were visited. The
//! functions here state that walk without a buffer, and the laws below say
//! where it leads.
use crate::codec::{SbeErr, SbeResult};
use vstd::prelude::*;

verus! {

/// Where a group codec stands: the element it is at, where that element
/// begins, and the limit behind all that the walk has passed.
pub struct Cursor {
    /// The number of elements that the group declares.
    pub count: u32,
    /// The element the codec is at; `usize::MAX` before the first.
    pub index: usize,
    /// Where the current element begins.
    pub offset: usize,
    /// The bytes that one element's fixed fields take.
    pub block_length: usize,
    /// The limit of the enclosing message.
    pub limit: usize,
}

/// The index that follows `index`; the one before the first is `usize::MAX`.
pub open spec fn next_index(index: usize) -> usize {
    if index == usize::MAX {
        0
    } else {
        (index + 1) as usize
    }
}

/// There is an element left to move to.
pub open spec fn has_next(c: Cursor) -> bool {
    next_index(c.index) < c.count
}

/// One `advance`: to the next element, which begins at the limit, and the
/// limit moves behind its fixed fields. At the end nothing moves.
pub open spec fn step(c: Cursor) -> Cursor {
    if has_next(c) {
        Cursor {
            index: next_index(c.index),
            offset: c.limit,
            limit: (c.limit + c.block_length) as usize,
            ..c
        }
    } else {
        c
    }
}

/// What `advance` answers: nothing where no element is left, else the new
/// index, or the error of a codec whose parent was taken away.
pub open spec fn advance_result(c: Cursor, parent_set: bool) -> SbeResult<Option<usize>> {
    if !has_next(c) {
        Ok(None)
    } else if parent_set {
        Ok(Some(next_index(c.index)))
    } else {
        Err(SbeErr::ParentNotSet)
    }
}

/// `n` times `advance`, with nothing read in between.
pub open spec fn steps(c: Cursor, n: nat) -> Cursor
    decreases n,
{
    if n == 0 {
        c
    } else {
        step(steps(c, (n - 1) as nat))
    }
}

/// A fresh cursor over `count` elements that begins its walk at `limit`.
pub open spec fn fresh(count: u32, block_length: usize, limit: usize, offset: usize) -> Cursor {
    Cursor { count, index: usize::MAX, offset, block_length, limit }
}

/// After `n` advances of a fresh cursor, `n` no more than the count, the
/// codec is at element `n - 1`, which begins `n - 1` blocks behind the start,
/// and the limit is `n` blocks behind the start.
pub proof fn lemma_steps(c: Cursor, n: nat)
    requires
        c.index == usize::MAX,
        n <= c.count,
        c.limit + n * c.block_length <= usize::MAX,
    ensures
        steps(c, n).count == c.count,
        steps(c, n).block_length == c.block_length,
        steps(c, n).limit == c.limit + n * c.block_length,
        n > 0 ==> steps(c, n).index == n - 1,
        n > 0 ==> steps(c, n).offset == c.limit + (n - 1) * c.block_length,
        n == 0 ==> steps(c, n) == c,
    decreases n,
{
    if n > 0 {
        let m = (n - 1) as nat;
        assert(c.limit + m * c.block_length <= c.limit + n * c.block_length) by (nonlinear_arith)
            requires
                m <= n,
        ;
        assert(n * c.block_length == m * c.block_length + c.block_length) by (nonlinear_arith)
            requires
                n == m + 1,
        ;
        lemma_steps(c, m);
    } else {
        assert(n * c.block_length == 0) by (nonlinear_arith)
            requires
                n == 0,
        ;
    }
}

/// Where a walk ends: once a fresh cursor has advanced as often as the group
/// has elements, no element is left and a further `advance` moves nothing.
pub proof fn lemma_walk_ends(c: Cursor)
    requires
        c.index == usize::MAX,
        c.count <= usize::MAX,
        c.limit + c.count * c.block_length <= usize::MAX,
    ensures
        !has_next(steps(c, c.count as nat)),
        step(steps(c, c.count as nat)) == steps(c, c.count as nat),
        forall|n: nat| n < c.count ==> has_next(#[trigger] steps(c, n)),
{
    lemma_steps(c, c.count as nat);
    assert forall|n: nat| n < c.count implies has_next(#[trigger] steps(c, n)) by {
        assert(c.limit + n * c.block_length <= c.limit + c.count * c.block_length)
            by (nonlinear_arith)
            requires
                n <= c.count,
        ;
        lemma_steps(c, n);
    }
}

/// From one element to the next the offset grows by the block length, and
/// so strictly where an element takes any bytes at all.
pub proof fn lemma_offsets_grow(c: Cursor, n: nat)
    requires
        c.index == usize::MAX,
        0 < n < c.count,
        c.limit + (n + 1) * c.block_length <= usize::MAX,
    ensures
        steps(c, n + 1).offset == steps(c, n).offset + c.block_length,
        c.block_length > 0 ==> steps(c, n + 1).offset > steps(c, n).offset,
{
    assert(c.limit + n * c.block_length <= c.limit + (n + 1) * c.block_length)
        by (nonlinear_arith);
    assert((n + 1 - 1) * c.block_length == (n - 1) * c.block_length + c.block_length)
        by (nonlinear_arith);
    lemma_steps(c, n);
    lemma_steps(c, n + 1);
}

} // verus!
