//! What every codec is able to do: reach a buffer, and move a limit cursor.
//!
//! A codec either owns its buffer and limit (a message) or reaches them
//! through the parent that it holds (a group, a composite). The spec
//! functions of the traits say what is reached, and `with_buf` / `with_limit`
//! say what a codec is after the buffer or the limit behind it was exchanged:
//! all else is kept.
use crate::buffer::{ReadBuf, WriteBuf};
use vstd::prelude::*;

verus! {

/// What a codec answers that may have lost its parent.
pub type SbeResult<T> = Result<T, SbeErr>;

/// Why a codec could not do what was asked of it.
#[derive(Clone, Copy, Debug, PartialEq, Eq, Structural, PartialOrd, Ord, Hash)]
pub enum SbeErr {
    /// The codec holds no parent: it was never placed, or the parent was
    /// handed back.
    ParentNotSet,
}

impl SbeErr {
    /// The error in words: the name of the variant.
    pub fn message(&self) -> (r: String)
        ensures
            r@ == "ParentNotSet"@,
    {
        match self {
            SbeErr::ParentNotSet => "ParentNotSet".to_owned(),
        }
    }
}

/// One of two.
#[derive(Copy, Debug, PartialEq, Eq, PartialOrd, Ord, Hash)]
pub enum Either<L, R> {
    Left(L),
    Right(R),
}

impl<L: Clone, R: Clone> Clone for Either<L, R> {
    fn clone(&self) -> (r: Self)
        ensures
            self is Left <==> r is Left,
    {
        match self {
            Either::Left(l) => Either::Left(l.clone()),
            Either::Right(r) => Either::Right(r.clone()),
        }
    }
}

/// A codec that writes: it reaches a buffer to write through.
pub trait Writer<'a>: Sized {
    /// A buffer can be reached: no parent is missing on the way to it.
    spec fn buf_ok(&self) -> bool;

    /// The buffer that is written through.
    spec fn buf(self) -> WriteBuf<'a>;

    /// This codec over another buffer, all else kept.
    spec fn with_buf(self, buf: WriteBuf<'a>) -> Self;

    /// An exchanged buffer is the buffer that is reached; of two exchanges
    /// the second counts; and the own buffer exchanged for itself changes
    /// nothing.
    proof fn lemma_with_buf(self)
        requires
            self.buf_ok(),
        ensures
            forall|buf: WriteBuf<'a>|
                #![trigger self.with_buf(buf)]
                self.with_buf(buf).buf() == buf && self.with_buf(buf).buf_ok(),
            forall|b1: WriteBuf<'a>, b2: WriteBuf<'a>|
                #![trigger self.with_buf(b1).with_buf(b2)]
                self.with_buf(b1).with_buf(b2) == self.with_buf(b2),
            self.with_buf(self.buf()) == self,
    ;

    /// Once nothing writes through this codec any more, the lender's bytes
    /// are what its buffer holds.
    proof fn lemma_resolved(self)
        requires
            self.buf_ok(),
            has_resolved(self),
        ensures
            final(self.buf().target())@ == self.buf()@,
    ;

    /// The buffer, to write through. What is written there is written in
    /// this codec's buffer, and nothing else of the codec changes.
    fn get_buf_mut(&mut self) -> (r: &mut WriteBuf<'a>)
        requires
            old(self).buf_ok(),
        ensures
            *r == old(self).buf(),
            *final(self) == old(self).with_buf(*final(r)),
    ;
}

/// A writing codec with a limit: the position behind all that was written,
/// where groups and variable-length data are appended.
pub trait Encoder<'a>: Writer<'a> {
    /// The position behind all that was written so far.
    spec fn limit_view(self) -> usize;

    /// This codec with the limit moved, all else kept.
    spec fn with_limit(self, limit: usize) -> Self;

    /// A moved limit is the limit, and the buffer stays; an exchanged buffer
    /// leaves the limit; it is the same to exchange the buffer and then move
    /// the limit, or to move the limit first; of two moves the second counts;
    /// and the limit moved to where it is changes nothing.
    proof fn lemma_with_limit(self)
        requires
            self.buf_ok(),
        ensures
            forall|limit: usize|
                #![trigger self.with_limit(limit)]
                self.with_limit(limit).limit_view() == limit && self.with_limit(limit).buf()
                    == self.buf() && self.with_limit(limit).buf_ok(),
            forall|buf: WriteBuf<'a>|
                #![trigger self.with_buf(buf)]
                self.with_buf(buf).limit_view() == self.limit_view(),
            forall|buf: WriteBuf<'a>, limit: usize|
                #![trigger self.with_buf(buf).with_limit(limit)]
                self.with_buf(buf).with_limit(limit) == self.with_limit(limit).with_buf(buf),
            forall|l1: usize, l2: usize|
                #![trigger self.with_limit(l1).with_limit(l2)]
                self.with_limit(l1).with_limit(l2) == self.with_limit(l2),
            self.with_limit(self.limit_view()) == self,
    ;

    fn get_limit(&self) -> (r: usize)
        requires
            self.buf_ok(),
        ensures
            r == self.limit_view(),
    ;

    fn set_limit(&mut self, limit: usize)
        requires
            old(self).buf_ok(),
        ensures
            *final(self) == old(self).with_limit(limit),
    ;
}

/// A codec that reads: it reaches a buffer to read from.
pub trait Reader<'a>: Sized {
    /// A buffer can be reached: no parent is missing on the way to it.
    spec fn buf_ok(&self) -> bool;

    /// The buffer that is read.
    spec fn buf(self) -> ReadBuf<'a>;

    fn get_buf(&self) -> (r: &ReadBuf<'a>)
        requires
            self.buf_ok(),
        ensures
            *r == self.buf(),
    ;
}

/// A reading codec with a limit: the position behind all that was read,
/// where the next group or variable-length data begins.
pub trait Decoder<'a>: Reader<'a> {
    /// The position behind all that was read so far.
    spec fn limit_view(self) -> usize;

    /// This codec with the limit moved, all else kept.
    spec fn with_limit(self, limit: usize) -> Self;

    /// A moved limit is the limit, and the buffer stays; of two moves the
    /// second counts; and the limit moved to where it is changes nothing.
    proof fn lemma_with_limit(self)
        requires
            self.buf_ok(),
        ensures
            forall|limit: usize|
                #![trigger self.with_limit(limit)]
                self.with_limit(limit).limit_view() == limit && self.with_limit(limit).buf()
                    == self.buf() && self.with_limit(limit).buf_ok(),
            forall|l1: usize, l2: usize|
                #![trigger self.with_limit(l1).with_limit(l2)]
                self.with_limit(l1).with_limit(l2) == self.with_limit(l2),
            self.with_limit(self.limit_view()) == self,
    ;

    fn get_limit(&self) -> (r: usize)
        requires
            self.buf_ok(),
        ensures
            r == self.limit_view(),
    ;

    fn set_limit(&mut self, limit: usize)
        requires
            old(self).buf_ok(),
        ensures
            *final(self) == old(self).with_limit(limit),
    ;
}

impl<'a> Reader<'a> for ReadBuf<'a> {
    open spec fn buf_ok(&self) -> bool {
        true
    }

    open spec fn buf(self) -> ReadBuf<'a> {
        self
    }

    fn get_buf(&self) -> (r: &ReadBuf<'a>) {
        self
    }
}

} // verus!
