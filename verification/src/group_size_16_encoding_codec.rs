//! The four bytes before the elements of a repeating group whose count is a
//! `u16`.
use crate::buffer::{ReadBuf, WriteBuf};
use crate::codec::{Reader, SbeErr, SbeResult, Writer};
use crate::wire::{read_u16, write_u16};
use vstd::prelude::*;

verus! {

/// The bytes that this composite takes on the wire.
pub const ENCODED_LENGTH: usize = 4;

#[derive(Debug)]
pub struct GroupSize16EncodingEncoder<P> {
    parent: Option<P>,
    offset: usize,
}

impl<P> Default for GroupSize16EncodingEncoder<P> {
    fn default() -> (r: Self)
        ensures
            r.parent_view() is None,
            r.offset_view() == 0,
    {
        Self { parent: None, offset: 0 }
    }
}

impl<P> GroupSize16EncodingEncoder<P> {
    /// Where nothing writes through this codec any more, nothing writes
    /// through its parent.
    proof fn lemma_parent_resolved(self)
        requires
            has_resolved(self),
            self.parent is Some,
        ensures
            has_resolved(self.parent->0),
    {
    }

    pub closed spec fn parent_view(self) -> Option<P> {
        self.parent
    }

    pub closed spec fn offset_view(self) -> usize {
        self.offset
    }

    /// This codec over another parent, all else kept.
    pub closed spec fn with_parent(self, parent: Option<P>) -> Self {
        Self { parent, ..self }
    }

    /// What the exchanges above keep and what they put.
    pub proof fn lemma_frame(self)
        ensures
            forall|parent: Option<P>|
                #![trigger self.with_parent(parent)]
                {
                    let w = self.with_parent(parent);
                    &&& w.parent_view() == parent
                    &&& w.offset_view() == self.offset_view()
                },
            forall|first: Option<P>, second: Option<P>|
                #![trigger self.with_parent(first).with_parent(second)]
                self.with_parent(first).with_parent(second) == self.with_parent(second),
            self.with_parent(self.parent_view()) == self,
    {
    }
}

impl<'a, P> Writer<'a> for GroupSize16EncodingEncoder<P> where P: Writer<'a> + Default {
    open spec fn buf_ok(&self) -> bool {
        self.parent_view() is Some && self.parent_view().unwrap().buf_ok()
    }

    open spec fn buf(self) -> WriteBuf<'a> {
        self.parent_view().unwrap().buf()
    }

    open spec fn with_buf(self, buf: WriteBuf<'a>) -> Self {
        self.with_parent(Some(self.parent_view().unwrap().with_buf(buf)))
    }

    proof fn lemma_with_buf(self) {
        self.parent_view().unwrap().lemma_with_buf();
        self.lemma_frame();
    }

    proof fn lemma_resolved(self) {
        self.lemma_parent_resolved();
        self.parent_view().unwrap().lemma_resolved();
    }

    fn get_buf_mut(&mut self) -> (r: &mut WriteBuf<'a>) {
        if let Some(parent) = self.parent.as_mut() {
            parent.get_buf_mut()
        } else {
            vstd::pervasive::unreached()
        }
    }
}

impl<'a, P> GroupSize16EncodingEncoder<P> where P: Writer<'a> + Default {
    /// This codec stands where `pre` stood (what the buffer holds may differ).
    pub open spec fn placed_as(self, pre: Self) -> bool {
        &&& self.buf_ok()
        &&& self.offset_view() == pre.offset_view()
    }

    /// Places the encoder at `offset` of the parent's buffer.
    pub fn wrap(self, parent: P, offset: usize) -> (r: Self)
        ensures
            r.parent_view() == Some(parent),
            r.offset_view() == offset,
    {
        let mut this = self;
        this.parent = Some(parent);
        this.offset = offset;
        this
    }

    /// Hands the parent back; after that this codec reaches no buffer.
    pub fn parent(&mut self) -> (r: SbeResult<P>)
        ensures
            r == match old(self).parent_view() {
                Some(p) => Ok::<P, SbeErr>(p),
                None => Err::<P, SbeErr>(SbeErr::ParentNotSet),
            },
            *final(self) == old(self).with_parent(None),
    {
        self.parent.take().ok_or(SbeErr::ParentNotSet)
    }

    /// `blockLength`: a `u16` at byte 0 of the block.
    pub fn block_length(&mut self, value: u16)
        requires
            old(self).buf_ok(),
            old(self).offset_view() + 2 <= old(self).buf()@.len(),
        ensures
            final(self).buf()@ == write_u16(
                old(self).buf()@,
                old(self).offset_view() as int,
                value,
            ),
            final(self).buf()@.len() == old(self).buf()@.len(),
            final(final(self).buf().target())@ == final(old(self).buf().target())@,
            final(self).placed_as(*old(self)),
            *final(self) == old(self).with_buf(final(self).buf()),
    {
        proof {
            self.buf().lemma_len();
            self.lemma_with_buf();
            self.lemma_frame();
        }
        let offset = self.offset;
        self.get_buf_mut().put_u16_at(offset, value);
    }

    /// `numInGroup`: a `u16` at byte 2 of the block.
    pub fn num_in_group(&mut self, value: u16)
        requires
            old(self).buf_ok(),
            old(self).offset_view() + 4 <= old(self).buf()@.len(),
        ensures
            final(self).buf()@ == write_u16(old(self).buf()@, old(self).offset_view() + 2, value),
            final(self).buf()@.len() == old(self).buf()@.len(),
            final(final(self).buf().target())@ == final(old(self).buf().target())@,
            final(self).placed_as(*old(self)),
            *final(self) == old(self).with_buf(final(self).buf()),
    {
        proof {
            self.buf().lemma_len();
            self.lemma_with_buf();
            self.lemma_frame();
        }
        let offset = self.offset + 2;
        self.get_buf_mut().put_u16_at(offset, value);
    }
}

#[derive(Debug)]
pub struct GroupSize16EncodingDecoder<P> {
    parent: Option<P>,
    offset: usize,
}

impl<P> Default for GroupSize16EncodingDecoder<P> {
    fn default() -> (r: Self)
        ensures
            r.parent_view() is None,
            r.offset_view() == 0,
    {
        Self { parent: None, offset: 0 }
    }
}

impl<P> GroupSize16EncodingDecoder<P> {
    pub closed spec fn parent_view(self) -> Option<P> {
        self.parent
    }

    pub closed spec fn offset_view(self) -> usize {
        self.offset
    }

    /// This codec over another parent, all else kept.
    pub closed spec fn with_parent(self, parent: Option<P>) -> Self {
        Self { parent, ..self }
    }

    /// What the exchanges above keep and what they put.
    pub proof fn lemma_frame(self)
        ensures
            forall|parent: Option<P>|
                #![trigger self.with_parent(parent)]
                {
                    let w = self.with_parent(parent);
                    &&& w.parent_view() == parent
                    &&& w.offset_view() == self.offset_view()
                },
            forall|first: Option<P>, second: Option<P>|
                #![trigger self.with_parent(first).with_parent(second)]
                self.with_parent(first).with_parent(second) == self.with_parent(second),
            self.with_parent(self.parent_view()) == self,
    {
    }
}

impl<'a, P> Reader<'a> for GroupSize16EncodingDecoder<P> where P: Reader<'a> + Default {
    open spec fn buf_ok(&self) -> bool {
        self.parent_view() is Some && self.parent_view().unwrap().buf_ok()
    }

    open spec fn buf(self) -> ReadBuf<'a> {
        self.parent_view().unwrap().buf()
    }

    fn get_buf(&self) -> (r: &ReadBuf<'a>) {
        self.parent.as_ref().expect("parent missing").get_buf()
    }
}

impl<'a, P> GroupSize16EncodingDecoder<P> where P: Reader<'a> + Default {
    /// This codec stands where `pre` stood.
    pub open spec fn placed_as(self, pre: Self) -> bool {
        &&& self.buf_ok()
        &&& self.offset_view() == pre.offset_view()
        &&& self.buf() == pre.buf()
    }

    /// Places the decoder at `offset` of the parent's buffer.
    pub fn wrap(self, parent: P, offset: usize) -> (r: Self)
        ensures
            r.parent_view() == Some(parent),
            r.offset_view() == offset,
    {
        let mut this = self;
        this.parent = Some(parent);
        this.offset = offset;
        this
    }

    /// Hands the parent back; after that this codec reaches no buffer.
    pub fn parent(&mut self) -> (r: SbeResult<P>)
        ensures
            r == match old(self).parent_view() {
                Some(p) => Ok::<P, SbeErr>(p),
                None => Err::<P, SbeErr>(SbeErr::ParentNotSet),
            },
            *final(self) == old(self).with_parent(None),
    {
        self.parent.take().ok_or(SbeErr::ParentNotSet)
    }

    /// `blockLength`: a `u16` at byte 0 of the block.
    pub fn block_length(&self) -> (r: u16)
        requires
            self.buf_ok(),
            self.offset_view() + 2 <= self.buf()@.len(),
        ensures
            r == read_u16(self.buf()@, self.offset_view() as int),
    {
        proof {
            self.buf().lemma_len();
        }
        self.get_buf().get_u16_at(self.offset)
    }

    /// `numInGroup`: a `u16` at byte 2 of the block.
    pub fn num_in_group(&self) -> (r: u16)
        requires
            self.buf_ok(),
            self.offset_view() + 4 <= self.buf()@.len(),
        ensures
            r == read_u16(self.buf()@, self.offset_view() + 2),
    {
        proof {
            self.buf().lemma_len();
        }
        self.get_buf().get_u16_at(self.offset + 2)
    }
}

} // verus!
