//! The eight bytes before every message: block length, template id, schema
//! id and version, each a `u16`.
use crate::buffer::{ReadBuf, WriteBuf};
use crate::codec::{Reader, SbeErr, SbeResult, Writer};
use crate::wire::{
    lemma_patch_apart, lemma_round_trip_16, lemma_u16_value, read_u16, u16_to_le, write_u16,
};
use vstd::prelude::*;

verus! {

/// The bytes that this composite takes on the wire.
pub const ENCODED_LENGTH: usize = 8;

/// The header of a message, written at position `i`.
pub open spec fn write_header(
    s: Seq<u8>,
    i: int,
    block_length: u16,
    template_id: u16,
    schema_id: u16,
    version: u16,
) -> Seq<u8> {
    write_u16(
        write_u16(write_u16(write_u16(s, i, block_length), i + 2, template_id), i + 4, schema_id),
        i + 6,
        version,
    )
}

/// A header is read back as it was written: each of its four fields.
pub proof fn lemma_header_round_trip(
    s: Seq<u8>,
    i: int,
    block_length: u16,
    template_id: u16,
    schema_id: u16,
    version: u16,
)
    requires
        0 <= i,
        i + 8 <= s.len(),
    ensures
        ({
            let w = write_header(s, i, block_length, template_id, schema_id, version);
            &&& w.len() == s.len()
            &&& read_u16(w, i) == block_length
            &&& read_u16(w, i + 2) == template_id
            &&& read_u16(w, i + 4) == schema_id
            &&& read_u16(w, i + 6) == version
        }),
{
    let a = write_u16(s, i, block_length);
    let b = write_u16(a, i + 2, template_id);
    let c = write_u16(b, i + 4, schema_id);
    lemma_round_trip_16(s, i, block_length, 0);
    lemma_round_trip_16(a, i + 2, template_id, 0);
    lemma_round_trip_16(b, i + 4, schema_id, 0);
    lemma_round_trip_16(c, i + 6, version, 0);
    lemma_u16_value(template_id);
    lemma_u16_value(schema_id);
    lemma_u16_value(version);
    lemma_patch_apart(a, i + 2, u16_to_le(template_id), i, 2);
    lemma_patch_apart(b, i + 4, u16_to_le(schema_id), i, 2);
    lemma_patch_apart(b, i + 4, u16_to_le(schema_id), i + 2, 2);
    lemma_patch_apart(c, i + 6, u16_to_le(version), i, 2);
    lemma_patch_apart(c, i + 6, u16_to_le(version), i + 2, 2);
    lemma_patch_apart(c, i + 6, u16_to_le(version), i + 4, 2);
}

/// `s` after some fields of the header at `i` were set, in whatever order
/// and however often: each entry of `sets` is the number of a field, 0 for
/// the block length to 3 for the version, and the value that it was set
/// to.
pub open spec fn header_set(s: Seq<u8>, i: int, sets: Seq<(int, u16)>) -> Seq<u8>
    decreases sets.len(),
{
    if sets.len() == 0 {
        s
    } else {
        write_u16(header_set(s, i, sets.drop_last()), i + 2 * sets.last().0, sets.last().1)
    }
}

/// The value that field `k` was set to last, if it was set at all.
pub open spec fn last_set(sets: Seq<(int, u16)>, k: int) -> Option<u16>
    decreases sets.len(),
{
    if sets.len() == 0 {
        None
    } else if sets.last().0 == k {
        Some(sets.last().1)
    } else {
        last_set(sets.drop_last(), k)
    }
}

/// The fields of a header do not depend on the order in which they are
/// set, nor on the codec that the header's encoder writes through: each
/// field is read as it was set last, and a field that was not set as it
/// was before.
pub proof fn lemma_header_any_order(s: Seq<u8>, i: int, sets: Seq<(int, u16)>, k: int)
    requires
        0 <= i,
        i + 8 <= s.len(),
        forall|j: int| 0 <= j < sets.len() ==> 0 <= (#[trigger] sets[j]).0 < 4,
        0 <= k < 4,
    ensures
        header_set(s, i, sets).len() == s.len(),
        read_u16(header_set(s, i, sets), i + 2 * k) == match last_set(sets, k) {
            Some(v) => v,
            None => read_u16(s, i + 2 * k),
        },
    decreases sets.len(),
{
    if sets.len() > 0 {
        let rest = sets.drop_last();
        let f = sets.last().0;
        let v = sets.last().1;
        assert(sets[sets.len() - 1] == sets.last());
        assert forall|j: int| 0 <= j < rest.len() implies 0 <= (#[trigger] rest[j]).0 < 4 by {
            assert(rest[j] == sets[j]);
        }
        lemma_header_any_order(s, i, rest, k);
        let t = header_set(s, i, rest);
        lemma_round_trip_16(t, i + 2 * f, v, 0);
        lemma_u16_value(v);
        if f != k {
            lemma_patch_apart(t, i + 2 * f, u16_to_le(v), i + 2 * k, 2);
        }
    }
}

/// The four fields of a header, each set once, are read back, whatever
/// the order was.
pub proof fn lemma_header_round_trip_any_order(s: Seq<u8>, i: int, sets: Seq<(int, u16)>)
    requires
        0 <= i,
        i + 8 <= s.len(),
        sets.len() == 4,
        forall|j: int| 0 <= j < 4 ==> 0 <= (#[trigger] sets[j]).0 < 4,
        forall|j: int, m: int| 0 <= j < m < 4 ==> sets[j].0 != sets[m].0,
    ensures
        forall|j: int|
            0 <= j < 4 ==> read_u16(header_set(s, i, sets), i + 2 * (#[trigger] sets[j]).0)
                == sets[j].1,
{
    assert forall|j: int| 0 <= j < 4 implies read_u16(
        header_set(s, i, sets),
        i + 2 * (#[trigger] sets[j]).0,
    ) == sets[j].1 by {
        lemma_header_any_order(s, i, sets, sets[j].0);
        reveal_with_fuel(last_set, 5);
        let a = sets.drop_last();
        let b = a.drop_last();
        let c = b.drop_last();
        assert(a.last() == sets[2] && b.last() == sets[1] && c.last() == sets[0]);
        assert(sets.last() == sets[3]);
        assert(c.drop_last().len() == 0);
    }
}

/// The encoder `post` is the encoder `pre` after field `k` of the header
/// was set to `value`: what each of the four setters ensures, whatever
/// codec the encoder writes through.
pub open spec fn header_field_set<'a, P: Writer<'a> + Default>(
    pre: MessageHeaderEncoder<P>,
    post: MessageHeaderEncoder<P>,
    k: int,
    value: u16,
) -> bool {
    &&& post.buf()@ == write_u16(pre.buf()@, pre.offset_view() + 2 * k, value)
    &&& post.placed_as(pre)
}

/// An encoder whose setters were called in whatever order, over whatever
/// parent, holds the bytes that `header_set` names: `states` are the
/// encoder before the first call and after each call, and `sets` the calls.
pub proof fn lemma_header_encoder_any_order<'a, P: Writer<'a> + Default>(
    states: Seq<MessageHeaderEncoder<P>>,
    sets: Seq<(int, u16)>,
)
    requires
        states.len() == sets.len() + 1,
        forall|j: int|
            0 <= j < sets.len() ==> header_field_set(
                states[j],
                states[j + 1],
                (#[trigger] sets[j]).0,
                sets[j].1,
            ),
    ensures
        states.last().buf()@ == header_set(
            states[0].buf()@,
            states[0].offset_view() as int,
            sets,
        ),
        states.last().offset_view() == states[0].offset_view(),
    decreases sets.len(),
{
    if sets.len() > 0 {
        let n = sets.len() as int;
        let before = states.drop_last();
        let rest = sets.drop_last();
        assert forall|j: int| 0 <= j < rest.len() implies header_field_set(
            before[j],
            before[j + 1],
            (#[trigger] rest[j]).0,
            rest[j].1,
        ) by {
            assert(rest[j] == sets[j]);
            assert(before[j] == states[j] && before[j + 1] == states[j + 1]);
        }
        lemma_header_encoder_any_order(before, rest);
        assert(before.last() == states[n - 1]);
        assert(before[0] == states[0]);
        assert(sets[n - 1] == sets.last());
    }
}

/// A header written with what is read from it is as it was.
pub proof fn lemma_header_written_back(s: Seq<u8>, i: int)
    requires
        0 <= i,
        i + 8 <= s.len(),
    ensures
        write_header(
            s,
            i,
            read_u16(s, i),
            read_u16(s, i + 2),
            read_u16(s, i + 4),
            read_u16(s, i + 6),
        ) == s,
{
    lemma_round_trip_16(s, i, 0, 0);
    lemma_round_trip_16(s, i + 2, 0, 0);
    lemma_round_trip_16(s, i + 4, 0, 0);
    lemma_round_trip_16(s, i + 6, 0, 0);
}

#[derive(Debug)]
pub struct MessageHeaderEncoder<P> {
    parent: Option<P>,
    offset: usize,
}

impl<P> Default for MessageHeaderEncoder<P> {
    fn default() -> (r: Self)
        ensures
            r.parent_view() is None,
            r.offset_view() == 0,
    {
        Self { parent: None, offset: 0 }
    }
}

impl<P> MessageHeaderEncoder<P> {
    /// Where nothing writes through this codec any more, nothing writes
    /// through its parent.
    proof fn lemma_parent_resolved(self)
        requires
            has_resolved(self),
            self.parent is Some,
        ensures
            has_resolved(self.parent->0),
    {
    }

    pub closed spec fn parent_view(self) -> Option<P> {
        self.parent
    }

    pub closed spec fn offset_view(self) -> usize {
        self.offset
    }

    /// This codec over another parent, all else kept.
    pub closed spec fn with_parent(self, parent: Option<P>) -> Self {
        Self { parent, ..self }
    }

    /// What the exchanges above keep and what they put.
    pub proof fn lemma_frame(self)
        ensures
            forall|parent: Option<P>|
                #![trigger self.with_parent(parent)]
                {
                    let w = self.with_parent(parent);
                    &&& w.parent_view() == parent
                    &&& w.offset_view() == self.offset_view()
                },
            forall|first: Option<P>, second: Option<P>|
                #![trigger self.with_parent(first).with_parent(second)]
                self.with_parent(first).with_parent(second) == self.with_parent(second),
            self.with_parent(self.parent_view()) == self,
    {
    }
}

impl<'a, P> Writer<'a> for MessageHeaderEncoder<P> where P: Writer<'a> + Default {
    open spec fn buf_ok(&self) -> bool {
        self.parent_view() is Some && self.parent_view().unwrap().buf_ok()
    }

    open spec fn buf(self) -> WriteBuf<'a> {
        self.parent_view().unwrap().buf()
    }

    open spec fn with_buf(self, buf: WriteBuf<'a>) -> Self {
        self.with_parent(Some(self.parent_view().unwrap().with_buf(buf)))
    }

    proof fn lemma_with_buf(self) {
        self.parent_view().unwrap().lemma_with_buf();
        self.lemma_frame();
    }

    proof fn lemma_resolved(self) {
        self.lemma_parent_resolved();
        self.parent_view().unwrap().lemma_resolved();
    }

    fn get_buf_mut(&mut self) -> (r: &mut WriteBuf<'a>) {
        if let Some(parent) = self.parent.as_mut() {
            parent.get_buf_mut()
        } else {
            vstd::pervasive::unreached()
        }
    }
}

impl<'a, P> MessageHeaderEncoder<P> where P: Writer<'a> + Default {
    /// This codec stands where `pre` stood (what the buffer holds may differ).
    pub open spec fn placed_as(self, pre: Self) -> bool {
        &&& self.buf_ok()
        &&& self.offset_view() == pre.offset_view()
    }

    /// Places the encoder at `offset` of the parent's buffer.
    pub fn wrap(self, parent: P, offset: usize) -> (r: Self)
        ensures
            r.parent_view() == Some(parent),
            r.offset_view() == offset,
    {
        let mut this = self;
        this.parent = Some(parent);
        this.offset = offset;
        this
    }

    /// Hands the parent back; after that this codec reaches no buffer.
    pub fn parent(&mut self) -> (r: SbeResult<P>)
        ensures
            r == match old(self).parent_view() {
                Some(p) => Ok::<P, SbeErr>(p),
                None => Err::<P, SbeErr>(SbeErr::ParentNotSet),
            },
            *final(self) == old(self).with_parent(None),
    {
        self.parent.take().ok_or(SbeErr::ParentNotSet)
    }

    /// `blockLength`: a `u16` at byte 0 of the block.
    pub fn block_length(&mut self, value: u16)
        requires
            old(self).buf_ok(),
            old(self).offset_view() + 2 <= old(self).buf()@.len(),
        ensures
            final(self).buf()@ == write_u16(
                old(self).buf()@,
                old(self).offset_view() as int,
                value,
            ),
            final(self).buf()@.len() == old(self).buf()@.len(),
            final(final(self).buf().target())@ == final(old(self).buf().target())@,
            final(self).placed_as(*old(self)),
            *final(self) == old(self).with_buf(final(self).buf()),
    {
        proof {
            self.buf().lemma_len();
            self.lemma_with_buf();
            self.lemma_frame();
        }
        let offset = self.offset;
        self.get_buf_mut().put_u16_at(offset, value);
    }

    /// `templateId`: a `u16` at byte 2 of the block.
    pub fn template_id(&mut self, value: u16)
        requires
            old(self).buf_ok(),
            old(self).offset_view() + 4 <= old(self).buf()@.len(),
        ensures
            final(self).buf()@ == write_u16(old(self).buf()@, old(self).offset_view() + 2, value),
            final(self).buf()@.len() == old(self).buf()@.len(),
            final(final(self).buf().target())@ == final(old(self).buf().target())@,
            final(self).placed_as(*old(self)),
            *final(self) == old(self).with_buf(final(self).buf()),
    {
        proof {
            self.buf().lemma_len();
            self.lemma_with_buf();
            self.lemma_frame();
        }
        let offset = self.offset + 2;
        self.get_buf_mut().put_u16_at(offset, value);
    }

    /// `schemaId`: a `u16` at byte 4 of the block.
    pub fn schema_id(&mut self, value: u16)
        requires
            old(self).buf_ok(),
            old(self).offset_view() + 6 <= old(self).buf()@.len(),
        ensures
            final(self).buf()@ == write_u16(old(self).buf()@, old(self).offset_view() + 4, value),
            final(self).buf()@.len() == old(self).buf()@.len(),
            final(final(self).buf().target())@ == final(old(self).buf().target())@,
            final(self).placed_as(*old(self)),
            *final(self) == old(self).with_buf(final(self).buf()),
    {
        proof {
            self.buf().lemma_len();
            self.lemma_with_buf();
            self.lemma_frame();
        }
        let offset = self.offset + 4;
        self.get_buf_mut().put_u16_at(offset, value);
    }

    /// `version`: a `u16` at byte 6 of the block.
    pub fn version(&mut self, value: u16)
        requires
            old(self).buf_ok(),
            old(self).offset_view() + 8 <= old(self).buf()@.len(),
        ensures
            final(self).buf()@ == write_u16(old(self).buf()@, old(self).offset_view() + 6, value),
            final(self).buf()@.len() == old(self).buf()@.len(),
            final(final(self).buf().target())@ == final(old(self).buf().target())@,
            final(self).placed_as(*old(self)),
            *final(self) == old(self).with_buf(final(self).buf()),
    {
        proof {
            self.buf().lemma_len();
            self.lemma_with_buf();
            self.lemma_frame();
        }
        let offset = self.offset + 6;
        self.get_buf_mut().put_u16_at(offset, value);
    }
}

#[derive(Debug)]
pub struct MessageHeaderDecoder<P> {
    parent: Option<P>,
    offset: usize,
}

impl<P> Default for MessageHeaderDecoder<P> {
    fn default() -> (r: Self)
        ensures
            r.parent_view() is None,
            r.offset_view() == 0,
    {
        Self { parent: None, offset: 0 }
    }
}

impl<P> MessageHeaderDecoder<P> {
    pub closed spec fn parent_view(self) -> Option<P> {
        self.parent
    }

    pub closed spec fn offset_view(self) -> usize {
        self.offset
    }

    /// This codec over another parent, all else kept.
    pub closed spec fn with_parent(self, parent: Option<P>) -> Self {
        Self { parent, ..self }
    }

    /// What the exchanges above keep and what they put.
    pub proof fn lemma_frame(self)
        ensures
            forall|parent: Option<P>|
                #![trigger self.with_parent(parent)]
                {
                    let w = self.with_parent(parent);
                    &&& w.parent_view() == parent
                    &&& w.offset_view() == self.offset_view()
                },
            forall|first: Option<P>, second: Option<P>|
                #![trigger self.with_parent(first).with_parent(second)]
                self.with_parent(first).with_parent(second) == self.with_parent(second),
            self.with_parent(self.parent_view()) == self,
    {
    }
}

impl<'a, P> Reader<'a> for MessageHeaderDecoder<P> where P: Reader<'a> + Default {
    open spec fn buf_ok(&self) -> bool {
        self.parent_view() is Some && self.parent_view().unwrap().buf_ok()
    }

    open spec fn buf(self) -> ReadBuf<'a> {
        self.parent_view().unwrap().buf()
    }

    fn get_buf(&self) -> (r: &ReadBuf<'a>) {
        self.parent.as_ref().expect("parent missing").get_buf()
    }
}

impl<'a, P> MessageHeaderDecoder<P> where P: Reader<'a> + Default {
    /// This codec stands where `pre` stood.
    pub open spec fn placed_as(self, pre: Self) -> bool {
        &&& self.buf_ok()
        &&& self.offset_view() == pre.offset_view()
        &&& self.buf() == pre.buf()
    }

    /// Places the decoder at `offset` of the parent's buffer.
    pub fn wrap(self, parent: P, offset: usize) -> (r: Self)
        ensures
            r.parent_view() == Some(parent),
            r.offset_view() == offset,
    {
        let mut this = self;
        this.parent = Some(parent);
        this.offset = offset;
        this
    }

    /// Hands the parent back; after that this codec reaches no buffer.
    pub fn parent(&mut self) -> (r: SbeResult<P>)
        ensures
            r == match old(self).parent_view() {
                Some(p) => Ok::<P, SbeErr>(p),
                None => Err::<P, SbeErr>(SbeErr::ParentNotSet),
            },
            *final(self) == old(self).with_parent(None),
    {
        self.parent.take().ok_or(SbeErr::ParentNotSet)
    }

    /// Where the header begins in the parent's buffer.
    pub fn offset(&self) -> (r: usize)
        ensures
            r == self.offset_view(),
    {
        self.offset
    }

    /// `blockLength`: a `u16` at byte 0 of the block.
    pub fn block_length(&self) -> (r: u16)
        requires
            self.buf_ok(),
            self.offset_view() + 2 <= self.buf()@.len(),
        ensures
            r == read_u16(self.buf()@, self.offset_view() as int),
    {
        proof {
            self.buf().lemma_len();
        }
        self.get_buf().get_u16_at(self.offset)
    }

    /// `templateId`: a `u16` at byte 2 of the block.
    pub fn template_id(&self) -> (r: u16)
        requires
            self.buf_ok(),
            self.offset_view() + 4 <= self.buf()@.len(),
        ensures
            r == read_u16(self.buf()@, self.offset_view() + 2),
    {
        proof {
            self.buf().lemma_len();
        }
        self.get_buf().get_u16_at(self.offset + 2)
    }

    /// `schemaId`: a `u16` at byte 4 of the block.
    pub fn schema_id(&self) -> (r: u16)
        requires
            self.buf_ok(),
            self.offset_view() + 6 <= self.buf()@.len(),
        ensures
            r == read_u16(self.buf()@, self.offset_view() + 4),
    {
        proof {
            self.buf().lemma_len();
        }
        self.get_buf().get_u16_at(self.offset + 4)
    }

    /// `version`: a `u16` at byte 6 of the block.
    pub fn version(&self) -> (r: u16)
        requires
            self.buf_ok(),
            self.offset_view() + 8 <= self.buf()@.len(),
        ensures
            r == read_u16(self.buf()@, self.offset_view() + 6),
    {
        proof {
            self.buf().lemma_len();
        }
        self.get_buf().get_u16_at(self.offset + 6)
    }
}

} // verus!
