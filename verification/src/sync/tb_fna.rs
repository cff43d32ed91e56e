//! Index bookkeeping of a triple buffer in which the shared word stores the
//! complement of the back buffer's id; a cleared bit 2 marks a value that the
//! reader has not taken yet.
use vstd::prelude::*;

verus! {

/// Low two bits of the shared word: the (complemented) id of the back buffer.
pub const BUFFER_ID_MASK: u8 = 0b11;

/// Bit 2 of the shared word; it is clear while a freshly published buffer waits.
pub const IS_NEW_MASK: u8 = 0b100;

/// The three buffer ids of a triple buffer.
///
/// `snatched_read` is the buffer the reader reads, `edit_rw.0` the buffer the
/// editor reads (its last published value) and `edit_rw.1` the buffer the
/// editor writes; the shared word `packed` holds the back buffer.
#[derive(Debug)]
pub struct TripleBufferIndices {
    pub snatched_read: u8,
    pub packed: u8,
    pub edit_rw: (u8, u8),
}

/// The back buffer's id encoded in a shared word.
pub open spec fn spec_back_of(packed: u8) -> u8 {
    !packed & BUFFER_ID_MASK
}

/// Whether a shared word marks a published buffer the reader has not taken.
pub open spec fn spec_fresh_of(packed: u8) -> bool {
    packed & IS_NEW_MASK == 0
}

impl TripleBufferIndices {
    /// The raw shared word.
    pub open spec fn word(&self) -> u8 {
        self.packed
    }

    /// The buffer the reader reads.
    pub open spec fn read(&self) -> u8 {
        self.snatched_read
    }

    /// The buffer the editor reads.
    pub open spec fn edit_read(&self) -> u8 {
        self.edit_rw.0
    }

    /// The buffer the editor writes.
    pub open spec fn edit_write(&self) -> u8 {
        self.edit_rw.1
    }

    /// The id of the back buffer.
    pub open spec fn back(&self) -> u8 {
        spec_back_of(self.word())
    }

    /// Whether the back buffer holds a value the reader has not taken.
    pub open spec fn fresh(&self) -> bool {
        spec_fresh_of(self.word())
    }

    /// Well-formedness: the reader's buffer, the back buffer and the editor's
    /// write buffer are three distinct ids out of {0, 1, 2}, and the editor reads
    /// the latest published buffer (the back one while it is fresh, else the one
    /// the reader took).
    pub open spec fn wf(&self) -> bool {
        &&& self.read() < 3
        &&& self.back() < 3
        &&& self.edit_write() < 3
        &&& self.read() != self.back()
        &&& self.read() != self.edit_write()
        &&& self.back() != self.edit_write()
        &&& self.edit_read() == (if self.fresh() { self.back() } else { self.read() })
    }

    /// Encodes a buffer id into a shared word marked fresh.
    fn pack(v: u8) -> (r: u8)
        ensures
            r == !v & BUFFER_ID_MASK,
            v < 4 ==> spec_back_of(r) == v && spec_fresh_of(r),
    {
        let r = !v & BUFFER_ID_MASK;
        assert(v < 4 ==> (!r & 3u8) == v && (r & 4u8) == 0) by (bit_vector)
            requires
                r == !v & 3u8,
        ;
        r
    }

    /// Decodes a shared word into (fresh, back buffer id).
    fn unpack(packed: u8) -> (r: (bool, u8))
        ensures
            r.0 == spec_fresh_of(packed),
            r.1 == spec_back_of(packed),
    {
        let is_new = (packed & IS_NEW_MASK) == 0;
        let next_write = !packed & BUFFER_ID_MASK;
        (is_new, next_write)
    }

    /// The selector handed to the shared word's NAND when the reader takes the
    /// back buffer; each valid id selects its own bits.
    fn mask(v: u8) -> (r: u8)
        requires
            v <= 2,
        ensures
            r == v,
    {
        if v == 0 {
            0b000
        } else if v == 1 {
            0b001
        } else {
            0b010
        }
    }

    /// The state after the reader's snatch: when a fresh buffer waits, the reader
    /// swaps its buffer with the back one and the word is marked taken.
    pub open spec fn spec_snatch(self) -> TripleBufferIndices {
        if self.fresh() {
            TripleBufferIndices {
                snatched_read: self.back(),
                packed: !(self.packed & self.snatched_read),
                edit_rw: self.edit_rw,
            }
        } else {
            self
        }
    }

    /// The state after the editor's publish: the written buffer becomes the
    /// fresh back buffer, and the editor writes next into the old back buffer.
    pub open spec fn spec_advance(self) -> TripleBufferIndices {
        TripleBufferIndices {
            snatched_read: self.snatched_read,
            packed: !self.edit_rw.1 & BUFFER_ID_MASK,
            edit_rw: (self.edit_rw.1, self.back()),
        }
    }

    /// The reader takes the most recently published buffer, if one is waiting.
    pub fn snatch(&mut self)
        requires
            old(self).fresh() ==> old(self).read() <= 2,
        ensures
            *final(self) == old(self).spec_snatch(),
            final(self).edit_rw == old(self).edit_rw,
            !old(self).fresh() ==> *final(self) == *old(self),
            old(self).fresh() && old(self).read() < 3 && old(self).back() < 3 && old(self).read()
                != old(self).back() ==> {
                &&& final(self).read() == old(self).back()
                &&& final(self).back() == old(self).read()
                &&& !final(self).fresh()
            },
    {
        proof {
            if old(self).fresh() && old(self).read() < 3 && old(self).back() < 3 && old(self).read()
                != old(self).back() {
                lemma_snatch_bits(self.packed, self.snatched_read);
            }
        }
        if Self::unpack(self.packed).0 {
            let old_snatched = self.snatched_read;
            let prev = self.packed;
            self.packed = !(prev & Self::mask(old_snatched));
            self.snatched_read = Self::unpack(prev).1;
        }
    }

    /// The editor publishes the buffer it wrote and moves on to the back buffer.
    pub fn advance(&mut self)
        ensures
            *final(self) == old(self).spec_advance(),
            final(self).read() == old(self).read(),
            final(self).edit_rw == (old(self).edit_write(), old(self).back()),
            old(self).edit_write() < 3 ==> final(self).back() == old(self).edit_write(),
            old(self).edit_write() < 3 ==> final(self).fresh(),
    {
        proof {
            if old(self).edit_write() < 3 {
                lemma_advance_bits(self.edit_rw.1);
            }
        }
        let curr_read = self.edit_rw.1;
        let prev = self.packed;
        self.packed = Self::pack(curr_read);
        let curr_write = Self::unpack(prev).1;
        self.edit_rw = (curr_read, curr_write);
    }
}

impl Default for TripleBufferIndices {
    /// Reader on buffer 0, editor reading 1 and writing 2, buffer 1 published.
    fn default() -> (r: Self)
        ensures
            r.read() == 0,
            r.edit_read() == 1,
            r.edit_write() == 2,
            r.back() == 1,
            r.fresh(),
            r.wf(),
    {
        let r = Self { snatched_read: 0, packed: Self::pack(1), edit_rw: (1, 2) };
        r
    }
}

proof fn lemma_snatch_bits(p: u8, r: u8)
    by (bit_vector)
    requires
        r < 3,
        (!p & 3u8) < 3,
        r != (!p & 3u8),
    ensures
        (!(!(p & r)) & 3u8) == r,
        (!(p & r)) & 4u8 != 0,
{
}

proof fn lemma_advance_bits(w: u8)
    by (bit_vector)
    requires
        w < 3,
    ensures
        (!(!w & 3u8) & 3u8) == w,
        (!w & 3u8) & 4u8 == 0,
{
}

/// A snatch keeps the indices well formed; when a fresh buffer waited, the
/// reader now holds it, the back buffer is the one the reader gave up, and
/// nothing is fresh any more; otherwise nothing changes.
pub proof fn law_snatch(s: TripleBufferIndices)
    requires
        s.wf(),
    ensures
        s.spec_snatch().wf(),
        !s.spec_snatch().fresh(),
        s.spec_snatch().edit_read() == s.edit_read(),
        s.spec_snatch().edit_write() == s.edit_write(),
        s.fresh() ==> s.spec_snatch().read() == s.back() && s.spec_snatch().back() == s.read(),
        !s.fresh() ==> s.spec_snatch() == s,
{
    if s.fresh() {
        lemma_snatch_bits(s.packed, s.snatched_read);
    }
}

/// A publish keeps the indices well formed: the written buffer becomes the fresh
/// back buffer and the editor's read buffer, the editor writes next into the old
/// back buffer, and the reader keeps its buffer.
pub proof fn law_advance(s: TripleBufferIndices)
    requires
        s.wf(),
    ensures
        s.spec_advance().wf(),
        s.spec_advance().fresh(),
        s.spec_advance().back() == s.edit_write(),
        s.spec_advance().edit_read() == s.edit_write(),
        s.spec_advance().edit_write() == s.back(),
        s.spec_advance().read() == s.read(),
{
    lemma_advance_bits(s.edit_rw.1);
}

/// The weakest arrangement the operations keep: the reader's buffer, the back
/// buffer and the editor's write buffer are the three ids 0, 1 and 2, and the
/// editor reads either the reader's buffer or the back one.
pub open spec fn spec_ids_distinct(s: TripleBufferIndices) -> bool {
    &&& s.read() < 3
    &&& s.back() < 3
    &&& s.edit_write() < 3
    &&& s.read() != s.back()
    &&& s.read() != s.edit_write()
    &&& s.back() != s.edit_write()
    &&& (s.edit_read() == s.read() || s.edit_read() == s.back())
}

/// Snatches and publishes keep the three ids distinct, whatever buffer the
/// editor reads: so the editor's write buffer is never the reader's buffer
/// nor the published one. The default indices are so arranged.
pub proof fn law_ids_stay_distinct(s: TripleBufferIndices)
    requires
        spec_ids_distinct(s),
    ensures
        spec_ids_distinct(s.spec_snatch()),
        spec_ids_distinct(s.spec_advance()),
{
    if s.fresh() {
        lemma_snatch_bits(s.packed, s.snatched_read);
    }
    lemma_advance_bits(s.edit_rw.1);
}

/// Encoding an id in the shared word marks it fresh and decodes back to it;
/// the reader's NAND of a published word with the selector of a different id
/// clears the fresh mark and leaves that id as the back buffer.
pub proof fn law_pack_then_unpack(v: u8, w: u8)
    requires
        v < 3,
        w < 3,
    ensures
        spec_fresh_of(!v & BUFFER_ID_MASK),
        spec_back_of(!v & BUFFER_ID_MASK) == v,
        v != w ==> !spec_fresh_of(!((!w & BUFFER_ID_MASK) & v)),
        v != w ==> spec_back_of(!((!w & BUFFER_ID_MASK) & v)) == v,
{
    lemma_advance_bits(v);
    lemma_advance_bits(w);
    if v != w {
        lemma_snatch_bits(!w & BUFFER_ID_MASK, v);
    }
}

/// The indices after applying, in order, a sequence of operations: `true` is a
/// reader's snatch, `false` an editor's publish.
pub open spec fn run(s: TripleBufferIndices, ops: Seq<bool>) -> TripleBufferIndices
    decreases ops.len(),
{
    if ops.len() == 0 {
        s
    } else {
        let t = if ops[0] { s.spec_snatch() } else { s.spec_advance() };
        run(t, ops.drop_first())
    }
}

/// Whatever order the reader's snatches and the editor's publishes interleave
/// in, the indices stay well formed: in particular the reader never reads the
/// buffer the editor writes, and the editor never reads the buffer it writes.
pub proof fn law_interleavings_keep_wf(s: TripleBufferIndices, ops: Seq<bool>)
    requires
        s.wf(),
    ensures
        run(s, ops).wf(),
        run(s, ops).read() != run(s, ops).edit_write(),
        run(s, ops).edit_read() != run(s, ops).edit_write(),
    decreases ops.len(),
{
    if ops.len() > 0 {
        let t = if ops[0] { s.spec_snatch() } else { s.spec_advance() };
        if ops[0] {
            law_snatch(s);
        } else {
            law_advance(s);
        }
        law_interleavings_keep_wf(t, ops.drop_first());
    }
}

/// After the editor publishes, the reader's next snatch hands it exactly the
/// buffer the editor had written.
pub proof fn law_publish_then_snatch(s: TripleBufferIndices)
    requires
        s.wf(),
    ensures
        s.spec_advance().spec_snatch().read() == s.edit_write(),
{
    law_advance(s);
    law_snatch(s.spec_advance());
}

/// When the editor publishes twice before the reader snatches, the reader gets
/// the second (latest) publication.
pub proof fn law_latest_publication_wins(s: TripleBufferIndices)
    requires
        s.wf(),
    ensures
        s.spec_advance().spec_advance().spec_snatch().read() == s.spec_advance().edit_write(),
{
    law_advance(s);
    law_publish_then_snatch(s.spec_advance());
}

/// A second snatch with no publish in between changes nothing.
pub proof fn law_snatch_idempotent(s: TripleBufferIndices)
    requires
        s.wf(),
    ensures
        s.spec_snatch().spec_snatch() == s.spec_snatch(),
{
    law_snatch(s);
    law_snatch(s.spec_snatch());
}

} // verus!
