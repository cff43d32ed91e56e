//! Index bookkeeping of a triple buffer in which the shared word stores the back
//! buffer's id in its low two bits and sets bit 2 when a buffer is published.
use vstd::prelude::*;

verus! {

/// Low two bits of the shared word: the id of the back buffer.
pub const BUFFER_ID_MASK: u8 = 0b11;

/// Bit 2 of the shared word; it is set when a buffer has been published.
pub const IS_NEW_MASK: u8 = 0b100;

/// The three buffer ids of a triple buffer: `snatched_read` for the reader,
/// `edit_rw` for the editor's (read, write) pair, and the back buffer in the
/// shared word `packed`.
#[derive(Debug)]
pub struct TripleBufferIndices {
    pub snatched_read: u8,
    packed: u8,
    pub edit_rw: (u8, u8),
}

impl TripleBufferIndices {
    /// The raw shared word.
    pub closed spec fn word(&self) -> u8 {
        self.packed
    }

    /// The buffer the reader reads.
    pub closed spec fn read(&self) -> u8 {
        self.snatched_read
    }

    /// The buffer the editor reads.
    pub closed spec fn edit_read(&self) -> u8 {
        self.edit_rw.0
    }

    /// The buffer the editor writes.
    pub closed spec fn edit_write(&self) -> u8 {
        self.edit_rw.1
    }

    /// The id of the back buffer.
    pub open spec fn back(&self) -> u8 {
        self.word() & BUFFER_ID_MASK
    }

    /// Whether the shared word carries the "published" mark.
    pub open spec fn fresh(&self) -> bool {
        self.word() & IS_NEW_MASK != 0
    }

    /// Encodes a buffer id and a "published" mark into a shared word.
    fn pack(is_new: bool, v: u8) -> (r: u8)
        ensures
            r == (if is_new { v | IS_NEW_MASK } else { v }),
    {
        if is_new {
            v | 0b100
        } else {
            v
        }
    }

    /// Decodes a shared word into (published mark, back buffer id).
    fn unpack(packed: u8) -> (r: (bool, u8))
        ensures
            r.0 == (packed & IS_NEW_MASK != 0),
            r.1 == packed & BUFFER_ID_MASK,
    {
        let is_new = (packed & IS_NEW_MASK) != 0;
        let next_write = packed & BUFFER_ID_MASK;
        (is_new, next_write)
    }

    /// The state after the reader's snatch: when the word carries the mark, the
    /// reader takes the back buffer and leaves its own buffer there, still marked.
    pub closed spec fn spec_snatch(self) -> TripleBufferIndices {
        if self.fresh() {
            TripleBufferIndices {
                snatched_read: self.back(),
                packed: self.snatched_read | IS_NEW_MASK,
                edit_rw: self.edit_rw,
            }
        } else {
            self
        }
    }

    /// The state after the editor's publish: the written buffer goes to the
    /// word, marked, and the editor writes next into the old back buffer.
    pub closed spec fn spec_advance(self) -> TripleBufferIndices {
        TripleBufferIndices {
            snatched_read: self.snatched_read,
            packed: self.edit_rw.1 | IS_NEW_MASK,
            edit_rw: (self.edit_rw.1, self.back()),
        }
    }

    /// The reader swaps its buffer with the back buffer when the word is marked.
    pub fn snatch(&mut self)
        ensures
            *final(self) == old(self).spec_snatch(),
            old(self).fresh() ==> final(self).read() == old(self).back(),
            !old(self).fresh() ==> final(self).read() == old(self).read(),
    {
        let old_snatched = self.snatched_read;
        if Self::unpack(self.packed).0 {
            let prev = self.packed;
            self.packed = Self::pack(true, old_snatched);
            self.snatched_read = Self::unpack(prev).1;
        }
    }

    /// The editor publishes the buffer it wrote and moves on to the back buffer.
    pub fn advance(&mut self)
        ensures
            *final(self) == old(self).spec_advance(),
            final(self).edit_read() == old(self).edit_write(),
            final(self).edit_write() == old(self).back(),
    {
        let curr_read = self.edit_rw.1;
        let prev = self.packed;
        self.packed = Self::pack(true, curr_read);
        let curr_write = Self::unpack(prev).1;
        self.edit_rw = (curr_read, curr_write);
    }
}

impl Default for TripleBufferIndices {
    /// Reader on buffer 0, editor reading 1 and writing 2, buffer 2 in the
    /// shared word without the mark.
    fn default() -> (r: Self)
        ensures
            r.read() == 0,
            r.edit_read() == 1,
            r.edit_write() == 2,
            r.word() == 2,
    {
        Self { snatched_read: 0, packed: Self::pack(false, 2), edit_rw: (1, 2) }
    }
}

} // verus!
