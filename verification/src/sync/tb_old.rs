//! Index bookkeeping of a triple buffer that keeps the most recent buffer and
//! the editor's next buffer in one shared word, beside a shared "stale" flag.
use vstd::prelude::*;

verus! {

/// The three buffer ids of a triple buffer: `snatched_read` for the reader and
/// `edit_rw` for the editor's (read, write) pair. The shared word `packed_vals`
/// holds in bits 2..3 the most recent buffer and in bits 0..1 the complement of
/// the editor's next buffer; bit 4 says whether bits 2..3 are stored
/// complemented. `stale` is set once the reader has taken the latest value.
#[derive(Debug)]
pub struct TripleBufferIndices {
    pub snatched_read: usize,
    packed_vals: usize,
    stale: bool,
    pub edit_rw: (usize, usize),
}

/// The most recent buffer encoded in a shared word.
pub open spec fn spec_most_recent(packed: usize) -> usize {
    (if (packed >> 4usize) & 1usize != 0 { !packed } else { packed } >> 2usize) & 3usize
}

/// The editor's next buffer encoded in a shared word.
pub open spec fn spec_next_write(packed: usize) -> usize {
    !packed & 3usize
}

/// The shared word that the reader's NAND leaves behind.
pub open spec fn spec_nand_mask(r: usize) -> usize {
    (16 + 12 + r) as usize
}

impl TripleBufferIndices {
    /// The raw shared word.
    pub closed spec fn word(&self) -> usize {
        self.packed_vals
    }

    /// The shared "stale" flag.
    pub closed spec fn is_stale(&self) -> bool {
        self.stale
    }

    /// The buffer the reader reads.
    pub closed spec fn read(&self) -> usize {
        self.snatched_read
    }

    /// The buffer the editor reads.
    pub closed spec fn edit_read(&self) -> usize {
        self.edit_rw.0
    }

    /// The buffer the editor writes.
    pub closed spec fn edit_write(&self) -> usize {
        self.edit_rw.1
    }

    /// Encodes (most recent, next write) into a shared word.
    fn pack(v0: usize, v1: usize) -> (r: usize)
        ensures
            r == (v0 << 2usize) + (!v1 & 3usize),
            v0 < 4 && v1 < 4 ==> spec_most_recent(r) == v0 && spec_next_write(r) == v1,
    {
        let hi = v0 << 2;
        let lo = (!v1) & 0b11;
        assert(hi & 3usize == 0 && lo <= 3) by (bit_vector)
            requires
                hi == v0 << 2usize,
                lo == !v1 & 3usize,
        ;
        assert(hi + lo == (hi | lo)) by (bit_vector)
            requires
                hi & 3usize == 0,
                lo <= 3,
        ;
        let flag: usize = 0b0 << 4;
        assert(flag == 0) by (bit_vector)
            requires
                flag == 0usize << 4usize,
        ;
        let r = flag + hi + lo;
        assert(v0 < 4 && v1 < 4 ==> spec_most_recent(r) == v0 && spec_next_write(r) == v1)
            by (bit_vector)
            requires
                hi == v0 << 2usize,
                lo == !v1 & 3usize,
                r == hi + lo,
        ;
        r
    }

    /// Decodes a shared word into (most recent, next write).
    fn unpack(packed: usize) -> (r: (usize, usize))
        ensures
            r.0 == spec_most_recent(packed),
            r.1 == spec_next_write(packed),
    {
        let should_negate = ((packed >> 4) & 0b1) != 0;
        let most_recent = (if should_negate {
            !packed
        } else {
            packed
        } >> 2) & 0b11;
        let next_write = !packed & 0b11;
        (most_recent, next_write)
    }

    /// The state after the reader's snatch: the flag is set; if it was clear,
    /// the reader takes the most recent buffer and the word is NANDed with its
    /// old buffer's selector.
    pub closed spec fn spec_snatch(self) -> TripleBufferIndices {
        if !self.stale {
            TripleBufferIndices {
                snatched_read: spec_most_recent(self.packed_vals),
                packed_vals: !(self.packed_vals & spec_nand_mask(self.snatched_read)),
                stale: true,
                edit_rw: self.edit_rw,
            }
        } else {
            self
        }
    }

    /// The state after the editor's publish: the word names the written buffer
    /// both as most recent and as next write, the flag is cleared, and the editor
    /// moves to the next write buffer the word held.
    pub closed spec fn spec_advance(self) -> TripleBufferIndices {
        TripleBufferIndices {
            snatched_read: self.snatched_read,
            packed_vals: ((self.edit_rw.1 << 2usize) + (!self.edit_rw.1 & 3usize)) as usize,
            stale: false,
            edit_rw: (self.edit_rw.1, spec_next_write(self.packed_vals)),
        }
    }

    /// The reader takes the most recent buffer unless it already has.
    pub fn snatch(&mut self)
        requires
            old(self).read() <= 2,
        ensures
            *final(self) == old(self).spec_snatch(),
            !old(self).is_stale() ==> final(self).read() == spec_most_recent(old(self).word()),
            final(self).is_stale(),
    {
        let sel: usize = if self.snatched_read == 0 {
            0b00
        } else if self.snatched_read == 1 {
            0b01
        } else {
            0b10
        };
        let flag: usize = 0b1 << 4;
        let both: usize = 0b11 << 2;
        assert(flag == 16 && both == 12) by (bit_vector)
            requires
                flag == 1usize << 4usize,
                both == 3usize << 2usize,
        ;
        let mask = flag + both + sel;
        let was_stale = self.stale;
        self.stale = true;
        if !was_stale {
            let prev = self.packed_vals;
            self.packed_vals = !(prev & mask);
            self.snatched_read = Self::unpack(prev).0;
        }
    }

    /// The editor publishes the buffer it wrote.
    pub fn advance(&mut self)
        ensures
            *final(self) == old(self).spec_advance(),
            final(self).edit_read() == old(self).edit_write(),
            final(self).edit_write() == spec_next_write(old(self).word()),
            !final(self).is_stale(),
    {
        let ew = self.edit_rw.1;
        let prev = self.packed_vals;
        self.packed_vals = Self::pack(ew, ew);
        let next_write = Self::unpack(prev).1;
        self.stale = false;
        self.edit_rw = (ew, next_write);
    }
}

impl Default for TripleBufferIndices {
    /// Reader on buffer 0, editor reading 1 and writing 2; the word names 0 as
    /// most recent and 2 as next write; the flag is set.
    fn default() -> (r: Self)
        ensures
            r.read() == 0,
            r.edit_read() == 1,
            r.edit_write() == 2,
            spec_most_recent(r.word()) == 0,
            spec_next_write(r.word()) == 2,
            r.is_stale(),
    {
        Self { snatched_read: 0, packed_vals: Self::pack(0, 2), stale: true, edit_rw: (1, 2) }
    }
}

} // verus!
