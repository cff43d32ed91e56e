//! A triple buffer: three copies of a value, one the reader reads, one the
//! editor writes, and a back copy through which the editor publishes and the
//! reader picks up the latest publication without ever touching the buffer the
//! other side works on.
use vstd::prelude::*;
use crate::sync::tb_fna::TripleBufferIndices;

verus! {

/// Indices that are always well formed.
struct WfIndices {
    ii: TripleBufferIndices,
}

impl WfIndices {
    #[verifier::type_invariant]
    spec fn inv(&self) -> bool {
        self.ii.wf()
    }

    fn snatch(&mut self)
        ensures
            final(self).ii == old(self).ii.spec_snatch(),
            old(self).ii.wf(),
            final(self).ii.wf(),
    {
        proof {
            use_type_invariant(&*self);
            crate::sync::tb_fna::law_snatch(self.ii);
        }
        let mut ii = TripleBufferIndices { snatched_read: self.ii.snatched_read, packed: self.ii.packed, edit_rw: self.ii.edit_rw };
        ii.snatch();
        *self = WfIndices { ii };
    }

    fn advance(&mut self)
        ensures
            final(self).ii == old(self).ii.spec_advance(),
            old(self).ii.wf(),
            final(self).ii.wf(),
    {
        proof {
            use_type_invariant(&*self);
            crate::sync::tb_fna::law_advance(self.ii);
        }
        let mut ii = TripleBufferIndices { snatched_read: self.ii.snatched_read, packed: self.ii.packed, edit_rw: self.ii.edit_rw };
        ii.advance();
        *self = WfIndices { ii };
    }

    fn read(&self) -> (r: u8)
        ensures
            r == self.ii.read(),
            self.ii.wf(),
    {
        proof {
            use_type_invariant(self);
        }
        self.ii.snatched_read
    }

    fn edit_read(&self) -> (r: u8)
        ensures
            r == self.ii.edit_read(),
            self.ii.wf(),
    {
        proof {
            use_type_invariant(self);
        }
        self.ii.edit_rw.0
    }

    fn edit_write(&self) -> (r: u8)
        ensures
            r == self.ii.edit_write(),
            self.ii.wf(),
    {
        proof {
            use_type_invariant(self);
        }
        self.ii.edit_rw.1
    }
}

/// The three copies of a value together with the indices that say who uses which.
pub struct TripleBuffer<T> {
    ii: WfIndices,
    tt: (T, T, T),
}

impl<T> TripleBuffer<T> {
    /// The indices.
    pub closed spec fn indices(&self) -> TripleBufferIndices {
        self.ii.ii
    }


    /// The three copies, by buffer id.
    pub closed spec fn slots(&self) -> Seq<T> {
        seq![self.tt.0, self.tt.1, self.tt.2]
    }

    /// Well-formedness: the indices are well formed, and there are three copies.
    pub open spec fn wf(&self) -> bool {
        &&& self.indices().wf()
        &&& self.slots().len() == 3
    }

    /// The copy with a given id.
    pub open spec fn slot(&self, i: int) -> T {
        self.slots()[i]
    }

    fn show_wf(&self)
        ensures
            self.wf(),
    {
        proof {
            use_type_invariant(&self.ii);
        }
    }

    fn slot_ref(&self, i: u8) -> (r: &T)
        requires
            i < 3,
        ensures
            *r == self.slot(i as int),
    {
        if i == 0 {
            &self.tt.0
        } else if i == 1 {
            &self.tt.1
        } else {
            &self.tt.2
        }
    }

    fn slot_mut(&mut self, i: u8) -> (r: &mut T)
        requires
            i < 3,
        ensures
            *r == old(self).slot(i as int),
            final(self).indices() == old(self).indices(),
            final(self).slots() == old(self).slots().update(i as int, *final(r)),
    {
        if i == 0 {
            &mut self.tt.0
        } else if i == 1 {
            &mut self.tt.1
        } else {
            &mut self.tt.2
        }
    }
}


/// A pair of a read access and a write access.
#[derive(Debug)]
pub struct RWPair<R, W> {
    pub r: R,
    pub w: W,
}

impl<T> TripleBuffer<T> {
    fn slots_rw(&mut self, r: u8, w: u8) -> (ret: RWPair<&T, &mut T>)
        requires
            r < 3,
            w < 3,
            r != w,
        ensures
            *ret.r == old(self).slot(r as int),
            *ret.w == old(self).slot(w as int),
            final(self).indices() == old(self).indices(),
            final(self).slots() == old(self).slots().update(w as int, *final(ret.w)),
    {
        if r == 0 {
            if w == 1 {
                RWPair { r: &self.tt.0, w: &mut self.tt.1 }
            } else {
                RWPair { r: &self.tt.0, w: &mut self.tt.2 }
            }
        } else if r == 1 {
            if w == 0 {
                RWPair { r: &self.tt.1, w: &mut self.tt.0 }
            } else {
                RWPair { r: &self.tt.1, w: &mut self.tt.2 }
            }
        } else {
            if w == 0 {
                RWPair { r: &self.tt.2, w: &mut self.tt.0 }
            } else {
                RWPair { r: &self.tt.2, w: &mut self.tt.1 }
            }
        }
    }
}

impl<T: Clone> TripleBuffer<T> {
    /// Creates a triple buffer whose three copies start as `src` (two clones and
    /// `src` itself), with the default indices.
    pub fn raw(src: T) -> (r: Self)
        ensures
            r.wf(),
            r.indices().read() == 0,
            r.indices().edit_read() == 1,
            r.indices().edit_write() == 2,
            r.indices().back() == 1,
            r.indices().fresh(),
            cloned(src, r.slot(0)),
            cloned(src, r.slot(1)),
            r.slot(2) == src,
    {
        let a = src.clone();
        let b = src.clone();
        TripleBuffer { ii: WfIndices { ii: TripleBufferIndices::default() }, tt: (a, b, src) }
    }
}

impl<T> TripleBuffer<T> {
    /// The reader takes the latest published copy, if one is waiting.
    pub fn snatch(&mut self)
        ensures
            final(self).indices() == old(self).indices().spec_snatch(),
            final(self).slots() == old(self).slots(),
            old(self).wf(),
            final(self).wf(),
    {
        self.ii.snatch();
    }

    /// The editor publishes the copy it wrote.
    pub fn advance(&mut self)
        ensures
            final(self).indices() == old(self).indices().spec_advance(),
            final(self).slots() == old(self).slots(),
            old(self).wf(),
            final(self).wf(),
    {
        self.ii.advance();
    }

    /// The id of the reader's copy.
    fn rr(&self) -> (r: u8)
        ensures
            r == self.indices().read(),
            self.wf(),
    {
        self.ii.read()
    }

    /// The id of the editor's read copy.
    fn er(&self) -> (r: u8)
        ensures
            r == self.indices().edit_read(),
            self.wf(),
    {
        self.ii.edit_read()
    }

    /// The id of the editor's write copy.
    fn ew(&self) -> (r: u8)
        ensures
            r == self.indices().edit_write(),
            self.wf(),
    {
        self.ii.edit_write()
    }

    /// The copy the reader reads.
    pub fn reader_r(&self) -> (r: &T)
        ensures
            *r == self.slot(self.indices().read() as int),
            self.wf(),
    {
        self.slot_ref(self.rr())
    }

    /// The copy the editor reads (its last publication).
    pub fn editor_r(&self) -> (r: &T)
        ensures
            *r == self.slot(self.indices().edit_read() as int),
            self.wf(),
    {
        self.slot_ref(self.er())
    }

    /// The copy the editor writes.
    pub fn editor_w(&mut self) -> (r: &mut T)
        ensures
            old(self).wf(),
            final(self).wf(),
            *r == old(self).slot(old(self).indices().edit_write() as int),
            final(self).indices() == old(self).indices(),
            final(self).slots() == old(self).slots().update(
                old(self).indices().edit_write() as int,
                *final(r),
            ),
    {
        let w = self.ew();
        self.slot_mut(w)
    }
}

/// The error of an operation that needs its handle unlocked, carrying what it was given.
#[derive(Debug)]
pub struct LockedError<T>(pub T);

/// The error of an operation that needs its handle locked, carrying what it was given.
#[derive(Debug)]
pub struct UnlockedError<T>(pub T);

/// A reader that holds the copy it took when it locked.
#[derive(Debug)]
pub struct LockedReader {
    locked: u8,
}

impl LockedReader {
    /// A locked reader holds one of the three copies.
    #[verifier::type_invariant]
    spec fn inv(&self) -> bool {
        self.locked < 3
    }

    /// The id of the copy this reader holds.
    pub closed spec fn slot(&self) -> u8 {
        self.locked
    }

    /// Takes the latest publication and holds the reader's copy.
    fn lock<T>(rv: &mut TripleBuffer<T>) -> (r: LockedReader)
        ensures
            final(rv).wf(),
            final(rv).indices() == old(rv).indices().spec_snatch(),
            final(rv).slots() == old(rv).slots(),
            r.slot() == final(rv).indices().read(),
    {
        rv.snatch();
        LockedReader { locked: rv.rr() }
    }

    /// The copy this reader holds.
    pub fn r<'a, T>(&self, tb: &'a TripleBuffer<T>) -> (r: &'a T)
        ensures
            *r == tb.slot(self.slot() as int),
            self.slot() < 3,
    {
        proof {
            use_type_invariant(self);
        }
        tb.slot_ref(self.locked)
    }

    /// Gives the copy back.
    fn release(self) -> (r: Reader)
        ensures
            r == Reader::Free,
    {
        Reader::Free
    }
}

/// The reading side of a triple buffer: free, or locked on the copy it took.
#[derive(Debug)]
pub enum Reader {
    Free,
    Locked(LockedReader),
}

impl Reader {
    /// Whether this reader agrees with the indices: when locked, it holds the
    /// reader's copy.
    pub open spec fn agrees(&self, ii: TripleBufferIndices) -> bool {
        self matches Reader::Locked(lr) ==> lr.slot() == ii.read()
    }

    /// Locks a free reader on the latest publication; a locked reader is an error.
    pub fn grab<T>(self, tb: &mut TripleBuffer<T>) -> (r: Result<Reader, LockedError<Reader>>)
        ensures
            old(tb).wf(),
            final(tb).wf(),
            self is Free ==> final(tb).indices() == old(tb).indices().spec_snatch(),
            self is Free ==> (r matches Ok(Reader::Locked(lr)) && lr.slot() == final(tb).indices().read()),
            self is Locked ==> final(tb).indices() == old(tb).indices() && r == Err::<
                Reader,
                LockedError<Reader>,
            >(LockedError(self)),
            final(tb).slots() == old(tb).slots(),
    {
        tb.show_wf();
        match self {
            Reader::Free => Ok(Reader::Locked(LockedReader::lock(tb))),
            _ => Err(LockedError(self)),
        }
    }

    /// Locks a free reader on the latest publication; a locked reader stays as it is.
    pub fn grab_always<T>(self, tb: &mut TripleBuffer<T>) -> (r: Reader)
        ensures
            old(tb).wf(),
            final(tb).wf(),
            self is Free ==> final(tb).indices() == old(tb).indices().spec_snatch(),
            self is Free ==> (r matches Reader::Locked(lr) && lr.slot() == final(tb).indices().read()),
            self is Locked ==> final(tb).indices() == old(tb).indices() && r == self,
            final(tb).slots() == old(tb).slots(),
    {
        tb.show_wf();
        match self {
            Reader::Free => Reader::Locked(LockedReader::lock(tb)),
            _ => self,
        }
    }

    /// The held copy of a locked reader; a free reader is an error.
    pub fn fetch<'a, T>(&'a self, tb: &'a TripleBuffer<T>) -> (r: Result<&'a T, UnlockedError<()>>)
        ensures
            tb.wf(),
            self matches Reader::Locked(lr) ==> r matches Ok(v) && *v == tb.slot(lr.slot() as int),
            self is Free ==> r == Err::<&T, UnlockedError<()>>(UnlockedError(())),
    {
        tb.show_wf();
        match self {
            Reader::Locked(lr) => Ok(lr.r(tb)),
            _ => Err(UnlockedError(())),
        }
    }

    /// The held copy of a reader that must be locked.
    pub fn fetch_unsafe<'a, T>(&'a self, tb: &'a TripleBuffer<T>) -> (r: &'a T)
        requires
            self is Locked,
        ensures
            tb.wf(),
            self matches Reader::Locked(lr) && *r == tb.slot(lr.slot() as int),
    {
        tb.show_wf();
        match self {
            Reader::Locked(lr) => lr.r(tb),
            Reader::Free => vstd::pervasive::unreached(),
        }
    }

    /// Unlocks a locked reader; a free reader is an error.
    pub fn release(self) -> (r: Result<Reader, UnlockedError<Reader>>)
        ensures
            self is Locked ==> r == Ok::<Reader, UnlockedError<Reader>>(Reader::Free),
            self is Free ==> r == Err::<Reader, UnlockedError<Reader>>(UnlockedError(self)),
    {
        match self {
            Reader::Locked(lr) => Ok(lr.release()),
            _ => Err(UnlockedError(self)),
        }
    }

    /// Unlocks a locked reader; a free reader stays free.
    pub fn release_always(self) -> (r: Reader)
        ensures
            r == Reader::Free,
    {
        match self {
            Reader::Locked(lr) => lr.release(),
            _ => self,
        }
    }
}

/// An editor that holds its read copy and its write copy.
#[derive(Debug)]
pub struct LockedEditor {
    rw_lock: RWPair<u8, u8>,
}

impl LockedEditor {
    /// A locked editor holds two different copies out of the three.
    #[verifier::type_invariant]
    spec fn inv(&self) -> bool {
        &&& self.rw_lock.r < 3
        &&& self.rw_lock.w < 3
        &&& self.rw_lock.r != self.rw_lock.w
    }

    /// The id of the copy this editor reads.
    pub closed spec fn read_slot(&self) -> u8 {
        self.rw_lock.r
    }

    /// The id of the copy this editor writes.
    pub closed spec fn write_slot(&self) -> u8 {
        self.rw_lock.w
    }

    /// Holds the editor's read and write copies.
    fn lock<T>(tb: &TripleBuffer<T>) -> (r: LockedEditor)
        ensures
            r.read_slot() == tb.indices().edit_read(),
            r.write_slot() == tb.indices().edit_write(),
            tb.wf(),
    {
        LockedEditor { rw_lock: RWPair { r: tb.er(), w: tb.ew() } }
    }

    /// The copy this editor reads.
    pub fn r<'a, T>(&self, tb: &'a TripleBuffer<T>) -> (r: &'a T)
        ensures
            *r == tb.slot(self.read_slot() as int),
    {
        proof {
            use_type_invariant(self);
        }
        tb.slot_ref(self.rw_lock.r)
    }

    /// The copy this editor writes.
    pub fn w<'a, T>(&self, tb: &'a mut TripleBuffer<T>) -> (r: &'a mut T)
        ensures
            *r == old(tb).slot(self.write_slot() as int),
            final(tb).indices() == old(tb).indices(),
            final(tb).slots() == old(tb).slots().update(self.write_slot() as int, *final(r)),
    {
        proof {
            use_type_invariant(self);
        }
        tb.slot_mut(self.rw_lock.w)
    }

    /// Publishes the written copy and unlocks.
    fn release<T>(self, tb: &mut TripleBuffer<T>) -> (r: Editor)
        ensures
            final(tb).wf(),
            final(tb).indices() == old(tb).indices().spec_advance(),
            final(tb).slots() == old(tb).slots(),
            r == Editor::Free,
    {
        tb.advance();
        Editor::Free
    }
}

/// The editing side of a triple buffer: free, or locked on its two copies.
#[derive(Debug)]
pub enum Editor {
    Free,
    Locked(LockedEditor),
}

impl Editor {
    /// Whether this editor agrees with the indices: when locked, it holds the
    /// editor's read and write copies.
    pub open spec fn agrees(&self, ii: TripleBufferIndices) -> bool {
        self matches Editor::Locked(le) ==> le.read_slot() == ii.edit_read() && le.write_slot()
            == ii.edit_write()
    }

    /// Locks a free editor on its copies; a locked editor is an error.
    pub fn grab<T>(self, tb: &TripleBuffer<T>) -> (r: Result<Editor, LockedError<Editor>>)
        ensures
            tb.wf(),
            self is Free ==> (r matches Ok(Editor::Locked(le)) && le.read_slot()
                == tb.indices().edit_read() && le.write_slot() == tb.indices().edit_write()),
            self is Locked ==> r == Err::<Editor, LockedError<Editor>>(LockedError(self)),
    {
        tb.show_wf();
        match self {
            Editor::Free => Ok(Editor::Locked(LockedEditor::lock(tb))),
            _ => Err(LockedError(self)),
        }
    }

    /// Locks a free editor on its copies; a locked editor stays as it is.
    pub fn grab_always<T>(self, tb: &TripleBuffer<T>) -> (r: Editor)
        ensures
            tb.wf(),
            self is Free ==> (r matches Editor::Locked(le) && le.read_slot()
                == tb.indices().edit_read() && le.write_slot() == tb.indices().edit_write()),
            self is Locked ==> r == self,
    {
        tb.show_wf();
        match self {
            Editor::Free => Editor::Locked(LockedEditor::lock(tb)),
            _ => self,
        }
    }

    /// The read and write copies of a locked editor; a free editor is an error.
    pub fn fetch<'a, T>(&'a self, tb: &'a mut TripleBuffer<T>) -> (r: Result<
        RWPair<&'a T, &'a mut T>,
        UnlockedError<()>,
    >)
        ensures
            old(tb).wf(),
            final(tb).wf(),
            self is Free ==> r == Err::<RWPair<&T, &mut T>, UnlockedError<()>>(UnlockedError(())) && *final(tb) == *old(tb),
            self matches Editor::Locked(le) ==> (r matches Ok(p) && *p.r == old(tb).slot(
                le.read_slot() as int,
            ) && *p.w == old(tb).slot(le.write_slot() as int) && final(tb).indices() == old(
                tb,
            ).indices() && final(tb).slots() == old(tb).slots().update(
                le.write_slot() as int,
                *final(p.w),
            )),
    {
        tb.show_wf();
        match self {
            Editor::Locked(le) => {
                proof {
                    use_type_invariant(le);
                }
                Ok(tb.slots_rw(le.rw_lock.r, le.rw_lock.w))
            },
            _ => Err(UnlockedError(())),
        }
    }

    /// The read and write copies of an editor that must be locked.
    pub fn fetch_unsafe<'a, T>(&'a self, tb: &'a mut TripleBuffer<T>) -> (r: RWPair<
        &'a T,
        &'a mut T,
    >)
        requires
            self is Locked,
        ensures
            old(tb).wf(),
            final(tb).wf(),
            self matches Editor::Locked(le) && *r.r == old(tb).slot(le.read_slot() as int)
                && *r.w == old(tb).slot(le.write_slot() as int) && final(tb).indices() == old(
                tb,
            ).indices() && final(tb).slots() == old(tb).slots().update(
                le.write_slot() as int,
                *final(r.w),
            ),
    {
        tb.show_wf();
        match self {
            Editor::Locked(le) => {
                proof {
                    use_type_invariant(le);
                }
                tb.slots_rw(le.rw_lock.r, le.rw_lock.w)
            },
            Editor::Free => vstd::pervasive::unreached(),
        }
    }

    /// Publishes the written copy of a locked editor and unlocks it; a free
    /// editor is an error and publishes nothing.
    pub fn commit<T>(self, tb: &mut TripleBuffer<T>) -> (r: Result<Editor, UnlockedError<Editor>>)
        ensures
            old(tb).wf(),
            final(tb).wf(),
            self is Locked ==> final(tb).indices() == old(tb).indices().spec_advance() && r == Ok::<
                Editor,
                UnlockedError<Editor>,
            >(Editor::Free),
            self is Free ==> final(tb).indices() == old(tb).indices() && r == Err::<
                Editor,
                UnlockedError<Editor>,
            >(UnlockedError(self)),
            final(tb).slots() == old(tb).slots(),
    {
        tb.show_wf();
        match self {
            Editor::Locked(le) => Ok(le.release(tb)),
            _ => Err(UnlockedError(self)),
        }
    }

    /// Publishes the written copy of a locked editor and unlocks it; a free
    /// editor stays free and publishes nothing.
    pub fn commit_always<T>(self, tb: &mut TripleBuffer<T>) -> (r: Editor)
        ensures
            old(tb).wf(),
            final(tb).wf(),
            self is Locked ==> final(tb).indices() == old(tb).indices().spec_advance(),
            self is Free ==> final(tb).indices() == old(tb).indices(),
            final(tb).slots() == old(tb).slots(),
            r == Editor::Free,
    {
        tb.show_wf();
        match self {
            Editor::Locked(le) => le.release(tb),
            _ => self,
        }
    }
}

/// Creates a triple buffer holding `src` and the free reader and editor that
/// share it.
pub fn buffer<T: Clone>(src: T) -> (r: (Reader, Editor, TripleBuffer<T>))
    ensures
        r.0 == Reader::Free,
        r.1 == Editor::Free,
        r.2.wf(),
        r.2.indices().read() == 0,
        r.2.indices().edit_read() == 1,
        r.2.indices().edit_write() == 2,
        r.2.indices().fresh(),
        cloned(src, r.2.slot(0)),
        cloned(src, r.2.slot(1)),
        r.2.slot(2) == src,
{
    let tb = TripleBuffer::raw(src);
    (Reader::Free, Editor::Free, tb)
}

/// When the reader and the editor both agree with well-formed indices and are
/// both locked, the reader's copy is never the editor's write copy, and the
/// editor never reads the copy it writes.
pub proof fn law_handles_never_alias(ii: TripleBufferIndices, reader: Reader, editor: Editor)
    requires
        ii.wf(),
        reader.agrees(ii),
        editor.agrees(ii),
    ensures
        reader matches Reader::Locked(lr) ==> (editor matches Editor::Locked(le) ==> lr.slot()
            != le.write_slot()),
        editor matches Editor::Locked(le) ==> le.read_slot() != le.write_slot(),
{
}

/// What either side does keeps the other side in agreement and the indices well
/// formed: a reader's grab (a snatch) leaves the editor's copies where they were,
/// and an editor's commit (a publish) leaves the reader's copy where it was.
pub proof fn law_sides_stay_in_agreement(ii: TripleBufferIndices, reader: Reader, editor: Editor)
    requires
        ii.wf(),
        reader.agrees(ii),
        editor.agrees(ii),
    ensures
        ii.spec_snatch().wf(),
        editor.agrees(ii.spec_snatch()),
        ii.spec_advance().wf(),
        reader.agrees(ii.spec_advance()),
{
    crate::sync::tb_fna::law_snatch(ii);
    crate::sync::tb_fna::law_advance(ii);
}

/// What the reader reads after the editor writes a value, commits, and the
/// reader grabs again is exactly that value; and the editor, locking again,
/// reads back that same value.
pub proof fn law_read_gets_latest_write<T>(ii: TripleBufferIndices, slots: Seq<T>, v: T)
    requires
        ii.wf(),
        slots.len() == 3,
    ensures
        ({
            let written = slots.update(ii.edit_write() as int, v);
            let after = ii.spec_advance();
            &&& written[after.spec_snatch().read() as int] == v
            &&& written[after.edit_read() as int] == v
        }),
{
    crate::sync::tb_fna::law_publish_then_snatch(ii);
    crate::sync::tb_fna::law_advance(ii);
}

/// The indices and copies after the editor, once per value of `vs` in order,
/// writes the value into its write copy and commits.
pub open spec fn editor_cycles<T>(ii: TripleBufferIndices, slots: Seq<T>, vs: Seq<T>) -> (
    TripleBufferIndices,
    Seq<T>,
)
    decreases vs.len(),
{
    if vs.len() == 0 {
        (ii, slots)
    } else {
        let prev = editor_cycles(ii, slots, vs.drop_last());
        (prev.0.spec_advance(), prev.1.update(prev.0.edit_write() as int, vs.last()))
    }
}

/// However many values the editor writes and commits, the indices stay well
/// formed, the reader's copy stays where it is and keeps its value, and after
/// at least one commit the published copy, which the editor also reads, holds
/// the last value written and waits fresh for the reader.
pub proof fn law_editor_cycles<T>(ii: TripleBufferIndices, slots: Seq<T>, vs: Seq<T>)
    requires
        ii.wf(),
        slots.len() == 3,
    ensures
        ({
            let (i2, s2) = editor_cycles(ii, slots, vs);
            &&& i2.wf()
            &&& s2.len() == 3
            &&& i2.read() == ii.read()
            &&& s2[i2.read() as int] == slots[ii.read() as int]
            &&& vs.len() > 0 ==> {
                &&& i2.fresh()
                &&& i2.edit_read() == i2.back()
                &&& s2[i2.back() as int] == vs.last()
            }
        }),
    decreases vs.len(),
{
    if vs.len() > 0 {
        law_editor_cycles(ii, slots, vs.drop_last());
        let prev = editor_cycles(ii, slots, vs.drop_last());
        crate::sync::tb_fna::law_advance(prev.0);
    }
}

/// A locked reader's copy never changes, however many values the editor
/// writes and commits meanwhile.
pub proof fn law_locked_reader_view_is_stable<T>(
    ii: TripleBufferIndices,
    slots: Seq<T>,
    reader: Reader,
    vs: Seq<T>,
)
    requires
        ii.wf(),
        slots.len() == 3,
        reader.agrees(ii),
    ensures
        ({
            let (i2, s2) = editor_cycles(ii, slots, vs);
            &&& reader.agrees(i2)
            &&& reader matches Reader::Locked(lr) ==> s2[lr.slot() as int] == slots[lr.slot() as int]
        }),
{
    law_editor_cycles(ii, slots, vs);
}

/// After the editor writes and commits one or more values, the reader's next
/// grab gets the last of them, and so does every grab after it until the next
/// commit; the editor's read copy is that last value too.
pub proof fn law_reader_gets_last_commit<T>(ii: TripleBufferIndices, slots: Seq<T>, vs: Seq<T>)
    requires
        ii.wf(),
        slots.len() == 3,
        vs.len() > 0,
    ensures
        ({
            let (i2, s2) = editor_cycles(ii, slots, vs);
            let grabbed = i2.spec_snatch();
            &&& s2[grabbed.read() as int] == vs.last()
            &&& grabbed.spec_snatch() == grabbed
            &&& s2[i2.edit_read() as int] == vs.last()
            &&& s2[grabbed.edit_read() as int] == vs.last()
        }),
{
    law_editor_cycles(ii, slots, vs);
    let (i2, s2) = editor_cycles(ii, slots, vs);
    crate::sync::tb_fna::law_snatch(i2);
    crate::sync::tb_fna::law_snatch(i2.spec_snatch());
}

} // verus!
