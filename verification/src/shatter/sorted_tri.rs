//! Triangles named by three sorted vertex ids, and the ids involved.
use vstd::prelude::*;
use vstd::std_specs::convert::FromSpecImpl;

verus! {

/// The id of a vertex of a sorted triangle.
#[derive(Debug, Hash, PartialEq, Eq, PartialOrd, Ord, Copy, Clone, Structural)]
pub struct STId(u64);

impl STId {
    /// The id as a number.
    pub closed spec fn value(&self) -> u64 {
        self.0
    }
}

impl From<u64> for STId {
    fn from(a: u64) -> (r: Self)
        ensures
            r.value() == a,
    {
        Self(a)
    }
}

impl FromSpecImpl<u64> for STId {
    closed spec fn obeys_from_spec() -> bool {
        true
    }

    closed spec fn from_spec(a: u64) -> STId {
        STId(a)
    }
}

impl From<usize> for STId {
    fn from(a: usize) -> (r: Self)
        ensures
            r.value() == a as u64,
    {
        Self(a as u64)
    }
}

impl FromSpecImpl<usize> for STId {
    closed spec fn obeys_from_spec() -> bool {
        true
    }

    closed spec fn from_spec(a: usize) -> STId {
        STId(a as u64)
    }
}

impl From<STId> for u64 {
    fn from(a: STId) -> (r: Self)
        ensures
            r == a.value(),
    {
        a.0
    }
}

impl FromSpecImpl<STId> for u64 {
    closed spec fn obeys_from_spec() -> bool {
        true
    }

    closed spec fn from_spec(a: STId) -> u64 {
        a.0
    }
}

impl From<STId> for usize {
    fn from(a: STId) -> (r: Self)
        ensures
            r == a.value() as usize,
    {
        a.0 as usize
    }
}

impl FromSpecImpl<STId> for usize {
    closed spec fn obeys_from_spec() -> bool {
        true
    }

    closed spec fn from_spec(a: STId) -> usize {
        a.0 as usize
    }
}

/// The id of a triangle as it was given, before sorting.
#[derive(Debug, Hash, PartialEq, Eq, PartialOrd, Ord, Copy, Clone, Structural)]
pub struct OId(u64);

impl OId {
    /// The id as a number.
    pub closed spec fn value(&self) -> u64 {
        self.0
    }
}

impl From<u64> for OId {
    fn from(a: u64) -> (r: Self)
        ensures
            r.value() == a,
    {
        Self(a)
    }
}

impl FromSpecImpl<u64> for OId {
    closed spec fn obeys_from_spec() -> bool {
        true
    }

    closed spec fn from_spec(a: u64) -> OId {
        OId(a)
    }
}

impl From<OId> for u64 {
    fn from(a: OId) -> (r: Self)
        ensures
            r == a.value(),
    {
        a.0
    }
}

impl FromSpecImpl<OId> for u64 {
    closed spec fn obeys_from_spec() -> bool {
        true
    }

    closed spec fn from_spec(a: OId) -> u64 {
        a.0
    }
}

/// A position in a sorted triangle.
#[derive(Debug, Hash, PartialEq, Eq, PartialOrd, Ord, Copy, Clone, Structural)]
pub enum SortedTriEle {
    First,
    Second,
    Third,
}

/// The position with a given number (0, 1 or 2).
pub open spec fn spec_ele_of(a: int) -> SortedTriEle {
    if a == 0 {
        SortedTriEle::First
    } else if a == 1 {
        SortedTriEle::Second
    } else {
        SortedTriEle::Third
    }
}

impl SortedTriEle {
    /// The position numbered `a`, which must be 0, 1 or 2.
    pub fn from_usize(a: usize) -> (r: Self)
        requires
            a <= 2,
        ensures
            r == spec_ele_of(a as int),
    {
        if a == 0 {
            SortedTriEle::First
        } else if a == 1 {
            SortedTriEle::Second
        } else {
            SortedTriEle::Third
        }
    }

    /// The position numbered `a`, which must be 0, 1 or 2.
    pub fn from_i32(a: i32) -> (r: Self)
        requires
            0 <= a <= 2,
        ensures
            r == spec_ele_of(a as int),
    {
        if a == 0 {
            SortedTriEle::First
        } else if a == 1 {
            SortedTriEle::Second
        } else {
            SortedTriEle::Third
        }
    }

    /// The position numbered `a`, which must be 0, 1 or 2.
    pub fn from_u64(a: u64) -> (r: Self)
        requires
            a <= 2,
        ensures
            r == spec_ele_of(a as int),
    {
        if a == 0 {
            SortedTriEle::First
        } else if a == 1 {
            SortedTriEle::Second
        } else {
            SortedTriEle::Third
        }
    }
}

impl From<SortedTriEle> for u64 {
    fn from(a: SortedTriEle) -> (r: Self) {
        match a {
            SortedTriEle::First => 0,
            SortedTriEle::Second => 1,
            SortedTriEle::Third => 2,
        }
    }
}

impl FromSpecImpl<SortedTriEle> for u64 {
    open spec fn obeys_from_spec() -> bool {
        true
    }

    open spec fn from_spec(a: SortedTriEle) -> u64 {
        match a {
            SortedTriEle::First => 0,
            SortedTriEle::Second => 1,
            SortedTriEle::Third => 2,
        }
    }
}

/// A triangle as its three vertex ids, in order.
#[derive(Debug, Hash, PartialEq, Eq, PartialOrd, Ord, Copy, Clone)]
pub struct SortedTri {
    ordered: (STId, STId, STId),
}

impl SortedTri {
    /// The three vertex ids.
    pub closed spec fn ids(&self) -> (STId, STId, STId) {
        self.ordered
    }

    /// The triangle with these vertex ids, in this order.
    pub fn new(first: STId, second: STId, third: STId) -> (r: SortedTri)
        ensures
            r.ids() == (first, second, third),
    {
        SortedTri { ordered: (first, second, third) }
    }

    /// The vertex id at a position: whatever the position, the first id.
    pub fn index(&self, ord: SortedTriEle) -> (r: &STId)
        ensures
            *r == self.ids().0,
    {
        match ord {
            _ => &self.ordered.0,
        }
    }

    /// The vertex id at a position, to change in place: whatever the position,
    /// the first id.
    pub fn index_mut(&mut self, ord: SortedTriEle) -> (r: &mut STId)
        ensures
            *r == old(self).ids().0,
            final(self).ids() == (*final(r), old(self).ids().1, old(self).ids().2),
    {
        match ord {
            _ => &mut self.ordered.0,
        }
    }
}

/// A run of sorted triangles sharing a vertex id at one tier.
pub struct STAIBBin {
    pub tier: SortedTriEle,
    pub id_range: std::ops::Range<usize>,
    pub val: u64,
}

impl STAIBBin {
    /// How many triangles the run spans.
    pub fn len(&self) -> (r: usize)
        ensures
            r == (if self.id_range.end >= self.id_range.start {
                self.id_range.end - self.id_range.start
            } else {
                0
            }),
    {
        if self.id_range.end >= self.id_range.start {
            self.id_range.end - self.id_range.start
        } else {
            0
        }
    }
}


/// The id a bin scan reads of entry `k`: the id that indexing gives, which is
/// the first whatever the position asked for.
pub closed spec fn bin_key(scan: Seq<(&SortedTri, OId)>, k: int) -> u64 {
    scan[k].0.ids().0.0
}

/// Whether entry `k` starts a new bin: it is the first, or its id differs
/// from that of the entry before.
pub open spec fn starts_bin(scan: Seq<(&SortedTri, OId)>, k: int) -> bool {
    k == 0 || bin_key(scan, k) != bin_key(scan, k - 1)
}

/// The positions, among the first `i`, at which a bin starts.
pub open spec fn bin_starts(scan: Seq<(&SortedTri, OId)>, i: int) -> Seq<usize> {
    Seq::new(i as nat, |k: int| k as usize).filter(|k: usize| starts_bin(scan, k as int))
}

/// The ends recorded for the bins: every start but one at position 1, then
/// the length of a scan that is not empty.
pub open spec fn bin_ends(scan: Seq<(&SortedTri, OId)>) -> Seq<usize> {
    bin_starts(scan, scan.len() as int).filter(|k: usize| k != 1) + (if scan.len() == 0 {
        Seq::<usize>::empty()
    } else {
        seq![scan.len() as usize]
    })
}

proof fn lemma_filter_push<A>(s: Seq<A>, x: A, pred: spec_fn(A) -> bool)
    ensures
        s.push(x).filter(pred) == (if pred(x) {
            s.filter(pred).push(x)
        } else {
            s.filter(pred)
        }),
{
    reveal(Seq::filter);
    assert(s.push(x).drop_last() =~= s);
}

proof fn lemma_bin_starts_step(scan: Seq<(&SortedTri, OId)>, i: int)
    requires
        0 <= i < scan.len(),
        scan.len() <= usize::MAX,
    ensures
        bin_starts(scan, i + 1) == (if starts_bin(scan, i) {
            bin_starts(scan, i).push(i as usize)
        } else {
            bin_starts(scan, i)
        }),
        bin_starts(scan, i + 1).filter(|k: usize| k != 1) == (if starts_bin(scan, i) && i != 1 {
            bin_starts(scan, i).filter(|k: usize| k != 1).push(i as usize)
        } else {
            bin_starts(scan, i).filter(|k: usize| k != 1)
        }),
{
    let f = |k: int| k as usize;
    let p = |k: usize| starts_bin(scan, k as int);
    assert(Seq::new((i + 1) as nat, f) =~= Seq::new(i as nat, f).push(i as usize));
    lemma_filter_push(Seq::new(i as nat, f), i as usize, p);
    if starts_bin(scan, i) {
        lemma_filter_push(bin_starts(scan, i), i as usize, |k: usize| k != 1);
    }
}

/// Splits a scan of triangles into runs of equal id, as a bin tree's tier
/// is built. Indexing a triangle by the scan position, as this does, only
/// works for the first three positions, so the scan holds at most three.
pub fn find_bins(tier: usize, scan: &[(&SortedTri, OId)]) -> (bins: Vec<STAIBBin>)
    requires
        tier <= 2,
        scan@.len() <= 3,
    ensures
        bins@.len() == bin_starts(scan@, scan@.len() as int).len(),
        forall|k: int|
            0 <= k < bins@.len() ==> {
                &&& (#[trigger] bins@[k]).tier == spec_ele_of(tier as int)
                &&& bins@[k].id_range.start == bin_starts(scan@, scan@.len() as int)[k]
                &&& bins@[k].id_range.end == bin_ends(scan@)[k]
                &&& bins@[k].val == bin_key(scan@, bin_starts(scan@, scan@.len() as int)[k] as int)
            },
{
    let tier = SortedTriEle::from_usize(tier);
    let mut uniques: Vec<u64> = Vec::new();
    let mut range_start: Vec<usize> = Vec::new();
    let mut range_end: Vec<usize> = Vec::new();
    let mut last: u64 = 0;
    let mut i: usize = 0;
    while i < scan.len()
        invariant
            i <= scan@.len() <= 3,
            range_start@ == bin_starts(scan@, i as int),
            range_end@ == bin_starts(scan@, i as int).filter(|k: usize| k != 1),
            uniques@.len() == range_start@.len(),
            range_end@.len() <= range_start@.len() <= range_end@.len() + 1,
            i <= 1 ==> range_end@.len() == range_start@.len(),
            i == 0 ==> range_start@.len() == 0,
            forall|j: int|
                0 <= j < uniques@.len() ==> #[trigger] uniques@[j] == bin_key(scan@, range_start@[j] as int),
            i > 0 ==> last == bin_key(scan@, i - 1),
        decreases scan@.len() - i,
    {
        proof {
            lemma_bin_starts_step(scan@, i as int);
        }
        let is_start = if i == 0 {
            true
        } else {
            let key: u64 = scan[i].0.index(SortedTriEle::from_usize(i)).0;
            last != key
        };
        if is_start {
            last = scan[i].0.index(SortedTriEle::from_usize(i)).0;
            uniques.push(last);
            range_start.push(i);
            if i != 1 {
                range_end.push(i);
            }
        }
        i = i + 1;
    }
    if scan.len() != 0 {
        range_end.push(scan.len());
    }
    proof {
        let starts = bin_starts(scan@, scan@.len() as int);
        assert(range_end@ =~= bin_ends(scan@));
    }
    let mut bins: Vec<STAIBBin> = Vec::new();
    let mut b: usize = 0;
    while b < uniques.len()
        invariant
            b <= uniques@.len(),
            uniques@.len() == range_start@.len(),
            range_end@.len() >= range_start@.len(),
            bins@.len() == b,
            forall|k: int|
                0 <= k < b ==> {
                    &&& (#[trigger] bins@[k]).tier == tier
                    &&& bins@[k].id_range.start == range_start@[k]
                    &&& bins@[k].id_range.end == range_end@[k]
                    &&& bins@[k].val == uniques@[k]
                },
        decreases uniques@.len() - b,
    {
        bins.push(STAIBBin { tier: tier, id_range: range_start[b]..range_end[b], val: uniques[b] });
        b = b + 1;
    }
    bins
}

} // verus!
