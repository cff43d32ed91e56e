//! Bookkeeping of event callbacks: which callbacks listen to which category,
//! in which order they fire, and how the ones found dead are taken out.
//!
//! A callback is named by a handle; calling it (and finding out that it is gone)
//! is the event loop's work. Each registration gets an id of its own, so that
//! one callback registered twice can be taken out once.
use vstd::prelude::*;
use crate::events::hal::C;
use crate::events::assoc::{find_key, keys_unique, map_of};

verus! {

/// A callback to register: the category it listens to and the handle of the
/// function that is called.
#[derive(Debug, Copy, Clone)]
pub struct CB {
    c: C,
    cb: u64,
}

impl CB {
    /// The category the callback listens to.
    pub closed spec fn category(&self) -> C {
        self.c
    }

    /// The handle of the called function.
    pub closed spec fn handle(&self) -> u64 {
        self.cb
    }

    /// A callback listening to `c` that calls the function named `cb`.
    pub fn new(c: C, cb: u64) -> (r: Self)
        ensures
            r.category() == c,
            r.handle() == cb,
    {
        CB { c: c, cb: cb }
    }
}

/// A request to the callback manager.
pub enum RegRequest {
    /// Register callbacks for a category.
    Register(C, Vec<CB>),
    /// Take out registrations, each named by its category and registration id.
    Unregister(Vec<(C, u64)>),
}

/// The answer to a request.
pub enum RegResponse {
    /// The registration ids of the registered callbacks, in order.
    Register(C, Vec<u64>),
    Unregister,
}

/// The registrations of a category that are kept when the ids in `rem` are
/// taken out, in their order.
pub open spec fn keep(s: Seq<(u64, u64)>, rem: Seq<u64>) -> Seq<(u64, u64)>
    decreases s.len(),
{
    if s.len() == 0 {
        s
    } else if rem.contains(s.last().0) {
        keep(s.drop_last(), rem)
    } else {
        keep(s.drop_last(), rem).push(s.last())
    }
}

/// A sequence of categories with the first occurrence of `c` overwritten by the
/// last element, and the last element dropped.
pub open spec fn swap_out(occ: Seq<C>, c: C) -> Seq<C> {
    let i = choose|i: int| 0 <= i < occ.len() && occ[i] == c;
    occ.update(i, occ.last()).drop_last()
}

/// The occupied categories and buckets after taking out, from the bucket of
/// `c`, the registrations with ids in `rem`; a category whose bucket empties
/// leaves the occupied list (its empty bucket stays).
pub open spec fn remove_one(
    occ: Seq<C>,
    b: Map<C, Seq<(u64, u64)>>,
    c: C,
    rem: Seq<u64>,
) -> (Seq<C>, Map<C, Seq<(u64, u64)>>) {
    let kept = keep(b[c], rem);
    (if kept.len() == 0 { swap_out(occ, c) } else { occ }, b.insert(c, kept))
}

/// Whether taking out `rem` from the bucket of `c` is possible: the bucket
/// exists, and if it empties, `c` is among the occupied categories.
pub open spec fn remove_one_ok(
    occ: Seq<C>,
    b: Map<C, Seq<(u64, u64)>>,
    c: C,
    rem: Seq<u64>,
) -> bool {
    &&& b.dom().contains(c)
    &&& keep(b[c], rem).len() == 0 ==> occ.contains(c)
}

/// The occupied categories and buckets after a list of removals, in order.
pub open spec fn remove_all(
    occ: Seq<C>,
    b: Map<C, Seq<(u64, u64)>>,
    removals: Seq<(C, Seq<u64>)>,
) -> (Seq<C>, Map<C, Seq<(u64, u64)>>)
    decreases removals.len(),
{
    if removals.len() == 0 {
        (occ, b)
    } else {
        let prev = remove_all(occ, b, removals.drop_last());
        remove_one(prev.0, prev.1, removals.last().0, removals.last().1)
    }
}

/// Whether a list of removals can be carried out, in order.
pub open spec fn remove_all_ok(
    occ: Seq<C>,
    b: Map<C, Seq<(u64, u64)>>,
    removals: Seq<(C, Seq<u64>)>,
) -> bool
    decreases removals.len(),
{
    if removals.len() == 0 {
        true
    } else {
        let prev = remove_all(occ, b, removals.drop_last());
        remove_all_ok(occ, b, removals.drop_last()) && remove_one_ok(
            prev.0,
            prev.1,
            removals.last().0,
            removals.last().1,
        )
    }
}

/// A copy of a bucket.
fn copy_entries(v: &Vec<(u64, u64)>) -> (r: Vec<(u64, u64)>)
    ensures
        r@ == v@,
{
    let mut r = Vec::new();
    let mut i: usize = 0;
    while i < v.len()
        invariant
            i <= v.len(),
            r@ == v@.take(i as int),
        decreases v.len() - i,
    {
        r.push(v[i]);
        i += 1;
        assert(r@ =~= v@.take(i as int));
    }
    assert(v@.take(v.len() as int) =~= v@);
    r
}

/// Registrations kept from a bucket: those whose id is not in `rem`.
fn keep_entries(v: &Vec<(u64, u64)>, rem: &Vec<u64>) -> (r: Vec<(u64, u64)>)
    ensures
        r@ == keep(v@, rem@),
{
    let mut r = Vec::new();
    let mut i: usize = 0;
    while i < v.len()
        invariant
            i <= v.len(),
            r@ == keep(v@.take(i as int), rem@),
        decreases v.len() - i,
    {
        let e = v[i];
        let mut found = false;
        let mut j: usize = 0;
        while j < rem.len()
            invariant
                j <= rem.len(),
                found <==> exists|k: int| 0 <= k < j && rem@[k] == e.0,
            decreases rem.len() - j,
        {
            if rem[j] == e.0 {
                found = true;
            }
            j += 1;
        }
        assert(v@.take(i + 1).drop_last() =~= v@.take(i as int));
        assert(v@.take(i + 1).last() == e);
        if !found {
            r.push(e);
        }
        i += 1;
    }
    assert(v@.take(v.len() as int) =~= v@);
    r
}

/// Every kept registration is one of the bucket's, and kept registrations keep
/// their order.
proof fn lemma_keep(s: Seq<(u64, u64)>, rem: Seq<u64>, bound: u64)
    requires
        forall|i: int| 0 <= i < s.len() ==> #[trigger] s[i].0 < bound,
        forall|i: int, j: int| 0 <= i < j < s.len() ==> #[trigger] s[i].0 < #[trigger] s[j].0,
    ensures
        keep(s, rem).len() <= s.len(),
        forall|i: int| 0 <= i < keep(s, rem).len() ==> #[trigger] keep(s, rem)[i].0 < bound,
        forall|i: int| 0 <= i < keep(s, rem).len() ==> s.contains(#[trigger] keep(s, rem)[i]),
        forall|i: int, j: int|
            0 <= i < j < keep(s, rem).len() ==> #[trigger] keep(s, rem)[i].0 < #[trigger] keep(
                s,
                rem,
            )[j].0,
        forall|i: int|
            0 <= i < keep(s, rem).len() ==> !rem.contains(#[trigger] keep(s, rem)[i].0),
    decreases s.len(),
{
    if s.len() > 0 {
        let t = s.drop_last();
        lemma_keep(t, rem, bound);
        let k = keep(t, rem);
        assert forall|i: int| 0 <= i < k.len() implies #[trigger] k[i].0 < s.last().0 by {
            assert(t.contains(k[i]));
            let j = choose|j: int| 0 <= j < t.len() && t[j] == k[i];
            assert(s[j] == t[j]);
        }
        assert forall|i: int| 0 <= i < k.len() implies s.contains(#[trigger] k[i]) by {
            assert(t.contains(k[i]));
            let j = choose|j: int| 0 <= j < t.len() && t[j] == k[i];
            assert(s[j] == k[i]);
        }
        assert(s[s.len() - 1] == s.last());
    }
}

/// Finds and removes a category from a list without repeats, moving the last
/// entry into its place.
fn remove_category(cc: &mut Vec<C>, c: &C)
    requires
        old(cc)@.contains(*c),
        forall|i: int, j: int|
            0 <= i < j < old(cc)@.len() ==> #[trigger] old(cc)@[i] != #[trigger] old(cc)@[j],
    ensures
        final(cc)@ == swap_out(old(cc)@, *c),
{
    let ghost occ = cc@;
    let mut idx: usize = 0;
    while idx < cc.len() && cc[idx] != *c
        invariant
            cc@ == occ,
            idx <= cc.len(),
            forall|k: int| 0 <= k < idx ==> cc@[k] != *c,
        decreases cc.len() - idx,
    {
        idx += 1;
    }
    assert(idx < cc.len() && cc@[idx as int] == *c);
    let ghost i = choose|i: int| 0 <= i < occ.len() && occ[i] == *c;
    assert(i == idx) by {
        if i < idx {
            assert(occ[i] != occ[idx as int]);
        } else if i > idx {
            assert(occ[idx as int] != occ[i]);
        }
    }
    cc.swap_remove(idx);
}

/// Swapping a category out of a list without repeats leaves a list without
/// repeats whose entries are the old ones but that category.
proof fn lemma_swap_out(occ: Seq<C>, c: C)
    requires
        occ.contains(c),
        forall|i: int, j: int| 0 <= i < j < occ.len() ==> #[trigger] occ[i] != #[trigger] occ[j],
    ensures
        forall|i: int, j: int|
            0 <= i < j < swap_out(occ, c).len() ==> #[trigger] swap_out(occ, c)[i]
                != #[trigger] swap_out(occ, c)[j],
        forall|x: C| #[trigger] swap_out(occ, c).contains(x) <==> (occ.contains(x) && x != c),
{
    let i = choose|i: int| 0 <= i < occ.len() && occ[i] == c;
    let r = swap_out(occ, c);
    let n = occ.len() - 1;
    assert(r.len() == n);
    assert forall|a: int| 0 <= a < r.len() implies #[trigger] r[a] == (if a == i {
        occ[n]
    } else {
        occ[a]
    }) by {}
    assert forall|a: int, b: int| 0 <= a < b < r.len() implies #[trigger] r[a]
        != #[trigger] r[b] by {
        if a == i {
            assert(occ[b] != occ[n]);
        } else if b == i {
            assert(occ[a] != occ[n]);
        } else {
            assert(occ[a] != occ[b]);
        }
    }
    assert forall|x: C| #[trigger] r.contains(x) <==> (occ.contains(x) && x != c) by {
        if r.contains(x) {
            let a = choose|a: int| 0 <= a < r.len() && r[a] == x;
            if a == i {
                assert(occ[n] == x);
                assert(occ[i] != occ[n]);
            } else {
                assert(occ[a] == x);
                assert(occ[a] != occ[i]);
            }
        }
        if occ.contains(x) && x != c {
            let a = choose|a: int| 0 <= a < occ.len() && occ[a] == x;
            assert(a != i);
            if a == n {
                assert(r[i] == x);
            } else {
                assert(r[a] == x);
            }
        }
    }
}

/// The occupied categories and buckets after registering `cb` with id `id`:
/// the registration goes at the end of its category's bucket, and a category
/// without a bucket becomes occupied.
pub open spec fn register_one(
    occ: Seq<C>,
    b: Map<C, Seq<(u64, u64)>>,
    cb: CB,
    id: u64,
) -> (Seq<C>, Map<C, Seq<(u64, u64)>>) {
    let c = cb.category();
    (
        if b.dom().contains(c) {
            occ
        } else {
            occ.push(c)
        },
        b.insert(
            c,
            (if b.dom().contains(c) {
                b[c]
            } else {
                Seq::<(u64, u64)>::empty()
            }).push((id, cb.handle())),
        ),
    )
}

/// The occupied categories and buckets after registering callbacks in order,
/// with ids counting up from `next`.
pub open spec fn register_all(
    occ: Seq<C>,
    b: Map<C, Seq<(u64, u64)>>,
    next: u64,
    cbs: Seq<CB>,
) -> (Seq<C>, Map<C, Seq<(u64, u64)>>)
    decreases cbs.len(),
{
    if cbs.len() == 0 {
        (occ, b)
    } else {
        let p = register_all(occ, b, next, cbs.drop_last());
        register_one(p.0, p.1, cbs.last(), (next + cbs.len() - 1) as u64)
    }
}

/// Whether a category's bucket holds a registration with a given id.
pub open spec fn is_registered(b: Map<C, Seq<(u64, u64)>>, c: C, reg: u64) -> bool {
    b.dom().contains(c) && exists|i: int| 0 <= i < b[c].len() && #[trigger] b[c][i].0 == reg
}

/// Taking out one registration, if it is still there.
pub open spec fn unregister_one(
    occ: Seq<C>,
    b: Map<C, Seq<(u64, u64)>>,
    c: C,
    reg: u64,
) -> (Seq<C>, Map<C, Seq<(u64, u64)>>) {
    if is_registered(b, c, reg) {
        remove_one(occ, b, c, seq![reg])
    } else {
        (occ, b)
    }
}

/// The occupied categories and buckets after taking out registrations in order.
pub open spec fn unregister_all(
    occ: Seq<C>,
    b: Map<C, Seq<(u64, u64)>>,
    regs: Seq<(C, u64)>,
) -> (Seq<C>, Map<C, Seq<(u64, u64)>>)
    decreases regs.len(),
{
    if regs.len() == 0 {
        (occ, b)
    } else {
        let p = unregister_all(occ, b, regs.drop_last());
        unregister_one(p.0, p.1, regs.last().0, regs.last().1)
    }
}

/// Whether taking out registrations in order is possible: each one still there
/// can be taken out.
pub open spec fn unregister_all_ok(
    occ: Seq<C>,
    b: Map<C, Seq<(u64, u64)>>,
    regs: Seq<(C, u64)>,
) -> bool
    decreases regs.len(),
{
    if regs.len() == 0 {
        true
    } else {
        let p = unregister_all(occ, b, regs.drop_last());
        unregister_all_ok(occ, b, regs.drop_last()) && (is_registered(
            p.1,
            regs.last().0,
            regs.last().1,
        ) ==> remove_one_ok(p.0, p.1, regs.last().0, seq![regs.last().1]))
    }
}

/// A list of removals with each list of ids taken by its view.
pub open spec fn removals_view(r: Seq<(C, Vec<u64>)>) -> Seq<(C, Seq<u64>)> {
    r.map_values(|p: (C, Vec<u64>)| (p.0, p.1@))
}

proof fn lemma_ok_prefix(
    occ: Seq<C>,
    b: Map<C, Seq<(u64, u64)>>,
    rv: Seq<(C, Seq<u64>)>,
    j: int,
)
    requires
        remove_all_ok(occ, b, rv),
        0 <= j <= rv.len(),
    ensures
        remove_all_ok(occ, b, rv.take(j)),
    decreases rv.len() - j,
{
    if j == rv.len() {
        assert(rv.take(j) =~= rv);
    } else {
        lemma_ok_prefix(occ, b, rv, j + 1);
        assert(rv.take(j + 1).drop_last() =~= rv.take(j));
    }
}

proof fn lemma_unreg_ok_prefix(
    occ: Seq<C>,
    b: Map<C, Seq<(u64, u64)>>,
    regs: Seq<(C, u64)>,
    j: int,
)
    requires
        unregister_all_ok(occ, b, regs),
        0 <= j <= regs.len(),
    ensures
        unregister_all_ok(occ, b, regs.take(j)),
    decreases regs.len() - j,
{
    if j == regs.len() {
        assert(regs.take(j) =~= regs);
    } else {
        lemma_unreg_ok_prefix(occ, b, regs, j + 1);
        assert(regs.take(j + 1).drop_last() =~= regs.take(j));
    }
}

/// Removals merged by category: empty ones dropped, and the ids of each
/// category gathered, in order, under its first appearance.
pub open spec fn group(s: Seq<(C, Seq<u64>)>) -> Seq<(C, Seq<u64>)>
    decreases s.len(),
{
    if s.len() == 0 {
        s
    } else {
        let g = group(s.drop_last());
        let c = s.last().0;
        let r = s.last().1;
        if r.len() == 0 {
            g
        } else if exists|i: int| 0 <= i < g.len() && g[i].0 == c {
            let i = choose|i: int| 0 <= i < g.len() && g[i].0 == c;
            g.update(i, (c, g[i].1 + r))
        } else {
            g.push((c, r))
        }
    }
}

/// A copy of a list of ids followed by another.
fn concat_ids(a: &Vec<u64>, b: &Vec<u64>) -> (r: Vec<u64>)
    ensures
        r@ == a@ + b@,
{
    let mut r = Vec::new();
    let mut i: usize = 0;
    while i < a.len()
        invariant
            i <= a.len(),
            r@ == a@.take(i as int),
        decreases a.len() - i,
    {
        r.push(a[i]);
        i += 1;
        assert(r@ =~= a@.take(i as int));
    }
    let mut j: usize = 0;
    while j < b.len()
        invariant
            i == a.len(),
            j <= b.len(),
            r@ == a@ + b@.take(j as int),
        decreases b.len() - j,
    {
        r.push(b[j]);
        j += 1;
        assert(r@ =~= a@ + b@.take(j as int));
    }
    assert(a@.take(a.len() as int) =~= a@);
    assert(b@.take(b.len() as int) =~= b@);
    r
}

/// Merges the removals that firing produced, event by event, into one entry
/// per category, in the order the categories first appear; events that found
/// nothing to remove are dropped.
pub fn group_removals(rr: Vec<(C, Vec<u64>)>) -> (r: Vec<(C, Vec<u64>)>)
    ensures
        removals_view(r@) == group(removals_view(rr@)),
{
    let ghost rv = removals_view(rr@);
    let mut out: Vec<(C, Vec<u64>)> = Vec::new();
    let mut j: usize = 0;
    assert(removals_view(out@) =~= group(rv.take(0)));
    while j < rr.len()
        invariant
            rv == removals_view(rr@),
            j <= rr.len(),
            keys_unique(out@),
            removals_view(out@) == group(rv.take(j as int)),
        decreases rr.len() - j,
    {
        let ghost before = out@;
        let ghost g = group(rv.take(j as int));
        proof {
            assert(rv.take(j + 1).drop_last() =~= rv.take(j as int));
            assert(rv.take(j + 1).last() == rv[j as int]);
        }
        let c = rr[j].0;
        if rr[j].1.len() != 0 {
            match find_key(&out, &c) {
                Some(i) => {
                    let merged = concat_ids(&out[i].1, &rr[j].1);
                    proof {
                        assert(g[i as int].0 == c);
                        let k = choose|k: int| 0 <= k < g.len() && g[k].0 == c;
                        if k < i {
                            assert(before[k].0 != before[i as int].0);
                        } else if k > i {
                            assert(before[i as int].0 != before[k].0);
                        }
                    }
                    out[i] = (c, merged);
                    proof {
                        assert(keys_unique(out@)) by {
                            assert forall|a: int, b: int| 0 <= a < b < out@.len() implies #[trigger] out@[a].0
                                != #[trigger] out@[b].0 by {
                                assert(before[a].0 != before[b].0);
                            }
                        }
                        assert(removals_view(out@) =~= group(rv.take(j + 1)));
                    }
                },
                None => {
                    proof {
                        assert forall|k: int| 0 <= k < g.len() implies g[k].0 != c by {
                            assert(before[k].0 == g[k].0);
                            assert(map_of(before).dom().contains(before[k].0));
                        }
                    }
                    let copied = concat_ids(&Vec::new(), &rr[j].1);
                    out.push((c, copied));
                    proof {
                        assert(keys_unique(out@)) by {
                            assert forall|a: int, b: int| 0 <= a < b < out@.len() implies #[trigger] out@[a].0
                                != #[trigger] out@[b].0 by {
                                if b == before.len() {
                                    assert(map_of(before).dom().contains(before[a].0));
                                } else {
                                    assert(before[a].0 != before[b].0);
                                }
                            }
                        }
                        assert(removals_view(out@) =~= group(rv.take(j + 1)));
                    }
                },
            }
        } else {
            assert(removals_view(out@) =~= group(rv.take(j + 1)));
        }
        j += 1;
    }
    assert(rv.take(rr.len() as int) =~= rv);
    out
}

/// The registrations of each category and the categories to fire.
pub struct Manager {
    occupied: Vec<C>,
    buckets: Vec<(C, Vec<(u64, u64)>)>,
    next_reg: u64,
}

/// Whether the occupied list has no category twice and only categories that
/// have a bucket.
pub open spec fn occupied_ok(occ: Seq<C>, b: Map<C, Seq<(u64, u64)>>) -> bool {
    &&& forall|i: int, j: int| 0 <= i < j < occ.len() ==> #[trigger] occ[i] != #[trigger] occ[j]
    &&& forall|i: int| 0 <= i < occ.len() ==> b.dom().contains(#[trigger] occ[i])
}

/// Whether every registration id in the buckets is below `next`, and the ids
/// of each bucket increase.
pub open spec fn ids_ok(b: Map<C, Seq<(u64, u64)>>, next: u64) -> bool {
    forall|c: C|
        #[trigger] b.dom().contains(c) ==> (forall|i: int|
            0 <= i < b[c].len() ==> #[trigger] b[c][i].0 < next) && (forall|i: int, j: int|
            0 <= i < j < b[c].len() ==> #[trigger] b[c][i].0 < #[trigger] b[c][j].0)
}

impl Manager {
    /// The occupied categories, in the order they fire.
    pub closed spec fn occupied_view(&self) -> Seq<C> {
        self.occupied@
    }

    /// The registrations (id, handle) of each category that has a bucket.
    pub closed spec fn buckets_view(&self) -> Map<C, Seq<(u64, u64)>> {
        Map::new(
            |c: C| map_of(self.buckets@).dom().contains(c),
            |c: C| map_of(self.buckets@)[c]@,
        )
    }

    /// The id the next registration gets.
    pub closed spec fn next_id(&self) -> u64 {
        self.next_reg
    }

    /// The occupied list has no repeats and only categories with a bucket, and
    /// the ids of each bucket increase and lie below the next id.
    pub open spec fn well_formed(&self) -> bool {
        &&& occupied_ok(self.occupied_view(), self.buckets_view())
        &&& ids_ok(self.buckets_view(), self.next_id())
    }

    #[verifier::type_invariant]
    spec fn inv(&self) -> bool {
        &&& keys_unique(self.buckets@)
        &&& occupied_ok(self.occupied@, self.buckets_view())
        &&& ids_ok(self.buckets_view(), self.next_reg)
    }

    /// A manager with no registrations.
    pub fn new() -> (r: Self)
        ensures
            r.occupied_view() == Seq::<C>::empty(),
            r.buckets_view() == Map::<C, Seq<(u64, u64)>>::empty(),
            r.next_id() == 0,
            r.well_formed(),
    {
        let r = Manager { occupied: Vec::new(), buckets: Vec::new(), next_reg: 0 };
        assert(r.buckets_view() =~= Map::<C, Seq<(u64, u64)>>::empty());
        r
    }

    proof fn lemma_view_set(b: Seq<(C, Vec<(u64, u64)>)>, i: int, v: Vec<(u64, u64)>)
        requires
            keys_unique(b),
            0 <= i < b.len(),
        ensures
            keys_unique(b.update(i, (b[i].0, v))),
            Map::new(
                |c: C| map_of(b.update(i, (b[i].0, v))).dom().contains(c),
                |c: C| map_of(b.update(i, (b[i].0, v)))[c]@,
            ) == Map::new(|c: C| map_of(b).dom().contains(c), |c: C| map_of(b)[c]@).insert(
                b[i].0,
                v@,
            ),
    {
        crate::events::assoc::lemma_set(b, i, v);
        assert(Map::new(
            |c: C| map_of(b.update(i, (b[i].0, v))).dom().contains(c),
            |c: C| map_of(b.update(i, (b[i].0, v)))[c]@,
        ) =~= Map::new(|c: C| map_of(b).dom().contains(c), |c: C| map_of(b)[c]@).insert(
            b[i].0,
            v@,
        ));
    }

    proof fn lemma_view_push(b: Seq<(C, Vec<(u64, u64)>)>, c: C, v: Vec<(u64, u64)>)
        requires
            keys_unique(b),
            !map_of(b).dom().contains(c),
        ensures
            keys_unique(b.push((c, v))),
            Map::new(
                |k: C| map_of(b.push((c, v))).dom().contains(k),
                |k: C| map_of(b.push((c, v)))[k]@,
            ) == Map::new(|k: C| map_of(b).dom().contains(k), |k: C| map_of(b)[k]@).insert(c, v@),
    {
        crate::events::assoc::lemma_push(b, c, v);
        assert(Map::new(
            |k: C| map_of(b.push((c, v))).dom().contains(k),
            |k: C| map_of(b.push((c, v)))[k]@,
        ) =~= Map::new(|k: C| map_of(b).dom().contains(k), |k: C| map_of(b)[k]@).insert(c, v@));
    }

    /// Takes out, category by category in order, the registrations whose ids
    /// are listed; a category whose bucket empties stops being occupied.
    pub fn remove_matching(&mut self, removals: Vec<(C, Vec<u64>)>)
        requires
            remove_all_ok(
                old(self).occupied_view(),
                old(self).buckets_view(),
                removals_view(removals@),
            ),
        ensures
            (final(self).occupied_view(), final(self).buckets_view()) == remove_all(
                old(self).occupied_view(),
                old(self).buckets_view(),
                removals_view(removals@),
            ),
            final(self).next_id() == old(self).next_id(),
            final(self).well_formed(),
    {
        let mut tmp = Manager { occupied: Vec::new(), buckets: Vec::new(), next_reg: 0 };
        proof {
            assert(Map::new(
                |k: C| map_of(tmp.buckets@).dom().contains(k),
                |k: C| map_of(tmp.buckets@)[k]@,
            ) =~= Map::<C, Seq<(u64, u64)>>::empty());
        }
        std::mem::swap(&mut tmp, self);
        proof {
            use_type_invariant(&tmp);
        }
        let Manager { occupied: mut occupied, buckets: mut buckets, next_reg } = tmp;
        let ghost occ0 = occupied@;
        let ghost b0 = Map::new(
            |k: C| map_of(buckets@).dom().contains(k),
            |k: C| map_of(buckets@)[k]@,
        );
        let ghost rv = removals_view(removals@);
        let mut j: usize = 0;
        while j < removals.len()
            invariant
                rv == removals_view(removals@),
                remove_all_ok(occ0, b0, rv),
                j <= removals.len(),
                keys_unique(buckets@),
                occupied_ok(
                    occupied@,
                    Map::new(
                        |k: C| map_of(buckets@).dom().contains(k),
                        |k: C| map_of(buckets@)[k]@,
                    ),
                ),
                ids_ok(
                    Map::new(
                        |k: C| map_of(buckets@).dom().contains(k),
                        |k: C| map_of(buckets@)[k]@,
                    ),
                    next_reg,
                ),
                (occupied@, Map::new(
                    |k: C| map_of(buckets@).dom().contains(k),
                    |k: C| map_of(buckets@)[k]@,
                )) == remove_all(occ0, b0, rv.take(j as int)),
            decreases removals.len() - j,
        {
            let ghost bv = Map::new(
                |k: C| map_of(buckets@).dom().contains(k),
                |k: C| map_of(buckets@)[k]@,
            );
            let ghost occ_before = occupied@;
            proof {
                lemma_ok_prefix(occ0, b0, rv, j + 1);
                assert(rv.take(j + 1).drop_last() =~= rv.take(j as int));
                assert(rv.take(j + 1).last() == rv[j as int]);
            }
            let c = removals[j].0;
            let ghost rem = removals@[j as int].1@;
            assert(rv[j as int] == (c, rem));
            match find_key(&buckets, &c) {
                Some(i) => {
                    let ghost bs = buckets@;
                    proof {
                        crate::events::assoc::lemma_lookup(bs, i as int);
                    }
                    let kept = keep_entries(&buckets[i].1, &removals[j].1);
                    proof {
                        lemma_keep(bv[c], rem, next_reg);
                    }
                    if kept.len() == 0 {
                        proof {
                            lemma_swap_out(occupied@, c);
                        }
                        remove_category(&mut occupied, &c);
                    }
                    proof {
                        Self::lemma_view_set(bs, i as int, kept);
                    }
                    buckets[i] = (c, kept);
                    proof {
                        let nb = Map::new(
                            |k: C| map_of(buckets@).dom().contains(k),
                            |k: C| map_of(buckets@)[k]@,
                        );
                        assert(nb == bv.insert(c, keep(bv[c], rem)));
                        assert(nb.dom() =~= bv.dom());
                        assert forall|x: int| 0 <= x < occupied@.len() implies nb.dom().contains(
                            #[trigger] occupied@[x],
                        ) by {
                            if kept.len() == 0 {
                                assert(occupied@.contains(occupied@[x]));
                            } else {
                                assert(occupied@[x] == occ_before[x]);
                            }
                        }
                        assert(ids_ok(nb, next_reg)) by {
                            assert forall|k: C| #[trigger] nb.dom().contains(k) implies (forall|
                                a: int,
                            | 0 <= a < nb[k].len() ==> #[trigger] nb[k][a].0 < next_reg) && (
                            forall|a: int, b: int|
                                0 <= a < b < nb[k].len() ==> #[trigger] nb[k][a].0
                                    < #[trigger] nb[k][b].0) by {
                                if k != c {
                                    assert(nb[k] == bv[k]);
                                }
                            }
                        }
                    }
                },
                None => {
                    assert(false);
                },
            }
            j += 1;
        }
        assert(rv.take(removals.len() as int) =~= rv);
        *self = Manager { occupied, buckets, next_reg };
    }

    /// The id the next registration gets, read.
    pub fn peek_id(&self) -> (r: u64)
        ensures
            r == self.next_id(),
    {
        self.next_reg
    }

    /// The registrations of a category, in the order they fire (none for a
    /// category without a bucket).
    pub fn listeners(&self, c: &C) -> (r: Vec<(u64, u64)>)
        ensures
            r@ == (if self.buckets_view().dom().contains(*c) {
                self.buckets_view()[*c]
            } else {
                Seq::<(u64, u64)>::empty()
            }),
    {
        proof {
            use_type_invariant(self);
        }
        match find_key(&self.buckets, c) {
            Some(i) => {
                proof {
                    crate::events::assoc::lemma_lookup(self.buckets@, i as int);
                }
                copy_entries(&self.buckets[i].1)
            },
            None => Vec::new(),
        }
    }

    /// The occupied categories, in the order they fire.
    pub fn occupied(&self) -> (r: Vec<C>)
        ensures
            r@ == self.occupied_view(),
    {
        let mut r = Vec::new();
        let mut i: usize = 0;
        while i < self.occupied.len()
            invariant
                i <= self.occupied.len(),
                r@ == self.occupied@.take(i as int),
            decreases self.occupied.len() - i,
        {
            r.push(self.occupied[i]);
            i += 1;
            assert(r@ =~= self.occupied@.take(i as int));
        }
        assert(self.occupied@.take(self.occupied.len() as int) =~= self.occupied@);
        r
    }

    /// Whether a category's bucket holds a registration with a given id.
    fn holds(&self, c: &C, reg: u64) -> (r: bool)
        ensures
            r == is_registered(self.buckets_view(), *c, reg),
    {
        let v = self.listeners(c);
        let mut i: usize = 0;
        while i < v.len()
            invariant
                i <= v.len(),
                v@ == (if self.buckets_view().dom().contains(*c) {
                    self.buckets_view()[*c]
                } else {
                    Seq::<(u64, u64)>::empty()
                }),
                forall|k: int| 0 <= k < i ==> v@[k].0 != reg,
            decreases v.len() - i,
        {
            if v[i].0 == reg {
                assert(self.buckets_view()[*c][i as int].0 == reg);
                return true;
            }
            i += 1;
        }
        false
    }

    /// Takes out one registration.
    fn unregister(&mut self, c: C, reg: u64)
        requires
            remove_one_ok(old(self).occupied_view(), old(self).buckets_view(), c, seq![reg]),
        ensures
            (final(self).occupied_view(), final(self).buckets_view()) == remove_one(
                old(self).occupied_view(),
                old(self).buckets_view(),
                c,
                seq![reg],
            ),
            final(self).next_id() == old(self).next_id(),
    {
        let mut rem = Vec::new();
        rem.push(reg);
        let mut removals = Vec::new();
        removals.push((c, rem));
        let ghost rv = removals_view(removals@);
        proof {
            assert(rem@ =~= seq![reg]);
            assert(rv.len() == 1);
            assert(rv[0] == (c, seq![reg]));
            assert(rv.drop_last() =~= Seq::<(C, Seq<u64>)>::empty());
            assert(rv.last() == (c, seq![reg]));
            assert(remove_all(
                self.occupied_view(),
                self.buckets_view(),
                rv.drop_last(),
            ) == (self.occupied_view(), self.buckets_view()));
            assert(remove_all_ok(self.occupied_view(), self.buckets_view(), rv.drop_last()));
        }
        self.remove_matching(removals);
    }

    /// Carries out a request: registers callbacks in order and answers their
    /// registration ids, or takes out the registrations still there, in order.
    pub fn handle_req(&mut self, req: RegRequest) -> (r: RegResponse)
        requires
            req matches RegRequest::Register(_, cbs) ==> old(self).next_id() + cbs.len()
                <= u64::MAX,
            req matches RegRequest::Unregister(regs) ==> unregister_all_ok(
                old(self).occupied_view(),
                old(self).buckets_view(),
                regs@,
            ),
        ensures
            req matches RegRequest::Register(c, cbs) ==> {
                &&& r matches RegResponse::Register(rc, ids) && rc == c && ids.len() == cbs.len()
                    && forall|i: int| 0 <= i < ids.len() ==> #[trigger] ids@[i] == old(self).next_id() + i
                &&& (final(self).occupied_view(), final(self).buckets_view()) == register_all(
                    old(self).occupied_view(),
                    old(self).buckets_view(),
                    old(self).next_id(),
                    cbs@,
                )
                &&& final(self).next_id() == old(self).next_id() + cbs.len()
            },
            req matches RegRequest::Unregister(regs) ==> {
                &&& r is Unregister
                &&& (final(self).occupied_view(), final(self).buckets_view()) == unregister_all(
                    old(self).occupied_view(),
                    old(self).buckets_view(),
                    regs@,
                )
                &&& final(self).next_id() == old(self).next_id()
            },
            final(self).well_formed(),
    {
        match req {
            RegRequest::Register(c, cbs) => {
                let ghost occ0 = self.occupied_view();
                let ghost b0 = self.buckets_view();
                let ghost n0 = self.next_id();
                let mut ids: Vec<u64> = Vec::new();
                let mut i: usize = 0;
                while i < cbs.len()
                    invariant
                        i <= cbs.len(),
                        n0 + cbs.len() <= u64::MAX,
                        self.next_id() == n0 + i,
                        ids.len() == i,
                        forall|k: int| 0 <= k < i ==> #[trigger] ids@[k] == n0 + k,
                        (self.occupied_view(), self.buckets_view()) == register_all(
                            occ0,
                            b0,
                            n0,
                            cbs@.take(i as int),
                        ),
                    decreases cbs.len() - i,
                {
                    let id = self.register(cbs[i]);
                    ids.push(id);
                    i += 1;
                    assert(cbs@.take(i as int).drop_last() =~= cbs@.take(i - 1));
                    assert(cbs@.take(i as int).last() == cbs@[i - 1]);
                }
                assert(cbs@.take(cbs.len() as int) =~= cbs@);
                proof {
                    use_type_invariant(&*self);
                }
                RegResponse::Register(c, ids)
            },
            RegRequest::Unregister(regs) => {
                let ghost occ0 = self.occupied_view();
                let ghost b0 = self.buckets_view();
                let mut i: usize = 0;
                while i < regs.len()
                    invariant
                        i <= regs.len(),
                        unregister_all_ok(occ0, b0, regs@),
                        unregister_all_ok(occ0, b0, regs@.take(i as int)),
                        (self.occupied_view(), self.buckets_view()) == unregister_all(
                            occ0,
                            b0,
                            regs@.take(i as int),
                        ),
                        self.next_id() == old(self).next_id(),
                    decreases regs.len() - i,
                {
                    proof {
                        lemma_unreg_ok_prefix(occ0, b0, regs@, i + 1);
                        assert(regs@.take(i + 1).drop_last() =~= regs@.take(i as int));
                        assert(regs@.take(i + 1).last() == regs@[i as int]);
                    }
                    let (c, reg) = regs[i];
                    if self.holds(&c, reg) {
                        self.unregister(c, reg);
                    }
                    i += 1;
                }
                assert(regs@.take(regs.len() as int) =~= regs@);
                proof {
                    use_type_invariant(&*self);
                }
                RegResponse::Unregister
            },
        }
    }

    /// Registers a callback at the end of its category's bucket; a category
    /// that had no bucket yet becomes occupied. Returns the registration id.
    pub fn register(&mut self, cb: CB) -> (r: u64)
        requires
            old(self).next_id() < u64::MAX,
        ensures
            r == old(self).next_id(),
            final(self).next_id() == old(self).next_id() + 1,
            (final(self).occupied_view(), final(self).buckets_view()) == register_one(
                old(self).occupied_view(),
                old(self).buckets_view(),
                cb,
                r,
            ),
            forall|k: C| !is_registered(old(self).buckets_view(), k, r),
            final(self).well_formed(),
    {
        let mut tmp = Manager { occupied: Vec::new(), buckets: Vec::new(), next_reg: 0 };
        proof {
            assert(Map::new(
                |k: C| map_of(tmp.buckets@).dom().contains(k),
                |k: C| map_of(tmp.buckets@)[k]@,
            ) =~= Map::<C, Seq<(u64, u64)>>::empty());
        }
        std::mem::swap(&mut tmp, self);
        proof {
            use_type_invariant(&tmp);
        }
        let Manager { occupied: mut occupied, buckets: mut buckets, next_reg: reg } = tmp;
        proof {
            let bv0 = Map::new(
                |k: C| map_of(buckets@).dom().contains(k),
                |k: C| map_of(buckets@)[k]@,
            );
            assert forall|k: C| !is_registered(bv0, k, reg) by {
                if bv0.dom().contains(k) {
                    assert(forall|i: int| 0 <= i < bv0[k].len() ==> #[trigger] bv0[k][i].0 < reg);
                }
            }
        }
        let c = cb.c;
        let ghost old_b = Map::new(
            |k: C| map_of(buckets@).dom().contains(k),
            |k: C| map_of(buckets@)[k]@,
        );
        let ghost b0 = buckets@;
        match find_key(&buckets, &c) {
            Some(i) => {
                let mut v = copy_entries(&buckets[i].1);
                v.push((reg, cb.cb));
                proof {
                    crate::events::assoc::lemma_lookup(b0, i as int);
                    Self::lemma_view_set(b0, i as int, v);
                }
                buckets[i] = (c, v);
            },
            None => {
                occupied.push(c);
                let mut v = Vec::new();
                v.push((reg, cb.cb));
                proof {
                    Self::lemma_view_push(b0, c, v);
                }
                buckets.push((c, v));
            },
        }
        let ghost new_b = Map::new(
            |k: C| map_of(buckets@).dom().contains(k),
            |k: C| map_of(buckets@)[k]@,
        );
        assert(occupied_ok(occupied@, new_b));
        assert(ids_ok(new_b, (reg + 1) as u64)) by {
            assert forall|k: C| #[trigger] new_b.dom().contains(k) implies (forall|i: int|
                0 <= i < new_b[k].len() ==> #[trigger] new_b[k][i].0 < reg + 1) && (forall|
                i: int,
                j: int,
            |
                0 <= i < j < new_b[k].len() ==> #[trigger] new_b[k][i].0
                    < #[trigger] new_b[k][j].0) by {
                if k != c {
                    assert(old_b.dom().contains(k));
                    assert(new_b[k] == old_b[k]);
                } else {
                    let prev = if old_b.dom().contains(c) {
                        old_b[c]
                    } else {
                        Seq::<(u64, u64)>::empty()
                    };
                    assert(new_b[k] == prev.push((reg, cb.cb)));
                    assert(forall|i: int| 0 <= i < prev.len() ==> #[trigger] prev[i].0 < reg);
                }
            }
        }
        *self = Manager { occupied, buckets, next_reg: reg + 1 };
        reg
    }
}

proof fn lemma_keep_all(s: Seq<(u64, u64)>, rem: Seq<u64>)
    requires
        forall|i: int| 0 <= i < s.len() ==> !rem.contains(#[trigger] s[i].0),
    ensures
        keep(s, rem) == s,
    decreases s.len(),
{
    if s.len() > 0 {
        lemma_keep_all(s.drop_last(), rem);
        assert(s.drop_last().push(s.last()) =~= s);
    }
}

proof fn lemma_keep_complete(s: Seq<(u64, u64)>, rem: Seq<u64>, e: (u64, u64))
    requires
        s.contains(e),
        !rem.contains(e.0),
    ensures
        keep(s, rem).contains(e),
    decreases s.len(),
{
    if s.last() == e {
        assert(keep(s, rem).last() == e);
        assert(keep(s, rem)[keep(s, rem).len() - 1] == e);
    } else {
        let i = choose|i: int| 0 <= i < s.len() && s[i] == e;
        assert(s.drop_last()[i] == e);
        lemma_keep_complete(s.drop_last(), rem, e);
        let k = keep(s.drop_last(), rem);
        let j = choose|j: int| 0 <= j < k.len() && k[j] == e;
        if !rem.contains(s.last().0) {
            assert(keep(s, rem)[j] == e);
        }
    }
}

/// Registering a callback for a category whose bucket already holds
/// registrations, and then taking out that registration, leaves the occupied
/// categories and all buckets exactly as they were.
pub proof fn law_register_then_remove(
    occ: Seq<C>,
    b: Map<C, Seq<(u64, u64)>>,
    next: u64,
    cb: CB,
)
    requires
        ids_ok(b, next),
        b.dom().contains(cb.category()),
        b[cb.category()].len() > 0,
    ensures
        ({
            let p = register_one(occ, b, cb, next);
            remove_one(p.0, p.1, cb.category(), seq![next])
        }) == (occ, b),
{
    let c = cb.category();
    let s = b[c].push((next, cb.handle()));
    let rem = seq![next];
    assert(rem.contains(next)) by {
        assert(rem[0] == next);
    }
    assert(forall|i: int| 0 <= i < b[c].len() ==> #[trigger] b[c][i].0 < next);
    assert forall|i: int| 0 <= i < b[c].len() implies !rem.contains(#[trigger] b[c][i].0) by {
        if rem.contains(b[c][i].0) {
            let k = choose|k: int| 0 <= k < rem.len() && rem[k] == b[c][i].0;
            assert(rem[k] == next);
        }
    }
    lemma_keep_all(b[c], rem);
    assert(s.drop_last() =~= b[c]);
    assert(keep(s, rem) == b[c]);
    let p = register_one(occ, b, cb, next);
    assert(p.1.insert(c, b[c]) =~= b);
}

/// Taking out a list of ids from a category's bucket leaves none of those ids
/// in it, keeps every other registration of it, adds none, and changes no other
/// category's bucket.
pub proof fn law_remove_takes_out_exactly(
    occ: Seq<C>,
    b: Map<C, Seq<(u64, u64)>>,
    next: u64,
    c: C,
    rem: Seq<u64>,
)
    requires
        ids_ok(b, next),
        b.dom().contains(c),
    ensures
        ({
            let nb = remove_one(occ, b, c, rem).1[c];
            &&& forall|i: int| 0 <= i < nb.len() ==> !rem.contains(#[trigger] nb[i].0)
            &&& forall|i: int| 0 <= i < nb.len() ==> b[c].contains(#[trigger] nb[i])
            &&& forall|e: (u64, u64)| #[trigger] b[c].contains(e) && !rem.contains(e.0) ==> nb.contains(e)
        }),
        forall|k: C| k != c && b.dom().contains(k) ==> #[trigger] remove_one(occ, b, c, rem).1[k]
            == b[k],
{
    lemma_keep(b[c], rem, next);
    assert forall|e: (u64, u64)| #[trigger] b[c].contains(e) && !rem.contains(e.0) implies keep(
        b[c],
        rem,
    ).contains(e) by {
        lemma_keep_complete(b[c], rem, e);
    }
}

/// Whether some removal of the list takes the id `id` out of category `c`.
pub open spec fn listed_for_removal(removals: Seq<(C, Seq<u64>)>, c: C, id: u64) -> bool {
    exists|k: int| 0 <= k < removals.len() && removals[k].0 == c && #[trigger] removals[k].1.contains(id)
}

/// Carrying out a list of removals is carrying out its first entries and then
/// the last one; no removal at all changes nothing.
pub proof fn law_removals_apply_in_turn(
    occ: Seq<C>,
    b: Map<C, Seq<(u64, u64)>>,
    removals: Seq<(C, Seq<u64>)>,
    c: C,
    rem: Seq<u64>,
)
    ensures
        remove_all(occ, b, Seq::<(C, Seq<u64>)>::empty()) == (occ, b),
        ({
            let prev = remove_all(occ, b, removals);
            remove_all(occ, b, removals.push((c, rem))) == remove_one(prev.0, prev.1, c, rem)
        }),
{
    assert(removals.push((c, rem)).drop_last() =~= removals);
}

/// Every listed removal takes effect: afterwards no registration of a listed
/// category has an id listed for it. Nothing else goes: a registration whose
/// id no entry lists for its category stays, no registration is added, and
/// the same categories have buckets. A category stays occupied exactly while
/// its bucket holds registrations: one whose listed removals empty it is no
/// longer occupied, and no category becomes occupied.
pub proof fn law_remove_all_takes_effect(
    occ: Seq<C>,
    b: Map<C, Seq<(u64, u64)>>,
    removals: Seq<(C, Seq<u64>)>,
)
    requires
        occupied_ok(occ, b),
        remove_all_ok(occ, b, removals),
    ensures
        ({
            let r = remove_all(occ, b, removals);
            &&& r.1.dom() == b.dom()
            &&& forall|k: int, i: int|
                0 <= k < removals.len() && 0 <= i < r.1[removals[k].0].len() ==> !removals[k].1.contains(
                    #[trigger] r.1[removals[k].0][i].0,
                )
            &&& forall|c: C, i: int|
                b.dom().contains(c) && 0 <= i < r.1[c].len() ==> b[c].contains(#[trigger] r.1[c][i])
            &&& forall|c: C, e: (u64, u64)|
                b.dom().contains(c) && #[trigger] b[c].contains(e) && !listed_for_removal(removals, c, e.0)
                    ==> r.1[c].contains(e)
            &&& forall|c: C| #[trigger] r.0.contains(c) ==> occ.contains(c)
            &&& forall|c: C| occ.contains(c) && r.1[c].len() > 0 ==> #[trigger] r.0.contains(c)
            &&& forall|k: int|
                0 <= k < removals.len() && r.1[#[trigger] removals[k].0].len() == 0 ==> !r.0.contains(
                    removals[k].0,
                )
            &&& forall|i: int, j: int| 0 <= i < j < r.0.len() ==> #[trigger] r.0[i] != #[trigger] r.0[j]
        }),
    decreases removals.len(),
{
    if removals.len() > 0 {
        let pre = removals.drop_last();
        let n = removals.len() - 1;
        law_remove_all_takes_effect(occ, b, pre);
        let prev = remove_all(occ, b, pre);
        let c = removals.last().0;
        let rem = removals.last().1;
        let kept = keep(prev.1[c], rem);
        let r = remove_all(occ, b, removals);
        assert(r == remove_one(prev.0, prev.1, c, rem));
        assert(removals[n] == (c, rem));
        lemma_keep_within(prev.1[c], rem);
        if kept.len() == 0 {
            lemma_swap_out(prev.0, c);
        }
        assert forall|k: int| 0 <= k < n implies #[trigger] removals[k] == pre[k] by {}
        assert forall|k: int, i: int|
            0 <= k < removals.len() && 0 <= i < r.1[removals[k].0].len() implies !removals[k].1.contains(
                #[trigger] r.1[removals[k].0][i].0,
            ) by {
            let ck = removals[k].0;
            if k < n {
                assert(pre[k] == removals[k]);
                if ck == c {
                    assert(prev.1[c].contains(kept[i]));
                    let j = choose|j: int| 0 <= j < prev.1[c].len() && prev.1[c][j] == kept[i];
                    assert(!pre[k].1.contains(prev.1[pre[k].0][j].0));
                } else {
                    assert(r.1[ck] == prev.1[ck]);
                    assert(!pre[k].1.contains(prev.1[pre[k].0][i].0));
                }
            }
        }
        assert forall|x: C, i: int|
            b.dom().contains(x) && 0 <= i < r.1[x].len() implies b[x].contains(#[trigger] r.1[x][i]) by {
            if x == c {
                assert(prev.1[c].contains(kept[i]));
                let j = choose|j: int| 0 <= j < prev.1[c].len() && prev.1[c][j] == kept[i];
                assert(b[c].contains(prev.1[c][j]));
            } else {
                assert(b[x].contains(prev.1[x][i]));
            }
        }
        assert forall|x: C, e: (u64, u64)|
            b.dom().contains(x) && #[trigger] b[x].contains(e) && !listed_for_removal(removals, x, e.0)
                implies r.1[x].contains(e) by {
            if listed_for_removal(pre, x, e.0) {
                let k = choose|k: int| 0 <= k < pre.len() && pre[k].0 == x && #[trigger] pre[k].1.contains(e.0);
                assert(removals[k] == pre[k]);
            }
            assert(prev.1[x].contains(e));
            if x == c {
                if rem.contains(e.0) {
                    assert(removals[n].1.contains(e.0));
                }
                lemma_keep_complete(prev.1[c], rem, e);
            }
        }
        assert forall|x: C| occ.contains(x) && r.1[x].len() > 0 implies #[trigger] r.0.contains(x) by {
            if x == c {
                assert(prev.1[c].len() > 0);
            } else {
                assert(prev.1[x] == r.1[x]);
            }
        }
        assert forall|k: int|
            0 <= k < removals.len() && r.1[#[trigger] removals[k].0].len() == 0 implies !r.0.contains(
                removals[k].0,
            ) by {
            if k < n && removals[k].0 != c {
                assert(pre[k] == removals[k]);
                assert(prev.1[pre[k].0] == r.1[removals[k].0]);
            }
        }
    }
}

proof fn lemma_keep_within(s: Seq<(u64, u64)>, rem: Seq<u64>)
    ensures
        forall|i: int| 0 <= i < keep(s, rem).len() ==> s.contains(#[trigger] keep(s, rem)[i]),
        forall|i: int| 0 <= i < keep(s, rem).len() ==> !rem.contains(#[trigger] keep(s, rem)[i].0),
    decreases s.len(),
{
    if s.len() > 0 {
        let t = s.drop_last();
        lemma_keep_within(t, rem);
        let k = keep(t, rem);
        assert forall|i: int| 0 <= i < k.len() implies s.contains(#[trigger] k[i]) by {
            assert(t.contains(k[i]));
            let j = choose|j: int| 0 <= j < t.len() && t[j] == k[i];
            assert(s[j] == k[i]);
        }
        assert(s[s.len() - 1] == s.last());
    }
}

} // verus!
