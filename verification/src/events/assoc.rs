//! Association lists keyed by event category: the map each stands for, and
//! how lookups, updates and appends act on it.
use vstd::prelude::*;
use crate::events::hal::C;

verus! {

/// Whether no category occurs twice in an association list.
pub open spec fn keys_unique<K, V>(s: Seq<(K, V)>) -> bool {
    forall|i: int, j: int| 0 <= i < j < s.len() ==> #[trigger] s[i].0 != #[trigger] s[j].0
}

/// The map an association list stands for.
pub open spec fn map_of<K, V>(s: Seq<(K, V)>) -> Map<K, V> {
    Map::new(
        |c: K| exists|i: int| 0 <= i < s.len() && s[i].0 == c,
        |c: K| s[choose|i: int| 0 <= i < s.len() && s[i].0 == c].1,
    )
}

pub proof fn lemma_lookup<K, V>(s: Seq<(K, V)>, i: int)
    requires
        keys_unique(s),
        0 <= i < s.len(),
    ensures
        map_of(s).dom().contains(s[i].0),
        map_of(s)[s[i].0] == s[i].1,
{
    let c = s[i].0;
    assert(map_of(s).dom().contains(c));
    let j = choose|j: int| 0 <= j < s.len() && s[j].0 == c;
    if j < i {
        assert(s[j].0 != s[i].0);
    } else if j > i {
        assert(s[i].0 != s[j].0);
    }
}

pub proof fn lemma_set<K, V>(s: Seq<(K, V)>, i: int, v: V)
    requires
        keys_unique(s),
        0 <= i < s.len(),
    ensures
        keys_unique(s.update(i, (s[i].0, v))),
        map_of(s.update(i, (s[i].0, v))) == map_of(s).insert(s[i].0, v),
{
    let c = s[i].0;
    let t = s.update(i, (c, v));
    assert(keys_unique(t)) by {
        assert forall|a: int, b: int| 0 <= a < b < t.len() implies #[trigger] t[a].0
            != #[trigger] t[b].0 by {
            assert(s[a].0 != s[b].0);
        }
    }
    assert forall|k: K| #[trigger] map_of(t).dom().contains(k) <==> map_of(s).insert(
        c,
        v,
    ).dom().contains(k) by {
        if map_of(t).dom().contains(k) {
            let j = choose|j: int| 0 <= j < t.len() && t[j].0 == k;
            assert(s[j].0 == k);
        }
        if map_of(s).dom().contains(k) {
            let j = choose|j: int| 0 <= j < s.len() && s[j].0 == k;
            assert(t[j].0 == k);
        }
        if k == c {
            assert(t[i].0 == k);
        }
    }
    assert forall|k: K| #[trigger] map_of(t).dom().contains(k) implies map_of(t)[k] == map_of(
        s,
    ).insert(c, v)[k] by {
        let j = choose|j: int| 0 <= j < t.len() && t[j].0 == k;
        lemma_lookup(t, j);
        if k != c {
            assert(j != i);
            lemma_lookup(s, j);
        } else {
            lemma_lookup(t, i);
        }
    }
    assert(map_of(t) =~= map_of(s).insert(c, v));
}

pub proof fn lemma_push<K, V>(s: Seq<(K, V)>, c: K, v: V)
    requires
        keys_unique(s),
        !map_of(s).dom().contains(c),
    ensures
        keys_unique(s.push((c, v))),
        map_of(s.push((c, v))) == map_of(s).insert(c, v),
{
    let t = s.push((c, v));
    assert(keys_unique(t)) by {
        assert forall|a: int, b: int| 0 <= a < b < t.len() implies #[trigger] t[a].0
            != #[trigger] t[b].0 by {
            if b == s.len() {
                assert(s[a].0 == t[a].0);
            } else {
                assert(s[a].0 != s[b].0);
            }
        }
    }
    assert forall|k: K| #[trigger] map_of(t).dom().contains(k) <==> map_of(s).insert(
        c,
        v,
    ).dom().contains(k) by {
        if map_of(t).dom().contains(k) && k != c {
            let j = choose|j: int| 0 <= j < t.len() && t[j].0 == k;
            assert(j < s.len());
            assert(s[j].0 == k);
        }
        if map_of(s).dom().contains(k) {
            let j = choose|j: int| 0 <= j < s.len() && s[j].0 == k;
            assert(t[j].0 == k);
        }
        if k == c {
            assert(t[s.len() as int].0 == k);
        }
    }
    assert forall|k: K| #[trigger] map_of(t).dom().contains(k) implies map_of(t)[k] == map_of(
        s,
    ).insert(c, v)[k] by {
        let j = choose|j: int| 0 <= j < t.len() && t[j].0 == k;
        lemma_lookup(t, j);
        if j < s.len() {
            assert(s[j] == t[j]);
            lemma_lookup(s, j);
        }
    }
    assert(map_of(t) =~= map_of(s).insert(c, v));
}

/// Position of a category in an association list, if it is there.
pub fn find_key<V>(m: &Vec<(C, V)>, c: &C) -> (r: Option<usize>)
    ensures
        r matches Some(i) ==> i < m.len() && m@[i as int].0 == *c,
        r is None ==> !map_of(m@).dom().contains(*c),
{
    let mut i: usize = 0;
    while i < m.len()
        invariant
            i <= m.len(),
            forall|j: int| 0 <= j < i ==> m@[j].0 != *c,
        decreases m.len() - i,
    {
        if m[i].0 == *c {
            return Some(i);
        }
        i += 1;
    }
    None
}

} // verus!
