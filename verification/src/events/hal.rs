//! Events of all kinds: their categories, their values, and the store of the
//! latest value of each category.
use vstd::prelude::*;
use crate::events::{axis, button, pos};
use crate::events::assoc::{find_key, keys_unique, map_of};

verus! {

/// The category of an event.
#[derive(Debug, Hash, Copy, Clone, PartialEq, Eq, Structural)]
pub enum C {
    A(axis::C),
    P(pos::C),
    B(button::C),
    Ignored,
    Unknown,
}

/// The value of an event.
#[derive(Debug, Copy, Clone, PartialEq, Eq, Structural)]
pub enum V {
    A(axis::V),
    P(pos::V),
    B(button::V),
    Ignored,
    Unknown,
}

/// The value a category has before any event: each kind's own default, and
/// `Ignored` for the ignored and unknown categories.
pub open spec fn spec_default_v(c: C) -> V {
    match c {
        C::A(_) => V::A(axis::V::Scroll(0)),
        C::P(_) => V::P(pos::V::MousePos(pos::PosState(0, 0))),
        C::B(b_c) => V::B(button::V(b_c, button::State::UP)),
        _ => V::Ignored,
    }
}

/// The category of a value of one of the three kinds.
pub open spec fn spec_category(v: V) -> C {
    match v {
        V::A(a_v) => C::A(
            match a_v {
                axis::V::Scroll(_) => axis::C::Scroll,
            },
        ),
        V::P(p_v) => C::P(
            match p_v {
                pos::V::MousePos(_) => pos::C::MousePos,
                pos::V::MouseDelta(_) => pos::C::MouseDelta,
                pos::V::ScreenPos(_) => pos::C::ScreenPos,
                pos::V::ScreenSz(_) => pos::C::ScreenSz,
                pos::V::CursorPos(_) => pos::C::CursorPos,
            },
        ),
        V::B(b_v) => C::B(b_v.0),
        V::Ignored => C::Ignored,
        V::Unknown => C::Unknown,
    }
}

impl C {
    /// The value this category has before any event.
    pub fn default_v(&self) -> (r: V)
        ensures
            r == spec_default_v(*self),
    {
        match self {
            C::A(a_c) => V::A(axis::V::default_value_of(a_c)),
            C::P(p_c) => V::P(pos::V::default_value_of(p_c)),
            C::B(b_c) => V::B(button::V::default_value_of(b_c)),
            _ => V::Ignored,
        }
    }
}

impl From<axis::C> for C {
    fn from(c: axis::C) -> (r: C) {
        C::A(c)
    }
}

impl vstd::std_specs::convert::FromSpecImpl<axis::C> for C {
    open spec fn obeys_from_spec() -> bool {
        true
    }

    open spec fn from_spec(c: axis::C) -> C {
        C::A(c)
    }
}

impl From<pos::C> for C {
    fn from(k: pos::C) -> (r: C) {
        C::P(k)
    }
}

impl vstd::std_specs::convert::FromSpecImpl<pos::C> for C {
    open spec fn obeys_from_spec() -> bool {
        true
    }

    open spec fn from_spec(k: pos::C) -> C {
        C::P(k)
    }
}

impl From<button::C> for C {
    fn from(c: button::C) -> (r: C) {
        C::B(c)
    }
}

impl vstd::std_specs::convert::FromSpecImpl<button::C> for C {
    open spec fn obeys_from_spec() -> bool {
        true
    }

    open spec fn from_spec(c: button::C) -> C {
        C::B(c)
    }
}

impl From<axis::V> for V {
    fn from(v: axis::V) -> (r: V) {
        V::A(v)
    }
}

impl vstd::std_specs::convert::FromSpecImpl<axis::V> for V {
    open spec fn obeys_from_spec() -> bool {
        true
    }

    open spec fn from_spec(v: axis::V) -> V {
        V::A(v)
    }
}

impl From<pos::V> for V {
    fn from(v: pos::V) -> (r: V) {
        V::P(v)
    }
}

impl vstd::std_specs::convert::FromSpecImpl<pos::V> for V {
    open spec fn obeys_from_spec() -> bool {
        true
    }

    open spec fn from_spec(v: pos::V) -> V {
        V::P(v)
    }
}

impl From<button::V> for V {
    fn from(v: button::V) -> (r: V) {
        V::B(v)
    }
}

impl vstd::std_specs::convert::FromSpecImpl<button::V> for V {
    open spec fn obeys_from_spec() -> bool {
        true
    }

    open spec fn from_spec(v: button::V) -> V {
        V::B(v)
    }
}

impl V {
    /// The category of a value of one of the three kinds (the ignored and
    /// unknown values have none).
    pub fn category(&self) -> (r: C)
        requires
            !(*self is Ignored),
            !(*self is Unknown),
        ensures
            r == spec_category(*self),
    {
        match self {
            V::A(v) => C::A(axis::C::from(*v)),
            V::P(v) => C::P(pos::C::from(*v)),
            V::B(v) => C::B(button::C::from(*v)),
            V::Ignored => vstd::pervasive::unreached(),
            V::Unknown => vstd::pervasive::unreached(),
        }
    }
}

/// The latest value of each category that has seen an event.
pub struct State {
    m: Vec<(C, V)>,
}

impl State {
    #[verifier::type_invariant]
    spec fn inv(&self) -> bool {
        keys_unique(self.m@)
    }

    /// The latest value of each category that has seen an event.
    pub closed spec fn values(&self) -> Map<C, V> {
        map_of(self.m@)
    }

    /// Records an event's value as the latest of its category, and returns the
    /// category together with the value; an ignored value records nothing.
    pub fn update<'a>(&mut self, v: &'a V) -> (r: (C, &'a V))
        requires
            !(*v is Unknown),
        ensures
            *v is Ignored ==> r.0 == C::Ignored && *r.1 == V::Ignored && final(self).values()
                == old(self).values(),
            !(*v is Ignored) ==> r.0 == spec_category(*v) && *r.1 == *v && final(self).values()
                == old(self).values().insert(r.0, *v),
    {
        match v {
            V::Ignored => (C::Ignored, &V::Ignored),
            _ => {
                let c = v.category();
                proof {
                    use_type_invariant(&*self);
                }
                let mut m = Vec::new();
                std::mem::swap(&mut m, &mut self.m);
                match find_key(&m, &c) {
                    Some(i) => {
                        proof {
                            crate::events::assoc::lemma_set(m@, i as int, *v);
                        }
                        m.set(i, (c, *v));
                    },
                    None => {
                        proof {
                            crate::events::assoc::lemma_push(m@, c, *v);
                        }
                        m.push((c, *v));
                    },
                }
                self.m = m;
                (c, v)
            },
        }
    }

    /// The latest value of a category, or its default if it has seen no event.
    pub fn get(&self, c: &C) -> (r: V)
        ensures
            r == spec_lookup(self.values(), *c),
    {
        proof {
            use_type_invariant(self);
        }
        match find_key(&self.m, c) {
            Some(i) => {
                proof {
                    crate::events::assoc::lemma_lookup(self.m@, i as int);
                }
                self.m[i].1.clone()
            },
            None => c.default_v(),
        }
    }
}

impl Default for State {
    /// A store in which no category has seen an event.
    fn default() -> (r: Self)
        ensures
            r.values() == Map::<C, V>::empty(),
    {
        let r = State { m: Vec::new() };
        assert(r.values() =~= Map::<C, V>::empty());
        r
    }
}

/// What a store answers for a category: its latest value, or its default.
pub open spec fn spec_lookup(values: Map<C, V>, c: C) -> V {
    if values.dom().contains(c) {
        values[c]
    } else {
        spec_default_v(c)
    }
}

/// After an event's value is recorded, the store answers that value for the
/// event's category and answers every other category as before; recording an
/// ignored value changes no answer.
pub proof fn law_update_then_get(values: Map<C, V>, v: V, c: C)
    requires
        !(v is Unknown),
    ensures
        !(v is Ignored) ==> spec_lookup(values.insert(spec_category(v), v), spec_category(v)) == v,
        !(v is Ignored) && c != spec_category(v) ==> spec_lookup(
            values.insert(spec_category(v), v),
            c,
        ) == spec_lookup(values, c),
{
}

/// Each value is filed under the category of its own kind: a scroll under
/// scroll, a mouse position under mouse position, a mouse displacement under
/// mouse displacement, a screen position, size or cursor position under its
/// own, and a button's state under that button. Recording a value then makes
/// its own category answer it, whatever the store held before.
pub proof fn law_value_filed_under_own_kind(values: Map<C, V>)
    ensures
        forall|s: u32| spec_category(V::A(axis::V::Scroll(s))) == C::A(axis::C::Scroll),
        forall|p: pos::PosState|
            spec_category(V::P(pos::V::MousePos(p))) == C::P(pos::C::MousePos),
        forall|d: pos::DeltaState|
            spec_category(V::P(pos::V::MouseDelta(d))) == C::P(pos::C::MouseDelta),
        forall|p: pos::PosState|
            spec_category(V::P(pos::V::ScreenPos(p))) == C::P(pos::C::ScreenPos),
        forall|z: pos::SzState|
            spec_category(V::P(pos::V::ScreenSz(z))) == C::P(pos::C::ScreenSz),
        forall|p: pos::PosState|
            spec_category(V::P(pos::V::CursorPos(p))) == C::P(pos::C::CursorPos),
        forall|b: button::C, st: button::State|
            spec_category(V::B(button::V(b, st))) == C::B(b),
        forall|d: pos::DeltaState|
            spec_lookup(
                values.insert(
                    spec_category(V::P(pos::V::MouseDelta(d))),
                    V::P(pos::V::MouseDelta(d)),
                ),
                C::P(pos::C::MouseDelta),
            ) == V::P(pos::V::MouseDelta(d)),
        forall|d: pos::DeltaState|
            spec_lookup(
                values.insert(
                    spec_category(V::P(pos::V::MouseDelta(d))),
                    V::P(pos::V::MouseDelta(d)),
                ),
                C::P(pos::C::MousePos),
            ) == spec_lookup(values, C::P(pos::C::MousePos)),
{
}

/// A category that has seen no event is answered with its default: a zero
/// scroll, a mouse position at the origin, a button that is up, and `Ignored`
/// for the ignored and unknown categories.
pub proof fn law_fresh_store_defaults(c: C)
    ensures
        spec_lookup(Map::<C, V>::empty(), c) == spec_default_v(c),
        c matches C::B(b) ==> spec_lookup(Map::<C, V>::empty(), c) == V::B(
            button::V(b, button::State::UP),
        ),
{
}

} // verus!
