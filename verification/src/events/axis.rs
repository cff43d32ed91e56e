//! Axis events: categories and values.
use vstd::prelude::*;
use vstd::std_specs::convert::FromSpecImpl;

verus! {

/// The category of an axis event.
#[derive(Debug, Hash, Copy, Clone, PartialEq, Eq, Structural)]
pub enum C {
    Scroll,
}

/// The value of an axis event. A scroll amount is kept as the bit pattern of
/// the `f32` it stands for; nothing here computes with it.
#[derive(Debug, Copy, Clone, PartialEq, Eq, Structural)]
pub enum V {
    Scroll(u32),
}

impl V {
    /// The value an axis category has before any event: a zero scroll.
    pub fn default_value_of(c: &C) -> (r: Self)
        ensures
            r == V::Scroll(0),
    {
        match c {
            C::Scroll => V::Scroll(0),
        }
    }
}

impl From<V> for C {
    fn from(v: V) -> (r: C) {
        match v {
            V::Scroll(_) => C::Scroll,
        }
    }
}

impl FromSpecImpl<V> for C {
    open spec fn obeys_from_spec() -> bool {
        true
    }

    open spec fn from_spec(v: V) -> C {
        match v {
            V::Scroll(_) => C::Scroll,
        }
    }
}

} // verus!
