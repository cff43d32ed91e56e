//! Position events: categories and values. Each coordinate is kept as the
//! bit pattern of the `f32` it stands for; nothing here computes with it.
use vstd::prelude::*;
use vstd::std_specs::convert::FromSpecImpl;

verus! {

/// The category of a position event.
#[derive(Debug, Hash, Copy, Clone, PartialEq, Eq, Structural)]
pub enum C {
    MousePos,
    MouseDelta,
    ScreenPos,
    CursorPos,
    ScreenSz,
}

/// A position, as two coordinate bit patterns.
#[derive(Debug, Copy, Clone, PartialEq, Eq, Structural)]
pub struct PosState(pub u32, pub u32);

/// A size, as two coordinate bit patterns.
#[derive(Debug, Copy, Clone, PartialEq, Eq, Structural)]
pub struct SzState(pub u32, pub u32);

/// A displacement, as two coordinate bit patterns.
#[derive(Debug, Copy, Clone, PartialEq, Eq, Structural)]
pub struct DeltaState(pub u32, pub u32);

/// The value of a position event.
#[derive(Debug, Copy, Clone, PartialEq, Eq, Structural)]
pub enum V {
    MousePos(PosState),
    MouseDelta(DeltaState),
    ScreenPos(PosState),
    ScreenSz(SzState),
    CursorPos(PosState),
}

impl V {
    /// The value a position category has before any event: whatever the
    /// category, a mouse position at the origin.
    pub fn default_value_of(c: &C) -> (r: Self)
        ensures
            r == V::MousePos(PosState(0, 0)),
    {
        match c {
            _ => V::MousePos(PosState(0, 0)),
        }
    }
}

impl From<V> for C {
    fn from(v: V) -> (r: C) {
        match v {
            V::MousePos(_) => C::MousePos,
            V::MouseDelta(_) => C::MouseDelta,
            V::ScreenPos(_) => C::ScreenPos,
            V::ScreenSz(_) => C::ScreenSz,
            V::CursorPos(_) => C::CursorPos,
        }
    }
}

impl FromSpecImpl<V> for C {
    open spec fn obeys_from_spec() -> bool {
        true
    }

    open spec fn from_spec(v: V) -> C {
        match v {
            V::MousePos(_) => C::MousePos,
            V::MouseDelta(_) => C::MouseDelta,
            V::ScreenPos(_) => C::ScreenPos,
            V::ScreenSz(_) => C::ScreenSz,
            V::CursorPos(_) => C::CursorPos,
        }
    }
}

} // verus!
