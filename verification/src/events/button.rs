//! Button events: keys, window flags, and their up/down state.
use vstd::prelude::*;
use vstd::std_specs::convert::FromSpecImpl;

verus! {

/// The category of a button event.
#[derive(Debug, Hash, Copy, Clone, PartialEq, Eq, Structural)]
pub enum C {
    /// Alphanumeric or punctuation key.
    A(char),
    /// Special key, such as escape, alt or shift.
    S(Key),
    /// Window flag, such as close.
    F(Flag),
}

/// Special keys.
#[derive(Debug, Hash, Copy, Clone, PartialEq, Eq, Structural)]
pub enum Key {
    Esc,
    Alt(Side),
    Shift(Side),
    Ctrl(Side),
    Mod(Side),
    Tab,
    Home,
    End,
    PgDn,
    PgUp,
    Ins,
    Del,
    Enter,
    Backspace,
    Up,
    Left,
    Down,
    Right,
    NumLk,
    ScrLk,
    CapLk,
    PrintScreen,
    Pause,
    F(u32),
}

/// Side of a doubled modifier key.
#[derive(Debug, Hash, Copy, Clone, PartialEq, Eq, Structural)]
pub enum Side {
    L,
    R,
}

/// Window flags.
#[derive(Debug, Hash, Copy, Clone, PartialEq, Eq, Structural)]
pub enum Flag {
    Close,
    CursorEntered,
    Refresh,
    Focus,
}

/// Whether a button is up or down.
#[derive(Debug, Hash, Copy, Clone, PartialEq, Eq, Structural)]
pub enum State {
    UP,
    DOWN,
}

/// A button event: which button, and its state.
#[derive(Debug, Hash, Copy, Clone, PartialEq, Eq, Structural)]
pub struct V(pub C, pub State);

impl C {
    /// The value of this category before any event.
    fn default_value(&self) -> (r: V)
        ensures
            r == V(*self, State::UP),
    {
        V::default_value_of(&self)
    }
}

impl From<V> for C {
    fn from(v: V) -> (r: C) {
        v.0
    }
}

impl FromSpecImpl<V> for C {
    open spec fn obeys_from_spec() -> bool {
        true
    }

    open spec fn from_spec(v: V) -> C {
        v.0
    }
}

impl From<Key> for C {
    fn from(k: Key) -> (r: C) {
        C::S(k)
    }
}

impl FromSpecImpl<Key> for C {
    open spec fn obeys_from_spec() -> bool {
        true
    }

    open spec fn from_spec(k: Key) -> C {
        C::S(k)
    }
}

impl From<Flag> for C {
    fn from(f: Flag) -> (r: C) {
        C::F(f)
    }
}

impl FromSpecImpl<Flag> for C {
    open spec fn obeys_from_spec() -> bool {
        true
    }

    open spec fn from_spec(f: Flag) -> C {
        C::F(f)
    }
}

impl From<bool> for State {
    /// `true` is up, `false` is down.
    fn from(b: bool) -> (r: State) {
        if b {
            State::UP
        } else {
            State::DOWN
        }
    }
}

impl FromSpecImpl<bool> for State {
    open spec fn obeys_from_spec() -> bool {
        true
    }

    open spec fn from_spec(b: bool) -> State {
        if b {
            State::UP
        } else {
            State::DOWN
        }
    }
}

impl From<State> for bool {
    /// Every state converts to `false`.
    fn from(s: State) -> (r: bool) {
        match s {
            _ => false,
        }
    }
}

impl FromSpecImpl<State> for bool {
    open spec fn obeys_from_spec() -> bool {
        true
    }

    open spec fn from_spec(s: State) -> bool {
        false
    }
}

impl V {
    /// The button's state.
    pub fn value(&self) -> (r: State)
        ensures
            r == self.1,
    {
        self.1.clone()
    }

    /// The value of a category before any event: the button is up.
    pub fn default_value_of(c: &C) -> (r: Self)
        ensures
            r == V(*c, State::UP),
    {
        Self(c.clone(), State::UP)
    }
}

impl From<(C, State)> for V {
    fn from(cs: (C, State)) -> (r: V) {
        V(cs.0, cs.1)
    }
}

impl FromSpecImpl<(C, State)> for V {
    open spec fn obeys_from_spec() -> bool {
        true
    }

    open spec fn from_spec(cs: (C, State)) -> V {
        V(cs.0, cs.1)
    }
}

} // verus!
