//! Patterns over changes of a value: a change is a (before, after) pair, and
//! each side of a pattern either names a value or accepts any.
use vstd::prelude::*;
use vstd::std_specs::cmp::PartialEqSpec;
use vstd::std_specs::convert::{FromSpecImpl, IntoSpec};

verus! {

/// One side of a change pattern: any value, or a definite one.
#[derive(Debug, Copy, Clone)]
pub enum ChV<T> {
    Any,
    D(T),
}

/// Whether one side of a pattern accepts one side of a change: `Any` accepts
/// everything, a definite value accepts an equal definite value only.
pub open spec fn spec_chv_satisfied_by<T: PartialEq<U>, U>(pat: ChV<T>, other: ChV<U>) -> bool {
    match (pat, other) {
        (ChV::Any, _) => true,
        (ChV::D(lhs), ChV::D(rhs)) => lhs.eq_spec(&rhs),
        _ => false,
    }
}

impl<T> ChV<T> {
    fn satisfied_by<U>(&self, other: &ChV<U>) -> (r: bool)
        where
            T: PartialEq<U>,
        ensures
            T::obeys_eq_spec() ==> r == spec_chv_satisfied_by(*self, *other),
            self is Any ==> r,
            (self is D && other is Any) ==> !r,
    {
        match (self, other) {
            (ChV::Any, _) => true,
            (ChV::D(lhs), ChV::D(rhs)) => lhs == rhs,
            _ => false,
        }
    }
}

impl<T> From<T> for ChV<T> {
    fn from(t: T) -> (r: ChV<T>) {
        ChV::D(t)
    }
}

impl<T> FromSpecImpl<T> for ChV<T> {
    open spec fn obeys_from_spec() -> bool {
        true
    }

    open spec fn from_spec(t: T) -> ChV<T> {
        ChV::D(t)
    }
}

impl<T> From<Option<T>> for ChV<T> {
    fn from(opt_t: Option<T>) -> (r: ChV<T>) {
        match opt_t {
            Some(t) => ChV::D(t),
            None => ChV::Any,
        }
    }
}

impl<T> FromSpecImpl<Option<T>> for ChV<T> {
    open spec fn obeys_from_spec() -> bool {
        true
    }

    open spec fn from_spec(opt_t: Option<T>) -> ChV<T> {
        match opt_t {
            Some(t) => ChV::D(t),
            None => ChV::Any,
        }
    }
}

/// A change pattern: what the value was before and what it is after.
#[derive(Debug, Copy, Clone)]
pub struct Ch<T> {
    before: ChV<T>,
    after: ChV<T>,
}

impl<T> Ch<T> {
    /// The pattern's "before" side.
    pub closed spec fn spec_before(&self) -> ChV<T> {
        self.before
    }

    /// The pattern's "after" side.
    pub closed spec fn spec_after(&self) -> ChV<T> {
        self.after
    }

    /// A pattern from two sides, each converted into a pattern side.
    pub fn new<U, V>(before: U, after: V) -> (r: Ch<T>)
        where
            U: Into<ChV<T>>,
            V: Into<ChV<T>>,
        ensures
            U::obeys_into_spec() ==> r.spec_before() == before.into_spec(),
            V::obeys_into_spec() ==> r.spec_after() == after.into_spec(),
    {
        Ch { before: before.into(), after: after.into() }
    }

    /// The pattern that accepts every change.
    pub fn any() -> (r: Ch<T>)
        ensures
            r.spec_before() == ChV::<T>::Any,
            r.spec_after() == ChV::<T>::Any,
    {
        Ch { before: ChV::Any, after: ChV::Any }
    }

    /// The pattern of changes to a given side, from anything.
    pub fn to<U>(after: U) -> (r: Ch<T>)
        where
            U: Into<ChV<T>>,
        ensures
            r.spec_before() == ChV::<T>::Any,
            U::obeys_into_spec() ==> r.spec_after() == after.into_spec(),
    {
        Ch { before: ChV::Any, after: after.into() }
    }

    /// The pattern of changes away from a definite value, to anything.
    pub fn from<U>(before: T) -> (r: Ch<T>)
        where
            U: Into<ChV<T>>,
        ensures
            r.spec_before() == ChV::D(before),
            r.spec_after() == ChV::<T>::Any,
    {
        Ch { before: before.into(), after: ChV::Any }
    }

    /// Whether this pattern accepts a change: both sides accept.
    pub fn satisfied_by<U>(&self, other: &Ch<U>) -> (r: bool)
        where
            T: PartialEq<U>,
        ensures
            T::obeys_eq_spec() ==> r == (spec_chv_satisfied_by(self.spec_before(), other.spec_before())
                && spec_chv_satisfied_by(self.spec_after(), other.spec_after())),
            (self.spec_before() is Any && self.spec_after() is Any) ==> r,
            (self.spec_before() is D && other.spec_before() is Any) ==> !r,
            (self.spec_after() is D && other.spec_after() is Any) ==> !r,
    {
        self.before.satisfied_by(&other.before) && self.after.satisfied_by(&other.after)
    }
}

} // verus!
