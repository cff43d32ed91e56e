//! Plain data that gui components are described with.
use vstd::prelude::*;
use vstd::std_specs::convert::FromSpecImpl;
use crate::gui::color::Color;
use crate::gui::layout::Sz;

verus! {

/// Whether an event handled by a component should stop travelling further.
#[derive(Debug, Default, Copy, Clone, PartialEq, Eq, Hash, Structural)]
pub struct ShouldHaltPropagation(bool);

impl ShouldHaltPropagation {
    /// Whether to stop.
    pub closed spec fn spec_should(&self) -> bool {
        self.0
    }

    /// Whether to stop.
    pub fn should(&self) -> (r: &bool)
        ensures
            *r == self.spec_should(),
    {
        &self.0
    }
}

impl From<bool> for ShouldHaltPropagation {
    fn from(d: bool) -> (r: Self)
        ensures
            r.spec_should() == d,
    {
        Self(d)
    }
}

impl FromSpecImpl<bool> for ShouldHaltPropagation {
    open spec fn obeys_from_spec() -> bool {
        true
    }

    closed spec fn from_spec(d: bool) -> ShouldHaltPropagation {
        ShouldHaltPropagation(d)
    }
}

/// Which end of a stack of backgrounds is drawn first.
#[derive(Debug, Copy, Clone, PartialEq, Eq, Hash, Structural)]
pub enum StackOrder {
    HeadFirst,
    TailFirst,
}

/// An image background.
#[derive(Debug, Default, Copy, Clone, PartialEq, Eq, Hash, Structural)]
pub struct Img {}

/// What a component is drawn over.
#[derive(Debug, PartialEq, Eq, Hash)]
pub enum Background {
    Color(Color),
    Img(Img),
    Stacked(Vec<Background>, StackOrder),
}

/// The sizes a component accepts and prefers.
#[derive(Debug, Default, Copy, Clone, PartialEq, Eq, Hash, Structural)]
pub struct SizingInfo {
    pub min: Option<Sz>,
    pub max: Option<Sz>,
    pub preferred: Option<Sz>,
}

} // verus!
