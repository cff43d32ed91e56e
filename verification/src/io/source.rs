//! What a window is created with.
use vstd::prelude::*;

verus! {

/// The specification of a window: its name.
#[derive(Debug, Copy, Clone)]
pub struct WindowSpecs {
    name: &'static str,
}

impl WindowSpecs {
    /// The window's name.
    pub closed spec fn spec_name(&self) -> &'static str {
        self.name
    }

    /// The specification of a window with a given name.
    pub fn new(name: &'static str) -> (r: WindowSpecs)
        ensures
            r.spec_name() == name,
    {
        WindowSpecs { name: name }
    }
}

} // verus!
