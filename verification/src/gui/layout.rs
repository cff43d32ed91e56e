//! Positions and sizes of gui components.
use vstd::prelude::*;
use vstd::std_specs::convert::FromSpecImpl;

verus! {

/// A pair of horizontal and vertical extents.
#[derive(Debug, Default, Copy, Clone, PartialEq, Eq, Hash, Structural)]
struct Dim {
    pub hori: u64,
    pub vert: u64,
}

impl Dim {
    /// The larger horizontal extent of the two, and the first one's vertical
    /// extent.
    fn max(d0: &Self, d1: &Self) -> (r: Self)
        ensures
            r.hori == (if d0.hori >= d1.hori { d0.hori } else { d1.hori }),
            r.vert == d0.vert,
    {
        Self {
            hori: if d0.hori >= d1.hori {
                d0.hori
            } else {
                d1.hori
            },
            vert: d0.vert,
        }
    }

    /// The smaller horizontal extent of the two, and the first one's vertical
    /// extent.
    fn min(d0: &Self, d1: &Self) -> (r: Self)
        ensures
            r.hori == (if d0.hori <= d1.hori { d0.hori } else { d1.hori }),
            r.vert == d0.vert,
    {
        Self {
            hori: if d0.hori <= d1.hori {
                d0.hori
            } else {
                d1.hori
            },
            vert: d0.vert,
        }
    }
}

/// A position: width-wise and height-wise offsets.
#[derive(Debug, Default, Copy, Clone, PartialEq, Eq, Hash, Structural)]
pub struct Pos(Dim);

impl Pos {
    /// The width-wise offset.
    pub closed spec fn spec_w(&self) -> u64 {
        self.0.hori
    }

    /// The height-wise offset.
    pub closed spec fn spec_h(&self) -> u64 {
        self.0.vert
    }

    /// A position from its two offsets.
    pub fn new(w: u64, h: u64) -> (p: Pos)
        ensures
            p.spec_w() == w,
            p.spec_h() == h,
    {
        Pos(Dim { hori: w, vert: h })
    }

    /// The width-wise offset.
    pub fn w(&self) -> (r: &u64)
        ensures
            *r == self.spec_w(),
    {
        &self.0.hori
    }

    /// The height-wise offset.
    pub fn h(&self) -> (r: &u64)
        ensures
            *r == self.spec_h(),
    {
        &self.0.vert
    }
}

impl From<Dim> for Pos {
    fn from(d: Dim) -> (r: Self) {
        Self(d)
    }
}

impl FromSpecImpl<Dim> for Pos {
    closed spec fn obeys_from_spec() -> bool {
        true
    }

    closed spec fn from_spec(d: Dim) -> Pos {
        Pos(d)
    }
}

/// A size: horizontal and vertical extents.
#[derive(Debug, Default, Copy, Clone, PartialEq, Eq, Hash, Structural)]
pub struct Sz(Dim);

impl Sz {
    /// The horizontal extent.
    pub closed spec fn spec_x(&self) -> u64 {
        self.0.hori
    }

    /// The vertical extent.
    pub closed spec fn spec_y(&self) -> u64 {
        self.0.vert
    }

    /// A size from its two extents.
    pub fn new(x: u64, y: u64) -> (s: Sz)
        ensures
            s.spec_x() == x,
            s.spec_y() == y,
    {
        Sz(Dim { hori: x, vert: y })
    }

    /// The horizontal extent.
    pub fn x(&self) -> (r: &u64)
        ensures
            *r == self.spec_x(),
    {
        &self.0.hori
    }

    /// The vertical extent.
    pub fn y(&self) -> (r: &u64)
        ensures
            *r == self.spec_y(),
    {
        &self.0.vert
    }
}

impl From<Dim> for Sz {
    fn from(d: Dim) -> (r: Self) {
        Self(d)
    }
}

impl FromSpecImpl<Dim> for Sz {
    closed spec fn obeys_from_spec() -> bool {
        true
    }

    closed spec fn from_spec(d: Dim) -> Sz {
        Sz(d)
    }
}

} // verus!
