//! Exact fixed-point pixel coordinates and axis-aligned rectangles.
//!
//! Descriptor files write coordinates as plain decimal text such as `"156"`
//! or `"32.5"`.  A [`Coord`] stores such a value exactly as a signed count of
//! millionths of a pixel, so that sums of coordinates (the right and bottom
//! edges of a rectangle) carry no rounding at all.

use vstd::prelude::*;

verus! {

/// Number of fixed-point subunits in one pixel.
pub const MICROS_PER_PIXEL: i64 = 1_000_000;

/// Largest magnitude, in subunits, that a coordinate read from a descriptor
/// may have: just under one billion pixels.  Keeping parsed coordinates
/// within this bound means the sum of any two of them fits an `i64`.
pub const COORD_MAX_MICROS: i64 = 999_999_999_999_999;

/// One pixel coordinate or extent, held exactly as millionths of a pixel.
#[derive(Clone, Copy, Debug, PartialEq, Eq, Structural, Hash)]
pub struct Coord {
    /// The value in millionths of a pixel.
    pub micros: i64,
}

impl View for Coord {
    type V = int;

    open spec fn view(&self) -> int {
        self.micros as int
    }
}

/// True when a coordinate's magnitude is within [`COORD_MAX_MICROS`].
/// Every coordinate produced by the descriptor parser satisfies this.
pub open spec fn coord_in_range(v: int) -> bool {
    -(COORD_MAX_MICROS as int) <= v <= COORD_MAX_MICROS as int
}

impl Coord {
    /// The coordinate lying exactly on whole pixel `px`.
    pub fn from_pixels(px: i32) -> (r: Coord)
        ensures
            r@ == px * MICROS_PER_PIXEL,
    {
        Coord { micros: (px as i64) * MICROS_PER_PIXEL }
    }

    /// A coordinate from a raw count of millionths of a pixel.
    pub fn from_micros(micros: i64) -> (r: Coord)
        ensures
            r@ == micros,
    {
        Coord { micros }
    }
}

/// An axis-aligned box in (left, top, right, bottom) form, in the source
/// image's coordinate space (origin at the top-left corner).
#[derive(Clone, Copy, Debug, PartialEq, Eq, Structural)]
pub struct Rect {
    pub left: Coord,
    pub top: Coord,
    pub right: Coord,
    pub bottom: Coord,
}

/// The mathematical value of a [`Rect`]: its four edges in millionths of a
/// pixel.
pub struct RectV {
    pub left: int,
    pub top: int,
    pub right: int,
    pub bottom: int,
}

impl View for Rect {
    type V = RectV;

    open spec fn view(&self) -> RectV {
        RectV { left: self.left@, top: self.top@, right: self.right@, bottom: self.bottom@ }
    }
}

impl Rect {
    /// A rectangle from its four edges.
    pub fn new(left: Coord, top: Coord, right: Coord, bottom: Coord) -> (r: Rect)
        ensures
            r@ == (RectV { left: left@, top: top@, right: right@, bottom: bottom@ }),
    {
        Rect { left, top, right, bottom }
    }
}

} // verus!
