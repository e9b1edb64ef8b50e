//! Rectangles for overlay bounds calculations.

use vstd::prelude::*;

verus! {

/// Rectangle for bounds calculations.
#[derive(Clone, Copy, Debug, PartialEq, Eq, Structural)]
pub struct Rectangle {
    pub x: i32,
    pub y: i32,
    pub width: u32,
    pub height: u32,
}

impl Rectangle {
    /// Right edge, with the width taken as an `i32` as the computations do.
    pub open spec fn right(&self) -> int {
        self.x + (self.width as i32)
    }

    /// Bottom edge, with the height taken as an `i32`.
    pub open spec fn bottom(&self) -> int {
        self.y + (self.height as i32)
    }

    /// Both edges fit in an `i32`.
    pub open spec fn edges_fit(&self) -> bool {
        i32::MIN <= self.right() <= i32::MAX && i32::MIN <= self.bottom() <= i32::MAX
    }

    pub open spec fn overlaps(&self, other: &Rectangle) -> bool {
        self.x < other.right() && self.right() > other.x && self.y < other.bottom()
            && self.bottom() > other.y
    }

    /// Width of the overlap: the smaller right edge minus the larger left edge.
    pub open spec fn overlap_width(&self, other: &Rectangle) -> int {
        let left = if self.x >= other.x { self.x as int } else { other.x as int };
        let right = if self.right() <= other.right() { self.right() } else { other.right() };
        right - left
    }

    /// Height of the overlap: the smaller bottom edge minus the larger top edge.
    pub open spec fn overlap_height(&self, other: &Rectangle) -> int {
        let top = if self.y >= other.y { self.y as int } else { other.y as int };
        let bottom = if self.bottom() <= other.bottom() { self.bottom() } else { other.bottom() };
        bottom - top
    }

    /// The overlap computation stays within `i32`.
    pub open spec fn overlap_fits(&self, other: &Rectangle) -> bool {
        self.overlaps(other) ==> {
            &&& i32::MIN <= self.overlap_width(other) <= i32::MAX
            &&& i32::MIN <= self.overlap_height(other) <= i32::MAX
            &&& i32::MIN <= self.overlap_width(other) * self.overlap_height(other) <= i32::MAX
        }
    }

    /// Area of the overlap of two rectangles, zero when they do not overlap.
    pub open spec fn overlap_area(&self, other: &Rectangle) -> int {
        if self.overlaps(other) {
            self.overlap_width(other) * self.overlap_height(other)
        } else {
            0
        }
    }

    /// Does this rectangle overlap `other`?
    pub fn intersects(&self, other: &Rectangle) -> (r: bool)
        requires
            self.edges_fit(),
            other.edges_fit(),
        ensures
            r == self.overlaps(other),
    {
        self.x < other.x + other.width as i32 && self.x + self.width as i32 > other.x && self.y
            < other.y + other.height as i32 && self.y + self.height as i32 > other.y
    }

    /// Area of the overlap with `other` (the `i32` product taken as a `u32`).
    pub fn intersection_area(&self, other: &Rectangle) -> (r: u32)
        requires
            self.edges_fit(),
            other.edges_fit(),
            self.overlap_fits(other),
        ensures
            r == self.overlap_area(other) as u32,
    {
        if !self.intersects(other) {
            return 0;
        }
        let left = if self.x >= other.x { self.x } else { other.x };
        let sr = self.x + self.width as i32;
        let or = other.x + other.width as i32;
        let right = if sr <= or { sr } else { or };
        let top = if self.y >= other.y { self.y } else { other.y };
        let sb = self.y + self.height as i32;
        let ob = other.y + other.height as i32;
        let bottom = if sb <= ob { sb } else { ob };
        ((right - left) * (bottom - top)) as u32
    }
}

} // verus!
