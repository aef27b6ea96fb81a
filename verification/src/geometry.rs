//! Points, sizes, rectangles and vertices in the integer units the GPU
//! receives: signed pixels for locations, unsigned pixels for texture
//! coordinates, and a color packed into a `u32`.
use vstd::prelude::*;

use crate::maps::VertexKey;

verus! {

/// A signed location.
#[derive(Clone, Copy, Debug, PartialEq, Eq, Structural)]
pub struct Point {
    pub x: i32,
    pub y: i32,
}

/// An unsigned location, as used for texture coordinates.
#[derive(Clone, Copy, Debug, PartialEq, Eq, Structural)]
pub struct UPoint {
    pub x: u32,
    pub y: u32,
}

/// A signed size.
#[derive(Clone, Copy, Debug, PartialEq, Eq, Structural)]
pub struct Size {
    pub width: i32,
    pub height: i32,
}

/// An unsigned size.
#[derive(Clone, Copy, Debug, PartialEq, Eq, Structural)]
pub struct USize {
    pub width: u32,
    pub height: u32,
}

/// A rectangle given by an origin and a (possibly negative) size.
#[derive(Clone, Copy, Debug, PartialEq, Eq, Structural)]
pub struct Rect {
    pub origin: Point,
    pub size: Size,
}

/// A rectangle in unsigned coordinates.
#[derive(Clone, Copy, Debug, PartialEq, Eq, Structural)]
pub struct URect {
    pub origin: UPoint,
    pub size: USize,
}

/// One vertex of the frame: where it is drawn, which texel it samples, and
/// its color.
#[derive(Clone, Copy, Debug, PartialEq, Eq, Structural)]
pub struct Vertex {
    pub location: Point,
    pub texture: UPoint,
    pub color: u32,
}

/// The packed color of opaque white.
pub const WHITE: u32 = 0xFFFF_FFFF;

impl Point {
    /// The origin.
    pub fn zero() -> (p: Point)
        ensures
            p.x == 0 && p.y == 0,
    {
        Point { x: 0, y: 0 }
    }

    pub open spec fn spec_is_zero(&self) -> bool {
        self.x == 0 && self.y == 0
    }

    /// Whether this is the origin.
    #[verifier::when_used_as_spec(spec_is_zero)]
    pub fn is_zero(&self) -> (zero: bool)
        ensures
            zero == self.spec_is_zero(),
    {
        self.x == 0 && self.y == 0
    }
}

pub open spec fn min_i(a: int, b: int) -> int {
    if a <= b { a } else { b }
}

pub open spec fn max_i(a: int, b: int) -> int {
    if a <= b { b } else { a }
}

impl Rect {
    /// The opposite corner does not overflow `i32`.
    pub open spec fn fits(self) -> bool {
        i32::MIN <= self.origin.x + self.size.width <= i32::MAX
        && i32::MIN <= self.origin.y + self.size.height <= i32::MAX
    }

    pub open spec fn top_left(self) -> (int, int) {
        (min_i(self.origin.x as int, self.origin.x + self.size.width),
         min_i(self.origin.y as int, self.origin.y + self.size.height))
    }

    pub open spec fn bottom_right(self) -> (int, int) {
        (max_i(self.origin.x as int, self.origin.x + self.size.width),
         max_i(self.origin.y as int, self.origin.y + self.size.height))
    }

    /// The top-left and bottom-right corners, whatever the signs of the size.
    pub fn extents(&self) -> (corners: (Point, Point))
        requires
            self.fits(),
        ensures
            (corners.0.x as int, corners.0.y as int) == self.top_left(),
            (corners.1.x as int, corners.1.y as int) == self.bottom_right(),
    {
        let far_x = self.origin.x + self.size.width;
        let far_y = self.origin.y + self.size.height;
        let (left, right) = if self.origin.x <= far_x {
            (self.origin.x, far_x)
        } else {
            (far_x, self.origin.x)
        };
        let (top, bottom) = if self.origin.y <= far_y {
            (self.origin.y, far_y)
        } else {
            (far_y, self.origin.y)
        };
        (Point { x: left, y: top }, Point { x: right, y: bottom })
    }
}

impl URect {
    /// The opposite corner does not overflow `u32`.
    pub open spec fn fits(self) -> bool {
        self.origin.x + self.size.width <= u32::MAX
        && self.origin.y + self.size.height <= u32::MAX
    }

    /// The top-left and bottom-right corners.
    pub fn extents(&self) -> (corners: (UPoint, UPoint))
        requires
            self.fits(),
        ensures
            corners.0 == self.origin,
            corners.1.x == self.origin.x + self.size.width,
            corners.1.y == self.origin.y + self.size.height,
    {
        (
            self.origin,
            UPoint { x: self.origin.x + self.size.width, y: self.origin.y + self.size.height },
        )
    }
}

impl Vertex {
    /// The key by which the vertex map finds this vertex.
    pub open spec fn key(self) -> VertexKey {
        (self.location.x, self.location.y, self.texture.x, self.texture.y, self.color)
    }

    pub fn slot_key(&self) -> (key: VertexKey)
        ensures
            key == self.key(),
    {
        (self.location.x, self.location.y, self.texture.x, self.texture.y, self.color)
    }
}

/// Two vertices with the same key are the same vertex.
pub proof fn lemma_key_injective(a: Vertex, b: Vertex)
    ensures
        a.key() == b.key() ==> a == b,
{
}

} // verus!
