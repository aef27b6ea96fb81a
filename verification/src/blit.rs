//! A textured quadrilateral that copies a rectangle of a texture onto a
//! rectangle of the target.
use vstd::prelude::*;

use crate::geometry::{Point, Rect, UPoint, URect, Vertex};

verus! {

/// The quad's four corners: top-left, top-right, bottom-left and
/// bottom-right of `dest`, each sampling the same corner of `source`, all
/// tinted with `color`.
pub open spec fn blit_corners(source: URect, dest: Rect, color: u32) -> Seq<Vertex> {
    let (left, top) = dest.top_left();
    let (right, bottom) = dest.bottom_right();
    let (source_left, source_top) = (source.origin.x as int, source.origin.y as int);
    let (source_right, source_bottom) = (
        source.origin.x + source.size.width,
        source.origin.y + source.size.height,
    );
    seq![
        corner(left, top, source_left, source_top, color),
        corner(right, top, source_right, source_top, color),
        corner(left, bottom, source_left, source_bottom, color),
        corner(right, bottom, source_right, source_bottom, color),
    ]
}

/// The vertex at `(x, y)` sampling texel `(u, v)`.
pub open spec fn corner(x: int, y: int, u: int, v: int, color: u32) -> Vertex {
    Vertex {
        location: Point { x: x as i32, y: y as i32 },
        texture: UPoint { x: u as u32, y: v as u32 },
        color,
    }
}

/// The two triangles of a quad, as indices into its corners: top-right,
/// top-left, bottom-left, then top-right, bottom-left, bottom-right.
pub open spec fn blit_indices() -> Seq<u16> {
    seq![1u16, 0u16, 2u16, 1u16, 2u16, 3u16]
}

/// The indices of a quad's two triangles; see [`blit_indices`].
pub fn texture_blit_indices() -> (indices: Vec<u16>)
    ensures
        indices@ == blit_indices(),
{
    let indices: Vec<u16> = vec![1, 0, 2, 1, 2, 3];
    assert(indices@ =~= blit_indices());
    indices
}

/// A quad that draws a rectangle of a texture.
pub struct TextureBlit {
    vertices: Vec<Vertex>,
}

impl View for TextureBlit {
    type V = Seq<Vertex>;

    closed spec fn view(&self) -> Seq<Vertex> {
        self.vertices@
    }
}

impl TextureBlit {
    /// The quad that draws `source` of a texture onto `dest`, tinted with
    /// `color`.
    pub fn new(source: URect, dest: Rect, color: u32) -> (blit: TextureBlit)
        requires
            source.fits(),
            dest.fits(),
        ensures
            blit@ == blit_corners(source, dest, color),
    {
        let (top_left, bottom_right) = dest.extents();
        let (source_top_left, source_bottom_right) = source.extents();
        let vertices: Vec<Vertex> = vec![
            Vertex { location: top_left, texture: source_top_left, color },
            Vertex {
                location: Point { x: bottom_right.x, y: top_left.y },
                texture: UPoint { x: source_bottom_right.x, y: source_top_left.y },
                color,
            },
            Vertex {
                location: Point { x: top_left.x, y: bottom_right.y },
                texture: UPoint { x: source_top_left.x, y: source_bottom_right.y },
                color,
            },
            Vertex { location: bottom_right, texture: source_bottom_right, color },
        ];
        let blit = TextureBlit { vertices };
        assert(blit@ =~= blit_corners(source, dest, color));
        blit
    }

    /// The quad's corners; see [`blit_corners`].
    pub fn vertices(&self) -> (vertices: &[Vertex])
        ensures
            vertices@ == self@,
    {
        self.vertices.as_slice()
    }
}

} // verus!
