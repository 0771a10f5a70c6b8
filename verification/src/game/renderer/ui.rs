//! The rectangles of the user interface, gathered for drawing.

use crate::math::{Rect, Vec2u32};
use vstd::prelude::*;

verus! {

/// A run of indices that is drawn in one call.
#[derive(Clone, Copy, Debug, PartialEq, Eq, Structural)]
pub struct UiPrimitive {
    pub offset: u32,
    pub count: u32,
}

/// A rectangle to draw, in pixels from the centre of the screen, and the
/// rectangle of the texture that it shows, in pixels.
#[derive(Clone, Copy, Debug)]
pub struct UiQuad {
    pub rect: Rect<i32>,
    pub uvs: Rect<i32>,
}

/// Gathers the rectangles of a frame: a quad, six indices and a primitive
/// for each.
pub struct UiBuilder {
    pub quads: Vec<UiQuad>,
    pub indices: Vec<u32>,
    pub primitives: Vec<UiPrimitive>,
    pub screen_size: Vec2u32,
    pub texture_size: Vec2u32,
}

/// The six indices of the quad with number `quad`: two triangles over its
/// four corners.
pub open spec fn spec_quad_indices(quad: int) -> Seq<u32> {
    seq![
        (4 * quad) as u32,
        (4 * quad + 1) as u32,
        (4 * quad + 2) as u32,
        (4 * quad) as u32,
        (4 * quad + 2) as u32,
        (4 * quad + 3) as u32,
    ]
}

/// Half of a screen measure, rounded down.
pub open spec fn spec_half(size: u32) -> int {
    size as int / 2
}

impl UiBuilder {
    /// Whether the builder holds six indices and one primitive for each
    /// quad.
    pub open spec fn wf(&self) -> bool {
        &&& self.indices@.len() == 6 * self.quads@.len()
        &&& self.primitives@.len() == self.quads@.len()
        &&& self.quads@.len() < 0x1000_0000
    }

    pub fn new(screen_size: Vec2u32, texture_size: Vec2u32) -> (builder: Self)
        ensures
            builder.wf(),
            builder.quads@.len() == 0,
            builder.screen_size == screen_size,
            builder.texture_size == texture_size,
    {
        Self {
            quads: Vec::new(),
            indices: Vec::new(),
            primitives: Vec::new(),
            screen_size,
            texture_size,
        }
    }

    /// Adds the rectangle `rect` of the screen, given in pixels from the
    /// upper left corner, which shows the rectangle `uvs` of the texture.
    /// Nothing is added where the builder is full or the rectangle cannot
    /// be moved to the centre of the screen.
    pub fn add_rect(&mut self, rect: Rect<i32>, uvs: Rect<i32>) -> (added: bool)
        requires
            old(self).wf(),
        ensures
            final(self).wf(),
            final(self).screen_size == old(self).screen_size,
            final(self).texture_size == old(self).texture_size,
            added == (old(self).quads@.len() + 1 < 0x1000_0000 && i32::MIN <= rect.x - spec_half(
                old(self).screen_size.0@[0],
            ) <= i32::MAX && i32::MIN <= rect.y - spec_half(old(self).screen_size.0@[1])
                <= i32::MAX),
            added ==> {
                &&& final(self).quads@ == old(self).quads@.push(
                    UiQuad {
                        rect: Rect {
                            x: (rect.x - spec_half(old(self).screen_size.0@[0])) as i32,
                            y: (rect.y - spec_half(old(self).screen_size.0@[1])) as i32,
                            w: rect.w,
                            h: rect.h,
                        },
                        uvs,
                    },
                )
                &&& final(self).indices@ == old(self).indices@ + spec_quad_indices(
                    old(self).quads@.len() as int,
                )
                &&& final(self).primitives@ == old(self).primitives@.push(
                    UiPrimitive { offset: old(self).indices@.len() as u32, count: 6 },
                )
            },
            !added ==> final(self).quads@ == old(self).quads@ && final(self).indices@ == old(
                self,
            ).indices@ && final(self).primitives@ == old(self).primitives@,
    {
        if self.quads.len() + 1 >= 0x1000_0000 {
            return false;
        }
        let half_width: i32 = (self.screen_size.0[0] / 2) as i32;
        let half_height: i32 = (self.screen_size.0[1] / 2) as i32;
        let (x, y): (i32, i32) = match (rect.x.checked_sub(half_width), rect.y.checked_sub(half_height)) {
            (Some(x), Some(y)) => (x, y),
            _ => {
                return false;
            },
        };
        let vertex_offset: u32 = (4 * self.quads.len()) as u32;
        self.quads.push(UiQuad { rect: Rect { x, y, w: rect.w, h: rect.h }, uvs });
        let index_offset: u32 = self.indices.len() as u32;
        self.indices.push(vertex_offset);
        self.indices.push(vertex_offset + 1);
        self.indices.push(vertex_offset + 2);
        self.indices.push(vertex_offset);
        self.indices.push(vertex_offset + 2);
        self.indices.push(vertex_offset + 3);
        self.primitives.push(UiPrimitive { offset: index_offset, count: 6 });
        assert(self.indices@ =~= old(self).indices@ + spec_quad_indices(
            old(self).quads@.len() as int,
        ));
        true
    }
}

} // verus!
