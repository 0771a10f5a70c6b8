//! Face directions, and what a ray strikes.

use crate::game::chunk::{in_chunk, CHUNK_SIZE};
use crate::math::{vec2, vec3, Pos, Scalar, Vec2i32, Vec3, Vec3i32};
use vstd::prelude::*;

pub mod ao;
pub mod chunk;
pub mod chunk_map;
pub mod manifest;
pub mod mesh;
pub mod renderer;
pub mod retention;
pub mod texture;
pub mod world;
pub mod worldgen;

verus! {

/// One of the six faces of a block, named by the axis and sign of its
/// outward normal.
#[derive(Debug, Clone, Copy, PartialEq, Eq, Structural)]
pub enum Dir {
    PX,
    NX,
    PY,
    NY,
    PZ,
    NZ,
}

impl Dir {
    /// The position of a direction in [`Dir::all`].
    pub open spec fn spec_index(self) -> int {
        match self {
            Dir::PX => 0,
            Dir::NX => 1,
            Dir::PY => 2,
            Dir::NY => 3,
            Dir::PZ => 4,
            Dir::NZ => 5,
        }
    }

    /// The direction at a position of [`Dir::all`].
    pub open spec fn spec_from_index(i: int) -> Dir {
        if i == 0 {
            Dir::PX
        } else if i == 1 {
            Dir::NX
        } else if i == 2 {
            Dir::PY
        } else if i == 3 {
            Dir::NY
        } else if i == 4 {
            Dir::PZ
        } else {
            Dir::NZ
        }
    }

    /// The unit vector that points out of the face.
    pub open spec fn spec_normal(self) -> Pos {
        match self {
            Dir::PX => Pos { x: 1, y: 0, z: 0 },
            Dir::NX => Pos { x: -1, y: 0, z: 0 },
            Dir::PY => Pos { x: 0, y: 1, z: 0 },
            Dir::NY => Pos { x: 0, y: -1, z: 0 },
            Dir::PZ => Pos { x: 0, y: 0, z: 1 },
            Dir::NZ => Pos { x: 0, y: 0, z: -1 },
        }
    }

    /// The normal with the two in-plane coordinates set to `a` and `b`, in
    /// axis order.
    pub open spec fn spec_with_others(self, a: int, b: int) -> Pos {
        match self {
            Dir::PX => Pos { x: 1, y: a, z: b },
            Dir::NX => Pos { x: -1, y: a, z: b },
            Dir::PY => Pos { x: a, y: 1, z: b },
            Dir::NY => Pos { x: a, y: -1, z: b },
            Dir::PZ => Pos { x: a, y: b, z: 1 },
            Dir::NZ => Pos { x: a, y: b, z: -1 },
        }
    }

    /// The two coordinates of `v` that lie in the plane of the face, in axis
    /// order.
    pub open spec fn spec_exclude_axis(self, v: Pos) -> (int, int) {
        match self {
            Dir::PX | Dir::NX => (v.y, v.z),
            Dir::PY | Dir::NY => (v.x, v.z),
            Dir::PZ | Dir::NZ => (v.x, v.y),
        }
    }

    /// The six directions, in the order in which faces are emitted.
    pub fn all() -> (a: [Dir; 6])
        ensures
            forall|i: int| 0 <= i < 6 ==> #[trigger] a@[i] == Dir::spec_from_index(i),
    {
        [Dir::PX, Dir::NX, Dir::PY, Dir::NY, Dir::PZ, Dir::NZ]
    }

    pub fn count() -> (n: usize)
        ensures
            n == 6,
    {
        6
    }

    pub fn index(&self) -> (i: usize)
        ensures
            i == self.spec_index(),
            Dir::spec_from_index(i as int) == *self,
    {
        match self {
            Dir::PX => 0,
            Dir::NX => 1,
            Dir::PY => 2,
            Dir::NY => 3,
            Dir::PZ => 4,
            Dir::NZ => 5,
        }
    }

    /// The direction with the index `i`, if there is one.
    pub fn from_index(i: usize) -> (r: Option<Dir>)
        ensures
            match r {
                Some(dir) => i < 6 && dir == Dir::spec_from_index(i as int) && dir.spec_index() == i,
                None => i >= 6,
            },
    {
        if i == 0 {
            Some(Dir::PX)
        } else if i == 1 {
            Some(Dir::NX)
        } else if i == 2 {
            Some(Dir::PY)
        } else if i == 3 {
            Some(Dir::NY)
        } else if i == 4 {
            Some(Dir::PZ)
        } else if i == 5 {
            Some(Dir::NZ)
        } else {
            None
        }
    }

    pub fn normal(&self) -> (n: Vec3i32)
        ensures
            n@ == self.spec_normal(),
    {
        match self {
            Dir::PX => vec3(1, 0, 0),
            Dir::NX => vec3(-1, 0, 0),
            Dir::PY => vec3(0, 1, 0),
            Dir::NY => vec3(0, -1, 0),
            Dir::PZ => vec3(0, 0, 1),
            Dir::NZ => vec3(0, 0, -1),
        }
    }

    /// Replaces the coordinate of `v` on the axis of the normal, by that of
    /// `p` for a positive direction and by that of `n` for a negative one;
    /// the other two coordinates are those of `v`.
    pub fn zero_axis<T: Scalar>(&self, v: Vec3<T>, n: Vec3<T>, p: Vec3<T>) -> (r: Vec3<T>)
        ensures
            r.0@ == match *self {
                Dir::PX => seq![p.0@[0], v.0@[1], v.0@[2]],
                Dir::NX => seq![n.0@[0], v.0@[1], v.0@[2]],
                Dir::PY => seq![v.0@[0], p.0@[1], v.0@[2]],
                Dir::NY => seq![v.0@[0], n.0@[1], v.0@[2]],
                Dir::PZ => seq![v.0@[0], v.0@[1], p.0@[2]],
                Dir::NZ => seq![v.0@[0], v.0@[1], n.0@[2]],
            },
    {
        match self {
            Dir::PX => vec3(p.0[0], v.0[1], v.0[2]),
            Dir::NX => vec3(n.0[0], v.0[1], v.0[2]),
            Dir::PY => vec3(v.0[0], p.0[1], v.0[2]),
            Dir::NY => vec3(v.0[0], n.0[1], v.0[2]),
            Dir::PZ => vec3(v.0[0], v.0[1], p.0[2]),
            Dir::NZ => vec3(v.0[0], v.0[1], n.0[2]),
        }
    }

    pub fn exclude_axis(&self, v: Vec3i32) -> (r: Vec2i32)
        ensures
            (r.0@[0] as int, r.0@[1] as int) == self.spec_exclude_axis(v@),
    {
        match self {
            Dir::PX | Dir::NX => vec2(v.0[1], v.0[2]),
            Dir::PY | Dir::NY => vec2(v.0[0], v.0[2]),
            Dir::PZ | Dir::NZ => vec2(v.0[0], v.0[1]),
        }
    }

    pub fn with_others(&self, others: Vec2i32) -> (r: Vec3i32)
        ensures
            r@ == self.spec_with_others(others.0@[0] as int, others.0@[1] as int),
    {
        let a: i32 = others.0[0];
        let b: i32 = others.0[1];
        match self {
            Dir::PX => vec3(1, a, b),
            Dir::NX => vec3(-1, a, b),
            Dir::PY => vec3(a, 1, b),
            Dir::NY => vec3(a, -1, b),
            Dir::PZ => vec3(a, b, 1),
            Dir::NZ => vec3(a, b, -1),
        }
    }

    /// The direction whose normal is `n`, if `n` is one of the six unit
    /// normals.
    pub fn from_normal(n: Vec3i32) -> (r: Option<Dir>)
        ensures
            r.is_some() == names_face(n@),
            match r {
                Some(d) => d.spec_normal() == n@,
                None => forall|d: Dir| d.spec_normal() != n@,
            },
    {
        let (x, y, z): (i32, i32, i32) = (n.x(), n.y(), n.z());
        if x == 1 && y == 0 && z == 0 {
            Some(Dir::PX)
        } else if x == -1 && y == 0 && z == 0 {
            Some(Dir::NX)
        } else if x == 0 && y == 1 && z == 0 {
            Some(Dir::PY)
        } else if x == 0 && y == -1 && z == 0 {
            Some(Dir::NY)
        } else if x == 0 && y == 0 && z == 1 {
            Some(Dir::PZ)
        } else if x == 0 && y == 0 && z == -1 {
            Some(Dir::NZ)
        } else {
            None
        }
    }
}

/// Whether `n` is the normal of one of the six faces.
pub open spec fn names_face(n: Pos) -> bool {
    ||| n == Dir::PX.spec_normal()
    ||| n == Dir::NX.spec_normal()
    ||| n == Dir::PY.spec_normal()
    ||| n == Dir::NY.spec_normal()
    ||| n == Dir::PZ.spec_normal()
    ||| n == Dir::NZ.spec_normal()
}

/// Whether the chunks at `p` and `q` share a face.
pub open spec fn touches(p: Pos, q: Pos) -> bool {
    ||| p == q.plus(Dir::PX.spec_normal())
    ||| p == q.plus(Dir::NX.spec_normal())
    ||| p == q.plus(Dir::PY.spec_normal())
    ||| p == q.plus(Dir::NY.spec_normal())
    ||| p == q.plus(Dir::PZ.spec_normal())
    ||| p == q.plus(Dir::NZ.spec_normal())
}

/// The block that the view ray strikes first, and the face through which
/// the ray enters it.
#[derive(Debug, Clone, Copy)]
pub struct BlockTarget {
    /// chunk position (in chunks)
    pub chunk: Vec3i32,
    /// block position local to chunk
    pub block: Vec3i32,
    pub face: Dir,
}

impl BlockTarget {
    /// The global coordinates of the block.
    pub open spec fn spec_to_global(self) -> Pos {
        self.chunk@.times(CHUNK_SIZE as int).plus(self.block@)
    }

    /// Whether the target names a block of the grid that has `i32` global
    /// coordinates: then `chunk` and `block` are the two parts of those
    /// coordinates.
    pub open spec fn valid(self) -> bool {
        &&& in_chunk(self.block@)
        &&& self.spec_to_global().fits_i32()
    }

    /// The global coordinates of the block.
    pub fn to_global(self) -> (global: Vec3i32)
        requires
            self.spec_to_global().fits_i32(),
        ensures
            global@ == self.spec_to_global(),
    {
        vec3(
            (self.chunk.x() as i64 * CHUNK_SIZE as i64 + self.block.x() as i64) as i32,
            (self.chunk.y() as i64 * CHUNK_SIZE as i64 + self.block.y() as i64) as i32,
            (self.chunk.z() as i64 * CHUNK_SIZE as i64 + self.block.z() as i64) as i32,
        )
    }
}

/// One step along a ray.
#[derive(Debug, Clone, Copy)]
pub struct RaySample {
    /// The global coordinates of the block that the step lies in.
    pub position: Vec3i32,
    /// The normal of the face through which the ray comes to the step.
    pub normal: Vec3i32,
}

/// Why no target could be told.
#[derive(Debug, Clone, Copy, PartialEq, Eq, Structural)]
pub enum RaycastError {
    /// The normal at the struck block names none of the six faces: no axis
    /// of the ray is the one through which it enters the block.
    BadNormal,
}

/// The position next to `pos` in the direction with index `k`.
pub open spec fn neighbor(pos: Pos, k: int) -> Pos {
    pos.plus(Dir::spec_from_index(k).spec_normal())
}

/// Whether `p` is `pos` or its neighbour in one of the first `d`
/// directions.
pub open spec fn near(p: Pos, pos: Pos, d: int) -> bool
    decreases d,
{
    if d <= 0 {
        p == pos
    } else {
        near(p, pos, d - 1) || p == neighbor(pos, d - 1)
    }
}

/// A position is near `pos` in all six directions when it is `pos` or
/// touches it.
pub proof fn lemma_near(pos: Pos)
    ensures
        forall|p: Pos| #[trigger] near(p, pos, 6) == (p == pos || touches(p, pos)),
{
    reveal_with_fuel(near, 7);
    assert(Dir::spec_from_index(0) == Dir::PX);
    assert(Dir::spec_from_index(1) == Dir::NX);
    assert(Dir::spec_from_index(2) == Dir::PY);
    assert(Dir::spec_from_index(3) == Dir::NY);
    assert(Dir::spec_from_index(4) == Dir::PZ);
    assert(Dir::spec_from_index(5) == Dir::NZ);
}

} // verus!
