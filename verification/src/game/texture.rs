//! Which texture each face of each kind of block shows.

use crate::game::chunk::BlockId;
use crate::game::Dir;
use crate::math::Rect;
use std::collections::HashMap;
use vstd::prelude::*;

verus! {

/// The index of a texture in the texture array.
#[derive(Clone, Copy, Debug, PartialEq, Eq, Structural)]
pub struct TextureId(pub u32);

impl TextureId {
    /// Width and height of a texture in the texture strip, in pixels.
    pub const SIZE: u32 = 16;

    /// The place of the texture in the texture strip, in pixels.
    pub fn rect(self) -> (r: Rect<u32>)
        requires
            self.0 * TextureId::SIZE <= u32::MAX,
        ensures
            r == (Rect { x: (self.0 * TextureId::SIZE) as u32, y: 0u32, w: TextureId::SIZE, h: TextureId::SIZE }),
    {
        let p: u32 = self.0 * Self::SIZE;
        Rect { x: p, y: 0, w: Self::SIZE, h: Self::SIZE }
    }
}

/// One value for each face of a block.
#[derive(Clone, Copy, Debug)]
pub struct BlockSides<T: Copy> {
    pub top: T,
    pub bottom: T,
    pub left: T,
    pub right: T,
    pub front: T,
    pub back: T,
}

impl<T: Copy> BlockSides<T> {
    /// The value for the face that looks in direction `dir`.
    pub open spec fn spec_in_direction(self, dir: Dir) -> T {
        match dir {
            Dir::PX => self.right,
            Dir::NX => self.left,
            Dir::PY => self.top,
            Dir::NY => self.bottom,
            Dir::PZ => self.front,
            Dir::NZ => self.back,
        }
    }

    /// The same value on all six faces.
    pub fn same(t: T) -> (sides: Self)
        ensures
            sides == (BlockSides { top: t, bottom: t, left: t, right: t, front: t, back: t }),
    {
        Self { top: t, bottom: t, left: t, right: t, front: t, back: t }
    }

    /// One value on top, one below, and a third on the four sides.
    pub fn cylinder(top: T, bottom: T, side: T) -> (sides: Self)
        ensures
            sides == (BlockSides { top, bottom, left: side, right: side, front: side, back: side }),
    {
        Self { top, bottom, left: side, right: side, front: side, back: side }
    }

    pub fn all(&self) -> (a: [T; 6])
        ensures
            a@ == seq![self.top, self.bottom, self.left, self.right, self.front, self.back],
    {
        [self.top, self.bottom, self.left, self.right, self.front, self.back]
    }

    pub fn in_direction(&self, dir: Dir) -> (t: T)
        ensures
            t == self.spec_in_direction(dir),
    {
        match dir {
            Dir::PX => self.right,
            Dir::NX => self.left,
            Dir::PY => self.top,
            Dir::NY => self.bottom,
            Dir::PZ => self.front,
            Dir::NZ => self.back,
        }
    }
}

pub type BlockTextures = BlockSides<TextureId>;

/// The textures of the kinds of block that have any.
pub struct LoadedTextures {
    blocks: HashMap<u16, BlockTextures>,
}

impl View for LoadedTextures {
    type V = Map<BlockId, BlockTextures>;

    closed spec fn view(&self) -> Map<BlockId, BlockTextures> {
        Map::new(
            |id: BlockId| self.blocks@.contains_key(id.spec_to_u16()),
            |id: BlockId| self.blocks@[id.spec_to_u16()],
        )
    }
}

/// The texture index of the face in direction `dir` of a block with the id
/// number `block_id`: that of its kind's textures, and 0 where the number
/// stands for no kind or the kind has no textures.
pub open spec fn spec_texture_index(textures: Map<BlockId, BlockTextures>, block_id: u16, dir: Dir) -> u32 {
    match BlockId::spec_from_u16(block_id) {
        Some(id) => if textures.contains_key(id) {
            textures[id].spec_in_direction(dir).0
        } else {
            0
        },
        None => 0,
    }
}

impl LoadedTextures {
    /// No kind of block has textures.
    pub fn new() -> (textures: Self)
        ensures
            textures@ == Map::<BlockId, BlockTextures>::empty(),
    {
        broadcast use vstd::std_specs::hash::group_hash_axioms;
        let textures = Self { blocks: HashMap::new() };
        assert(textures@ =~= Map::<BlockId, BlockTextures>::empty());
        textures
    }

    /// Gives the blocks of kind `id` the textures `sides`.
    pub fn insert(&mut self, id: BlockId, sides: BlockTextures)
        ensures
            final(self)@ == old(self)@.insert(id, sides),
    {
        broadcast use vstd::std_specs::hash::group_hash_axioms;
        let key: u16 = id.to_u16();
        self.blocks.insert(key, sides);
        proof {
            assert forall|other: BlockId| other != id implies other.spec_to_u16() != key by {
                assert(BlockId::spec_from_u16(other.spec_to_u16()) == Some(other));
            }
            assert(final(self)@ =~= old(self)@.insert(id, sides));
        }
    }

    /// The textures of the blocks of kind `id`, if it has any.
    pub fn get(&self, id: BlockId) -> (r: Option<BlockTextures>)
        ensures
            match r {
                Some(sides) => self@.contains_key(id) && self@[id] == sides,
                None => !self@.contains_key(id),
            },
    {
        broadcast use vstd::std_specs::hash::group_hash_axioms;
        let key: u16 = id.to_u16();
        match self.blocks.get(&key) {
            Some(sides) => Some(*sides),
            None => None,
        }
    }

    /// The texture index of the face in direction `dir` of a block with the
    /// id number `block_id`.
    pub fn texture_index(&self, block_id: u16, dir: Dir) -> (index: u32)
        ensures
            index == spec_texture_index(self@, block_id, dir),
    {
        match BlockId::from_u16(block_id) {
            Some(id) => match self.get(id) {
                Some(sides) => sides.in_direction(dir).0,
                None => 0,
            },
            None => 0,
        }
    }
}

} // verus!
