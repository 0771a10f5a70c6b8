//! Blocks, the dense block store of a chunk, and the conversions between
//! global block coordinates and chunk-local ones.

use crate::game::renderer::chunk::BlockVertex;
use crate::math::{vec3, Pos, Vec3i32};
use vstd::prelude::*;

verus! {

/// Number of blocks along each axis of a chunk.
pub const CHUNK_SIZE: i32 = 32;

/// Number of blocks in one horizontal layer of a chunk.
pub const CHUNK_LAYER: i32 = 1024;

/// Number of blocks in a chunk.
pub const CHUNK_BLOCK_COUNT: usize = 32768;

/// `num::integer::div_floor` on `i32`: the quotient rounded towards negative
/// infinity, stated here for a positive divisor, where the call neither
/// divides by zero nor overflows.
#[verifier::external_body]
fn div_floor(x: i32, y: i32) -> (q: i32)
    requires
        y > 0,
    ensures
        q == (x as int) / (y as int),
{
    num::integer::div_floor(x, y)
}

/// `num::integer::mod_floor` on `i32`: the remainder that goes with the
/// floored quotient, stated here for a positive divisor, where it lies in
/// `[0, y)`.
#[verifier::external_body]
fn mod_floor(x: i32, y: i32) -> (r: i32)
    requires
        y > 0,
    ensures
        r == (x as int) % (y as int),
{
    num::integer::mod_floor(x, y)
}

/// The chunk that holds the block at global coordinates `g`.
pub open spec fn chunk_of(g: Pos) -> Pos {
    Pos { x: g.x / (CHUNK_SIZE as int), y: g.y / (CHUNK_SIZE as int), z: g.z / (CHUNK_SIZE as int) }
}

/// The coordinates, inside its chunk, of the block at global coordinates `g`.
pub open spec fn local_of(g: Pos) -> Pos {
    Pos { x: g.x % (CHUNK_SIZE as int), y: g.y % (CHUNK_SIZE as int), z: g.z % (CHUNK_SIZE as int) }
}

/// Whether `p` addresses a block inside a chunk.
pub open spec fn in_chunk(p: Pos) -> bool {
    &&& 0 <= p.x < CHUNK_SIZE
    &&& 0 <= p.y < CHUNK_SIZE
    &&& 0 <= p.z < CHUNK_SIZE
}

/// The index, in a chunk's block store, of the block at local coordinates `p`.
pub open spec fn offset_of(p: Pos) -> int {
    p.y * CHUNK_LAYER + p.z * CHUNK_SIZE + p.x
}

/// The local coordinates of the block stored at index `offset`.
pub open spec fn pos_of_offset(offset: int) -> Pos {
    Pos {
        x: offset % (CHUNK_SIZE as int),
        y: offset / (CHUNK_LAYER as int),
        z: (offset / (CHUNK_SIZE as int)) % (CHUNK_SIZE as int),
    }
}

/// block global -> chunk position (in chunks)
pub fn block_global_to_chunk(global: Vec3i32) -> (c: Vec3i32)
    ensures
        c@ == chunk_of(global@),
{
    vec3(
        div_floor(global.x(), CHUNK_SIZE),
        div_floor(global.y(), CHUNK_SIZE),
        div_floor(global.z(), CHUNK_SIZE),
    )
}

/// block global -> block position (in blocks)
pub fn block_global_to_block_local(global: Vec3i32) -> (b: Vec3i32)
    ensures
        b@ == local_of(global@),
        in_chunk(b@),
{
    vec3(
        mod_floor(global.x(), CHUNK_SIZE),
        mod_floor(global.y(), CHUNK_SIZE),
        mod_floor(global.z(), CHUNK_SIZE),
    )
}

/// A global block coordinate is its chunk's coordinate times the chunk size
/// plus its local coordinate, and the local coordinate lies inside the chunk.
pub proof fn lemma_global_round_trip(g: Pos)
    ensures
        chunk_of(g).times(CHUNK_SIZE as int).plus(local_of(g)) == g,
        in_chunk(local_of(g)),
{
}

/// The split of a global coordinate into chunk and local coordinates is the
/// only one: a chunk coordinate and an in-chunk local coordinate that add up
/// to `g` are those of `g`.
pub proof fn lemma_global_split_unique(g: Pos, c: Pos, b: Pos)
    requires
        in_chunk(b),
        c.times(CHUNK_SIZE as int).plus(b) == g,
    ensures
        c == chunk_of(g),
        b == local_of(g),
{
}

/// The content of one cell of the grid.
#[derive(Clone, Copy, Debug, PartialEq, Eq, Structural)]
pub struct Block {
    pub id: u16,
    pub state: u16,
}

impl Default for Block {
    fn default() -> (b: Self)
        ensures
            b == (Block { id: 0, state: 0 }),
    {
        Self { id: 0, state: 0 }
    }
}

/// First id beyond those of the known kinds of block.
pub const BLOCK_ID_END: u16 = 6;

/// The known kinds of block.
#[non_exhaustive]
#[derive(Clone, Copy, Debug, PartialEq, Eq, Structural, Hash)]
pub enum BlockId {
    Air,
    Stone,
    Grass,
    Dirt,
    Snow,
    SnowGrass,
}

impl BlockId {
    /// The number that stands for a kind in [`Block::id`].
    pub open spec fn spec_to_u16(self) -> u16 {
        match self {
            BlockId::Air => 0,
            BlockId::Stone => 1,
            BlockId::Grass => 2,
            BlockId::Dirt => 3,
            BlockId::Snow => 4,
            BlockId::SnowGrass => 5,
        }
    }

    /// The kind that a number stands for, if any.
    pub open spec fn spec_from_u16(id: u16) -> Option<BlockId> {
        if id == 0 {
            Some(BlockId::Air)
        } else if id == 1 {
            Some(BlockId::Stone)
        } else if id == 2 {
            Some(BlockId::Grass)
        } else if id == 3 {
            Some(BlockId::Dirt)
        } else if id == 4 {
            Some(BlockId::Snow)
        } else if id == 5 {
            Some(BlockId::SnowGrass)
        } else {
            None
        }
    }

    pub open spec fn spec_is_solid(self) -> bool {
        self != BlockId::Air
    }

    pub fn to_u16(self) -> (id: u16)
        ensures
            id == self.spec_to_u16(),
            id < BLOCK_ID_END,
            BlockId::spec_from_u16(id) == Some(self),
    {
        match self {
            BlockId::Air => 0,
            BlockId::Stone => 1,
            BlockId::Grass => 2,
            BlockId::Dirt => 3,
            BlockId::Snow => 4,
            BlockId::SnowGrass => 5,
        }
    }

    pub fn from_u16(id: u16) -> (r: Option<BlockId>)
        ensures
            r == BlockId::spec_from_u16(id),
            r.is_some() == (id < BLOCK_ID_END),
            r matches Some(b) ==> b.spec_to_u16() == id,
    {
        if id >= BLOCK_ID_END {
            None
        } else if id == 0 {
            Some(BlockId::Air)
        } else if id == 1 {
            Some(BlockId::Stone)
        } else if id == 2 {
            Some(BlockId::Grass)
        } else if id == 3 {
            Some(BlockId::Dirt)
        } else if id == 4 {
            Some(BlockId::Snow)
        } else {
            Some(BlockId::SnowGrass)
        }
    }

    pub fn is_solid(self) -> (r: bool)
        ensures
            r == self.spec_is_solid(),
    {
        match self {
            BlockId::Air => false,
            BlockId::Stone => true,
            BlockId::Grass => true,
            BlockId::Dirt => true,
            BlockId::SnowGrass => true,
            BlockId::Snow => true,
        }
    }
}

impl Block {
    /// Whether the block hides what lies behind it: every known kind but air
    /// does, and so does a block of unknown kind.
    pub open spec fn spec_is_solid(self) -> bool {
        match BlockId::spec_from_u16(self.id) {
            Some(id) => id.spec_is_solid(),
            None => true,
        }
    }

    pub fn is_solid(&self) -> (r: bool)
        ensures
            r == self.spec_is_solid(),
            r == (self.id != 0),
            self.id >= BLOCK_ID_END ==> r,
    {
        match BlockId::from_u16(self.id) {
            Some(id) => id.is_solid(),
            None => true,
        }
    }
}

/// The blocks of one chunk, stored by [`offset_of`].
pub struct ChunkData {
    blocks: Vec<Block>,
}

impl View for ChunkData {
    type V = Seq<Block>;

    closed spec fn view(&self) -> Seq<Block> {
        self.blocks@
    }
}

/// The block at local coordinates `p` of a chunk with blocks `blocks`, if `p`
/// lies inside the chunk.
pub open spec fn block_at(blocks: Seq<Block>, p: Pos) -> Option<Block> {
    if in_chunk(p) {
        Some(blocks[offset_of(p)])
    } else {
        None
    }
}

impl ChunkData {
    /// Holds of every chunk: it stores [`CHUNK_BLOCK_COUNT`] blocks.
    #[verifier::type_invariant]
    pub closed spec fn well_formed(self) -> bool {
        self.blocks.len() == CHUNK_BLOCK_COUNT
    }

    /// What [`ChunkData::well_formed`] says of the view.
    pub proof fn lemma_len(self)
        requires
            self.well_formed(),
        ensures
            self@.len() == CHUNK_BLOCK_COUNT,
    {
    }

    /// A chunk of air.
    pub fn new() -> (data: Self)
        ensures
            data@.len() == CHUNK_BLOCK_COUNT,
            forall|i: int| 0 <= i < CHUNK_BLOCK_COUNT ==> data@[i] == (Block { id: 0, state: 0 }),
    {
        let air = Block { id: 0, state: 0 };
        let blocks = vec![air; CHUNK_BLOCK_COUNT];
        Self { blocks }
    }

    /// The index of the block at `position`, or `None` where a coordinate
    /// falls outside the chunk.
    pub fn coords_to_offset(&self, position: Vec3i32) -> (r: Option<usize>)
        ensures
            r.is_some() == in_chunk(position@),
            r matches Some(offset) ==> offset == offset_of(position@) && offset < CHUNK_BLOCK_COUNT,
    {
        let (x, y, z): (i32, i32, i32) = (position.x(), position.y(), position.z());
        if x < 0 || y < 0 || z < 0 {
            None
        } else if x >= CHUNK_SIZE || y >= CHUNK_SIZE || z >= CHUNK_SIZE {
            None
        } else {
            let offset: i32 = y * CHUNK_LAYER + CHUNK_SIZE * z + x;
            Some(offset as usize)
        }
    }

    /// The block stored at index `offset`.
    pub fn block(&self, offset: usize) -> (b: Block)
        requires
            offset < CHUNK_BLOCK_COUNT,
        ensures
            b == self@[offset as int],
    {
        proof {
            use_type_invariant(self);
        }
        self.blocks[offset]
    }

    pub fn get_block(&self, position: Vec3i32) -> (r: Option<&Block>)
        ensures
            match r {
                Some(b) => Some(*b) == block_at(self@, position@),
                None => block_at(self@, position@).is_none(),
            },
    {
        proof {
            use_type_invariant(self);
        }
        if let Some(offset) = self.coords_to_offset(position) {
            Some(&self.blocks[offset])
        } else {
            None
        }
    }

    /// Stores `block` at `position`; does nothing where `position` falls
    /// outside the chunk.
    pub fn set_block(&mut self, position: Vec3i32, block: Block)
        ensures
            in_chunk(position@) ==> final(self)@ == old(self)@.update(offset_of(position@), block),
            !in_chunk(position@) ==> final(self)@ == old(self)@,
            old(self)@.len() == CHUNK_BLOCK_COUNT,
            final(self)@.len() == CHUNK_BLOCK_COUNT,
    {
        proof {
            use_type_invariant(&*self);
        }
        if let Some(offset) = self.coords_to_offset(position) {
            self.blocks[offset] = block;
        }
    }
}

/// A block that was stored at a place inside the chunk is found there
/// again, and the blocks at all other places are as they were.
pub proof fn lemma_set_then_get(blocks: Seq<Block>, position: Pos, block: Block, other: Pos)
    requires
        blocks.len() == CHUNK_BLOCK_COUNT,
        in_chunk(position),
    ensures
        block_at(blocks.update(offset_of(position), block), position) == Some(block),
        other != position ==> block_at(blocks.update(offset_of(position), block), other) == block_at(
            blocks,
            other,
        ),
{
}

/// The vertex and index buffers of a chunk's mesh: four vertices and six
/// indices for each face.
pub struct ChunkMesh {
    pub vertices: Vec<BlockVertex>,
    pub indices: Vec<u32>,
}

/// A chunk of the world: its blocks, its mesh once one was made, and its
/// place in the grid of chunks.
pub struct Chunk {
    pub data: ChunkData,
    pub mesh: Option<ChunkMesh>,
    pub position: Vec3i32,
}

impl Chunk {
    /// A chunk that has no mesh yet.
    pub fn new(position: Vec3i32, data: ChunkData) -> (chunk: Self)
        ensures
            chunk.data == data,
            chunk.position == position,
            chunk.mesh.is_none(),
    {
        Self { data, position, mesh: None }
    }
}

} // verus!
