//! The layers of the terrain: which block lies at which height of a column.

use crate::game::chunk::{
    in_chunk, offset_of, Block, Chunk, ChunkData, CHUNK_BLOCK_COUNT, CHUNK_SIZE,
};
use crate::math::{vec2, vec3, Pos, Vec2i32, Vec3i32};
use vstd::prelude::*;

verus! {

/// The block at height `y` of a column whose top is at `height`, for `y` at
/// or below the top: stone below the top five layers; in them snow above
/// height 85; else grass on top, snowy above height 64, and dirt below the
/// top.
pub open spec fn spec_top_layer_block(y: int, height: int) -> Block {
    if y > height - 5 {
        if y > 85 {
            Block { id: 4, state: 0 }
        } else if y == height {
            if y > 64 {
                Block { id: 5, state: 0 }
            } else {
                Block { id: 2, state: 0 }
            }
        } else {
            Block { id: 3, state: 0 }
        }
    } else {
        Block { id: 1, state: 0 }
    }
}

/// The block at height `y` of a column whose top is at `height`: air above
/// the top, and below as [`spec_top_layer_block`] says.
pub open spec fn spec_column_block(y: int, height: int) -> Block {
    if y > height {
        Block { id: 0, state: 0 }
    } else {
        spec_top_layer_block(y, height)
    }
}

/// Whether the blocks of the chunk at `p` have `i32` global coordinates.
pub open spec fn addressable(p: Pos) -> bool {
    &&& -0x400_0000 <= p.x < 0x400_0000
    &&& -0x400_0000 <= p.y < 0x400_0000
    &&& -0x400_0000 <= p.z < 0x400_0000
}

/// The global x and z coordinates of the column at `(x, z)` of the chunk at
/// `p`.
pub open spec fn column_of(p: Pos, x: int, z: int) -> (int, int) {
    (p.x * CHUNK_SIZE + x, p.z * CHUNK_SIZE + z)
}

/// Whether the column at `(x, z)` of the chunk at `p` with the blocks
/// `blocks` is that of a terrain whose top is at `height` there.
pub open spec fn column_matches(blocks: Seq<Block>, p: Pos, x: int, z: int, height: int) -> bool {
    forall|y: int|
        0 <= y < CHUNK_SIZE ==> blocks[#[trigger] offset_of(Pos { x, y, z })] == spec_column_block(
            p.y * CHUNK_SIZE + y,
            height,
        )
}

/// Whether the column at `(x, z)` of the chunk at `p` is that of a terrain
/// with a height that `height_at` gives for the column.
pub open spec fn column_generated<H: Fn(Vec2i32) -> i32>(
    blocks: Seq<Block>,
    p: Pos,
    height_at: &H,
    x: int,
    z: int,
) -> bool {
    exists|column: Vec2i32, height: i32|
        {
            &&& (column.0@[0] as int, column.0@[1] as int) == column_of(p, x, z)
            &&& #[trigger] height_at.ensures((column,), height)
            &&& column_matches(blocks, p, x, z, height as int)
        }
}

/// Whether `blocks` are the blocks of the chunk at `p` of a terrain whose
/// columns have the heights that `height_at` gives.
pub open spec fn terrain_of<H: Fn(Vec2i32) -> i32>(blocks: Seq<Block>, p: Pos, height_at: &H) -> bool {
    forall|x: int, z: int|
        0 <= x < CHUNK_SIZE && 0 <= z < CHUNK_SIZE ==> #[trigger] column_generated(
            blocks,
            p,
            height_at,
            x,
            z,
        )
}

pub fn get_top_layer_block(y: i32, height: i32) -> (block: Block)
    ensures
        block == spec_top_layer_block(y as int, height as int),
{
    if y as i64 > height as i64 - 5 {
        if y > 85 {
            Block { id: 4, state: 0 }
        } else if y == height {
            if y > 64 {
                Block { id: 5, state: 0 }
            } else {
                Block { id: 2, state: 0 }
            }
        } else {
            Block { id: 3, state: 0 }
        }
    } else {
        Block { id: 1, state: 0 }
    }
}

/// Fills the column at `(x, z)` of `data`, the blocks of the chunk at
/// height `chunk_y`, up to the top of the terrain at `height`; the blocks
/// above the top stay as they are.
pub fn fill_column(data: &mut ChunkData, chunk_y: i32, x: i32, z: i32, height: i32)
    requires
        0 <= x < CHUNK_SIZE,
        0 <= z < CHUNK_SIZE,
        -0x400_0000 <= chunk_y < 0x400_0000,
    ensures
        final(data)@.len() == old(data)@.len(),
        forall|y: int|
            0 <= y < CHUNK_SIZE ==> final(data)@[#[trigger] offset_of(
                Pos { x: x as int, y, z: z as int },
            )] == if chunk_y * CHUNK_SIZE + y <= height {
                spec_top_layer_block(chunk_y * CHUNK_SIZE + y, height as int)
            } else {
                old(data)@[offset_of(Pos { x: x as int, y, z: z as int })]
            },
        forall|i: int|
            0 <= i < CHUNK_BLOCK_COUNT && (forall|y: int|
                0 <= y < CHUNK_SIZE ==> i != #[trigger] offset_of(Pos { x: x as int, y, z: z as int }))
                ==> final(data)@[i] == old(data)@[i],
{
    proof {
        use_type_invariant(&*data);
        data.lemma_len();
    }
    let mut y: i32 = 0;
    while y < CHUNK_SIZE && y + chunk_y * CHUNK_SIZE <= height
        invariant
            0 <= y <= CHUNK_SIZE,
            0 <= x < CHUNK_SIZE,
            0 <= z < CHUNK_SIZE,
            -0x400_0000 <= chunk_y < 0x400_0000,
            data@.len() == old(data)@.len(),
            data@.len() == CHUNK_BLOCK_COUNT,
            y > 0 ==> chunk_y * CHUNK_SIZE + (y - 1) <= height,
            forall|k: int|
                0 <= k < y ==> data@[#[trigger] offset_of(Pos { x: x as int, y: k, z: z as int })]
                    == spec_top_layer_block(chunk_y * CHUNK_SIZE + k, height as int),
            forall|k: int|
                y <= k < CHUNK_SIZE ==> data@[#[trigger] offset_of(
                    Pos { x: x as int, y: k, z: z as int },
                )] == old(data)@[offset_of(Pos { x: x as int, y: k, z: z as int })],
            forall|i: int|
                0 <= i < CHUNK_BLOCK_COUNT && (forall|k: int|
                    0 <= k < CHUNK_SIZE ==> i != #[trigger] offset_of(
                        Pos { x: x as int, y: k, z: z as int },
                    )) ==> data@[i] == old(data)@[i],
        decreases CHUNK_SIZE - y,
    {
        let world_y: i32 = y + chunk_y * CHUNK_SIZE;
        let ghost before = data@;
        let ghost here = Pos { x: x as int, y: y as int, z: z as int };
        data.set_block(vec3(x, y, z), get_top_layer_block(world_y, height));
        proof {
            assert(data@ == before.update(offset_of(here), spec_top_layer_block(
                chunk_y * CHUNK_SIZE + y,
                height as int,
            )));
            assert forall|k: int| 0 <= k < CHUNK_SIZE && k != y implies offset_of(
                Pos { x: x as int, y: k, z: z as int },
            ) != offset_of(here) by {}
        }
        y += 1;
    }
}

/// Whether `blocks` differs from `before` in the column at `(x, z)` at
/// most.
pub open spec fn same_but_column(blocks: Seq<Block>, before: Seq<Block>, x: int, z: int) -> bool {
    &&& blocks.len() == before.len()
    &&& forall|i: int|
        0 <= i < CHUNK_BLOCK_COUNT && (forall|y: int|
            0 <= y < CHUNK_SIZE ==> i != #[trigger] offset_of(Pos { x, y, z })) ==> blocks[i]
            == before[i]
}

/// A block outside the column at `(x, z)` is as it was.
proof fn lemma_other_column(blocks: Seq<Block>, before: Seq<Block>, x: int, z: int, other: Pos)
    requires
        same_but_column(blocks, before, x, z),
        0 <= x < CHUNK_SIZE,
        0 <= z < CHUNK_SIZE,
        in_chunk(other),
        other.x != x || other.z != z,
    ensures
        blocks[offset_of(other)] == before[offset_of(other)],
{
    let i = offset_of(other);
    assert forall|y: int| 0 <= y < CHUNK_SIZE implies i != #[trigger] offset_of(Pos { x, y, z }) by {
        crate::game::mesh::lemma_pos_round_trip(other);
        crate::game::mesh::lemma_pos_round_trip(Pos { x, y, z });
    }
    crate::game::mesh::lemma_pos_round_trip(other);
}

/// The blocks of the chunk at `chunk_pos` of a terrain whose columns have
/// the heights that `height_at` gives; no chunk where the blocks of the
/// chunk at `chunk_pos` have no `i32` global coordinates.
pub fn generate_chunk<H: Fn(Vec2i32) -> i32>(chunk_pos: Vec3i32, height_at: &H) -> (r: Option<Chunk>)
    requires
        forall|column: Vec2i32| height_at.requires((column,)),
    ensures
        r.is_some() == addressable(chunk_pos@),
        r matches Some(chunk) ==> chunk.position == chunk_pos && chunk.mesh is None && terrain_of(
            chunk.data@,
            chunk_pos@,
            height_at,
        ),
{
    let (cx, cy, cz): (i32, i32, i32) = (chunk_pos.x(), chunk_pos.y(), chunk_pos.z());
    if cx < -0x400_0000 || cx >= 0x400_0000 || cy < -0x400_0000 || cy >= 0x400_0000 || cz
        < -0x400_0000 || cz >= 0x400_0000 {
        return None;
    }
    let mut data = ChunkData::new();
    let ghost p = chunk_pos@;
    let mut z: i32 = 0;
    while z < CHUNK_SIZE
        invariant
            0 <= z <= CHUNK_SIZE,
            p == chunk_pos@,
            addressable(p),
            cx == p.x && cy == p.y && cz == p.z,
            data@.len() == CHUNK_BLOCK_COUNT,
            forall|column: Vec2i32| height_at.requires((column,)),
            forall|x2: int, z2: int|
                0 <= x2 < CHUNK_SIZE && 0 <= z2 < z ==> #[trigger] column_generated(
                    data@,
                    p,
                    height_at,
                    x2,
                    z2,
                ),
            forall|other: Pos|
                in_chunk(other) && other.z >= z ==> data@[#[trigger] offset_of(other)] == (Block {
                    id: 0,
                    state: 0,
                }),
        decreases CHUNK_SIZE - z,
    {
        let mut x: i32 = 0;
        while x < CHUNK_SIZE
            invariant
                0 <= z < CHUNK_SIZE,
                0 <= x <= CHUNK_SIZE,
                p == chunk_pos@,
                addressable(p),
                cx == p.x && cy == p.y && cz == p.z,
                data@.len() == CHUNK_BLOCK_COUNT,
                forall|column: Vec2i32| height_at.requires((column,)),
                forall|x2: int, z2: int|
                    0 <= x2 < CHUNK_SIZE && 0 <= z2 < CHUNK_SIZE && (z2 < z || (z2 == z && x2 < x))
                        ==> #[trigger] column_generated(data@, p, height_at, x2, z2),
                forall|other: Pos|
                    in_chunk(other) && (other.z > z || (other.z == z && other.x >= x))
                        ==> data@[#[trigger] offset_of(other)] == (Block { id: 0, state: 0 }),
            decreases CHUNK_SIZE - x,
        {
            let column = vec2(cx * CHUNK_SIZE + x, cz * CHUNK_SIZE + z);
            let height: i32 = height_at(column);
            let ghost before = data@;
            proof {
                assert forall|y: int| 0 <= y < CHUNK_SIZE implies before[#[trigger] offset_of(
                    Pos { x: x as int, y, z: z as int },
                )] == (Block { id: 0, state: 0 }) by {
                    assert(in_chunk(Pos { x: x as int, y, z: z as int }));
                }
            }
            fill_column(&mut data, cy, x, z, height);
            proof {
                assert(same_but_column(data@, before, x as int, z as int));
                assert(column_matches(data@, p, x as int, z as int, height as int));
                assert(column_generated(data@, p, height_at, x as int, z as int));
                assert forall|x2: int, z2: int|
                    0 <= x2 < CHUNK_SIZE && 0 <= z2 < CHUNK_SIZE && (z2 < z || (z2 == z && x2 < x
                        + 1)) implies #[trigger] column_generated(data@, p, height_at, x2, z2) by {
                    if x2 != x || z2 != z {
                        assert(column_generated(before, p, height_at, x2, z2));
                        let (c2, h2) = choose|c2: Vec2i32, h2: i32|
                            {
                                &&& (c2.0@[0] as int, c2.0@[1] as int) == column_of(p, x2, z2)
                                &&& #[trigger] height_at.ensures((c2,), h2)
                                &&& column_matches(before, p, x2, z2, h2 as int)
                            };
                        assert forall|y: int| 0 <= y < CHUNK_SIZE implies data@[#[trigger] offset_of(
                            Pos { x: x2, y, z: z2 },
                        )] == spec_column_block(p.y * CHUNK_SIZE + y, h2 as int) by {
                            lemma_other_column(
                                data@,
                                before,
                                x as int,
                                z as int,
                                Pos { x: x2, y, z: z2 },
                            );
                        }
                        assert(column_matches(data@, p, x2, z2, h2 as int));
                    }
                }
                assert forall|other: Pos|
                    in_chunk(other) && (other.z > z || (other.z == z && other.x >= x + 1)) implies data@[#[trigger] offset_of(
                    other,
                )] == (Block { id: 0, state: 0 }) by {
                    lemma_other_column(data@, before, x as int, z as int, other);
                }
            }
            x += 1;
        }
        z += 1;
    }
    Some(Chunk::new(chunk_pos, data))
}

} // verus!
