//! The mesh of a chunk: which faces it holds, in which order, and what each
//! vertex of a face says.

use crate::game::chunk::{
    in_chunk, offset_of, pos_of_offset, Block, BlockId, Chunk, ChunkData, ChunkMesh,
    CHUNK_BLOCK_COUNT, CHUNK_LAYER, CHUNK_SIZE,
};
use crate::game::chunk_map::ChunkMap;
use crate::game::renderer::chunk::{spec_vertex, BlockVertex};
use crate::game::texture::{spec_texture_index, BlockTextures, LoadedTextures};
use crate::game::Dir;
use crate::math::{vec3, Pos, Vec3i32};
use vstd::prelude::*;

verus! {

/// Number of faces that the blocks of a chunk have: the faces are numbered
/// block by block in storage order, and within a block in the order of
/// [`Dir::all`].
pub const FACE_SLOTS: usize = 196608;

/// The corner of the unit cube with number `i`, in half blocks from the
/// centre of the cube.
pub open spec fn spec_cube_vertex(i: int) -> Pos {
    if i == 0 {
        Pos { x: 1, y: 1, z: 1 }
    } else if i == 1 {
        Pos { x: 1, y: 1, z: -1 }
    } else if i == 2 {
        Pos { x: -1, y: 1, z: -1 }
    } else if i == 3 {
        Pos { x: -1, y: 1, z: 1 }
    } else if i == 4 {
        Pos { x: 1, y: -1, z: 1 }
    } else if i == 5 {
        Pos { x: 1, y: -1, z: -1 }
    } else if i == 6 {
        Pos { x: -1, y: -1, z: -1 }
    } else {
        Pos { x: -1, y: -1, z: 1 }
    }
}

/// The numbers of the four cube corners of the face in direction `dir`, in
/// the order in which its vertices are emitted.
pub open spec fn spec_cube_face(dir: Dir) -> Seq<int> {
    match dir {
        Dir::PX => seq![5, 4, 0, 1],
        Dir::NX => seq![7, 6, 2, 3],
        Dir::PY => seq![3, 2, 1, 0],
        Dir::NY => seq![4, 5, 6, 7],
        Dir::PZ => seq![4, 7, 3, 0],
        Dir::NZ => seq![6, 5, 1, 2],
    }
}

/// Corner `corner` of the face in direction `dir`, in half blocks from the
/// centre of the block.
pub open spec fn spec_face_corner(dir: Dir, corner: int) -> Pos {
    spec_cube_vertex(spec_cube_face(dir)[corner])
}

/// The two triangles of a face, as offsets from its first vertex.
pub open spec fn spec_face_fan(i: int) -> int {
    if i == 0 {
        0
    } else if i == 1 {
        1
    } else if i == 2 {
        2
    } else if i == 3 {
        2
    } else if i == 4 {
        3
    } else {
        0
    }
}

/// Where a probe that leaves the chunk along an axis lands in the chunk it
/// enters: on the near edge when it left upwards, on the far edge when it
/// left downwards, and at the same coordinate when it did not move along the
/// axis.
pub open spec fn spec_wrap(step: int, local: int) -> int {
    if step == 0 {
        local
    } else if step > 0 {
        0
    } else {
        CHUNK_SIZE - 1
    }
}

/// The blocks of each chunk of a map, by position.
pub open spec fn grid_of(chunks: Map<Pos, Chunk>) -> Map<Pos, Seq<Block>> {
    chunks.map_values(|chunk: Chunk| chunk.data@)
}

/// All that the mesh of a chunk depends on.
pub struct MeshInput {
    /// The blocks of the chunk.
    pub own: Seq<Block>,
    /// The position of the chunk.
    pub position: Pos,
    /// The blocks of the loaded chunks.
    pub grid: Map<Pos, Seq<Block>>,
    /// The textures of the kinds of block.
    pub textures: Map<BlockId, BlockTextures>,
    /// For each corner of a face, the slot that its occlusion level goes to.
    pub ao_index_map: Seq<u32>,
}

impl MeshInput {
    /// Whether the cell at `local + offset` counts as solid. Inside the
    /// chunk its block decides. Outside, the chunk at `offset` from this one
    /// decides, with the block at which the probe lands; where that chunk
    /// is not loaded the cell counts as solid.
    pub open spec fn solid_at(self, local: Pos, offset: Pos) -> bool {
        let target = local.plus(offset);
        if in_chunk(target) {
            self.own[offset_of(target)].spec_is_solid()
        } else if self.grid.contains_key(self.position.plus(offset)) {
            let landing = Pos {
                x: spec_wrap(offset.x, local.x),
                y: spec_wrap(offset.y, local.y),
                z: spec_wrap(offset.z, local.z),
            };
            self.grid[self.position.plus(offset)][offset_of(landing)].spec_is_solid()
        } else {
            true
        }
    }

    /// Whether the mesh holds the face in direction `dir` of the block at
    /// `local`: the block is not air and the cell that the face looks at
    /// does not count as solid.
    pub open spec fn face_emitted(self, local: Pos, dir: Dir) -> bool {
        &&& in_chunk(local)
        &&& self.own[offset_of(local)].id != 0
        &&& !self.solid_at(local, dir.spec_normal())
    }

    /// The occlusion level at corner `corner` of the face in direction `dir`
    /// of the block at `local`, from the diagonal cell at that corner and the
    /// two cells that share an edge of the face with it.
    pub open spec fn corner_level(self, local: Pos, dir: Dir, corner: int) -> u8 {
        let vertex = spec_face_corner(dir, corner);
        let cross = dir.spec_exclude_axis(vertex);
        let corner_solid = self.solid_at(local, vertex);
        let edge1 = self.solid_at(local, dir.spec_with_others(cross.0, 0));
        let edge2 = self.solid_at(local, dir.spec_with_others(0, cross.1));
        spec_occlusion(edge1, edge2, corner_solid)
    }

    /// The four occlusion levels of a face, each in the slot that
    /// `ao_index_map` gives its corner.
    pub open spec fn face_ao(self, local: Pos, dir: Dir) -> Seq<u8> {
        spec_ao_slots(
            self.ao_index_map,
            self.corner_level(local, dir, 0),
            self.corner_level(local, dir, 1),
            self.corner_level(local, dir, 2),
            self.corner_level(local, dir, 3),
        )
    }

    /// The vertex at corner `corner` of the face in direction `dir` of the
    /// block at `local`.
    pub open spec fn face_vertex(self, local: Pos, dir: Dir, corner: int) -> BlockVertex {
        spec_vertex(
            local.times(2).plus(spec_face_corner(dir, corner)),
            corner as u8,
            dir,
            self.face_ao(local, dir),
            spec_texture_index(self.textures, self.own[offset_of(local)].id, dir),
        )
    }

    /// Whether the mesh holds the face with number `slot`.
    pub open spec fn slot_emitted(self, slot: int) -> bool {
        self.face_emitted(pos_of_offset(slot / 6), Dir::spec_from_index(slot % 6))
    }

    /// The numbers below `n` of the faces that the mesh holds, ascending.
    pub open spec fn emitted_slots(self, n: int) -> Seq<int>
        decreases n,
    {
        if n <= 0 {
            Seq::empty()
        } else if self.slot_emitted(n - 1) {
            self.emitted_slots(n - 1).push(n - 1)
        } else {
            self.emitted_slots(n - 1)
        }
    }

    /// The vertices of the faces numbered in `slots`: four for each.
    pub open spec fn vertices_of(self, slots: Seq<int>) -> Seq<BlockVertex> {
        Seq::new(
            4 * slots.len(),
            |i: int|
                self.face_vertex(
                    pos_of_offset(slots[i / 4] / 6),
                    Dir::spec_from_index(slots[i / 4] % 6),
                    i % 4,
                ),
        )
    }

    /// The faces of the mesh, by number, in the order in which the mesh
    /// holds them.
    pub open spec fn faces(self) -> Seq<int> {
        self.emitted_slots(FACE_SLOTS as int)
    }

    /// The vertex buffer of the mesh.
    pub open spec fn mesh_vertices(self) -> Seq<BlockVertex> {
        self.vertices_of(self.faces())
    }

    /// The index buffer of the mesh.
    pub open spec fn mesh_indices(self) -> Seq<u32> {
        spec_face_indices(self.faces().len() as int)
    }
}

/// Four slots that start at 0, after the level of each corner in turn was
/// put in the slot that `map` gives the corner.
pub open spec fn spec_ao_slots(map: Seq<u32>, l0: u8, l1: u8, l2: u8, l3: u8) -> Seq<u8> {
    seq![0u8, 0u8, 0u8, 0u8].update(map[0] as int, l0).update(map[1] as int, l1).update(
        map[2] as int,
        l2,
    ).update(map[3] as int, l3)
}

/// The occlusion level of a corner: 3 where both edge cells are solid, and
/// otherwise 3 less the number of solid cells among the three.
pub open spec fn spec_occlusion(edge1: bool, edge2: bool, corner: bool) -> u8 {
    if edge1 && edge2 {
        3
    } else {
        (3 - ((if edge1 { 1int } else { 0 }) + (if edge2 { 1int } else { 0 }) + (if corner { 1int } else { 0 }))) as u8
    }
}

/// The index buffer of a mesh of `count` faces: six indices for each, which
/// fan its four vertices out into two triangles.
pub open spec fn spec_face_indices(count: int) -> Seq<u32> {
    Seq::new((6 * count) as nat, |i: int| (4 * (i / 6) + spec_face_fan(i % 6)) as u32)
}

/// What the mesh of a chunk with blocks `own` at `position` depends on, in a
/// world with the chunks `chunks`.
pub open spec fn mesh_input(
    own: Seq<Block>,
    position: Pos,
    chunks: Map<Pos, Chunk>,
    textures: Map<BlockId, BlockTextures>,
    ao_index_map: Seq<u32>,
) -> MeshInput {
    MeshInput { own, position, grid: grid_of(chunks), textures, ao_index_map }
}

/// Whether `offset` is a step of at most one cell along each axis.
pub open spec fn unit_step(offset: Pos) -> bool {
    &&& -1 <= offset.x <= 1
    &&& -1 <= offset.y <= 1
    &&& -1 <= offset.z <= 1
}

fn cube_vertex(i: usize) -> (v: Vec3i32)
    requires
        i < 8,
    ensures
        v@ == spec_cube_vertex(i as int),
{
    if i == 0 {
        vec3(1, 1, 1)
    } else if i == 1 {
        vec3(1, 1, -1)
    } else if i == 2 {
        vec3(-1, 1, -1)
    } else if i == 3 {
        vec3(-1, 1, 1)
    } else if i == 4 {
        vec3(1, -1, 1)
    } else if i == 5 {
        vec3(1, -1, -1)
    } else if i == 6 {
        vec3(-1, -1, -1)
    } else {
        vec3(-1, -1, 1)
    }
}

fn cube_face(dir: Dir) -> (face: [usize; 4])
    ensures
        forall|k: int| 0 <= k < 4 ==> #[trigger] face@[k] == spec_cube_face(dir)[k],
        forall|k: int| 0 <= k < 4 ==> #[trigger] face@[k] < 8,
{
    match dir {
        Dir::PX => [5, 4, 0, 1],
        Dir::NX => [7, 6, 2, 3],
        Dir::PY => [3, 2, 1, 0],
        Dir::NY => [4, 5, 6, 7],
        Dir::PZ => [4, 7, 3, 0],
        Dir::NZ => [6, 5, 1, 2],
    }
}

fn face_corner(dir: Dir, corner: usize) -> (v: Vec3i32)
    requires
        corner < 4,
    ensures
        v@ == spec_face_corner(dir, corner as int),
        unit_step(v@),
{
    let face = cube_face(dir);
    cube_vertex(face[corner])
}

fn wrap(step: i32, local: i32) -> (r: i32)
    ensures
        r == spec_wrap(step as int, local as int),
{
    if step == 0 {
        local
    } else if step > 0 {
        0
    } else {
        CHUNK_SIZE - 1
    }
}

fn occlusion(edge1: bool, edge2: bool, corner: bool) -> (level: u8)
    ensures
        level == spec_occlusion(edge1, edge2, corner),
        level <= 3,
{
    if edge1 && edge2 {
        3
    } else {
        let e1: u8 = if edge1 { 1 } else { 0 };
        let e2: u8 = if edge2 { 1 } else { 0 };
        let c: u8 = if corner { 1 } else { 0 };
        3 - (e1 + e2 + c)
    }
}

/// The local coordinates of the block stored at index `offset`.
fn position_of_offset(offset: usize) -> (p: Vec3i32)
    requires
        offset < CHUNK_BLOCK_COUNT,
    ensures
        p@ == pos_of_offset(offset as int),
        in_chunk(p@),
        offset_of(p@) == offset,
{
    proof {
        lemma_offset_round_trip(offset as int);
    }
    let o: i32 = offset as i32;
    vec3(o % CHUNK_SIZE, o / CHUNK_LAYER, (o / CHUNK_SIZE) % CHUNK_SIZE)
}

impl ChunkData {
    /// Whether the cell at `local + offset` counts as solid for the mesh of
    /// this chunk at `chunk_position`.
    fn is_block_solid_at(
        &self,
        chunk_position: &Vec3i32,
        chunks: &ChunkMap,
        local: &Vec3i32,
        offset: &Vec3i32,
        Ghost(input): Ghost<MeshInput>,
    ) -> (r: bool)
        requires
            input.own == self@,
            input.position == chunk_position@,
            input.grid == grid_of(chunks@),
            in_chunk(local@),
            unit_step(offset@),
        ensures
            r == input.solid_at(local@, offset@),
    {
        let target = vec3(local.x() + offset.x(), local.y() + offset.y(), local.z() + offset.z());
        if let Some(index) = self.coords_to_offset(target) {
            self.block(index).is_solid()
        } else {
            proof {
                chunks.lemma_positions_fit();
            }
            match chunk_position.checked_add(offset) {
                Some(neighbor_position) => match chunks.get(&neighbor_position) {
                    Some(neighbor) => {
                        let landing = vec3(
                            wrap(offset.x(), local.x()),
                            wrap(offset.y(), local.y()),
                            wrap(offset.z(), local.z()),
                        );
                        let index: i32 = landing.y() * CHUNK_LAYER + CHUNK_SIZE * landing.z()
                            + landing.x();
                        neighbor.data.block(index as usize).is_solid()
                    },
                    None => true,
                },
                None => true,
            }
        }
    }

    /// The occlusion level at corner `corner` of the face in direction `dir`
    /// of the block at `local`.
    fn corner_occlusion(
        &self,
        chunk_position: &Vec3i32,
        chunks: &ChunkMap,
        local: &Vec3i32,
        dir: Dir,
        corner: usize,
        Ghost(input): Ghost<MeshInput>,
    ) -> (level: u8)
        requires
            input.own == self@,
            input.position == chunk_position@,
            input.grid == grid_of(chunks@),
            in_chunk(local@),
            corner < 4,
        ensures
            level == input.corner_level(local@, dir, corner as int),
            level <= 3,
    {
        let vertex = face_corner(dir, corner);
        let cross = dir.exclude_axis(vertex);
        let corner_solid = self.is_block_solid_at(chunk_position, chunks, local, &vertex, Ghost(input));
        let edge1 = self.is_block_solid_at(
            chunk_position,
            chunks,
            local,
            &dir.with_others(crate::math::vec2(cross.0[0], 0)),
            Ghost(input),
        );
        let edge2 = self.is_block_solid_at(
            chunk_position,
            chunks,
            local,
            &dir.with_others(crate::math::vec2(0, cross.0[1])),
            Ghost(input),
        );
        occlusion(edge1, edge2, corner_solid)
    }

    /// The four occlusion levels of the face in direction `dir` of the block
    /// at `local`, each in its slot.
    fn face_occlusion(
        &self,
        chunk_position: &Vec3i32,
        chunks: &ChunkMap,
        local: &Vec3i32,
        dir: Dir,
        ao_index_map: &[u32; 4],
        Ghost(input): Ghost<MeshInput>,
    ) -> (ao: [u8; 4])
        requires
            input.own == self@,
            input.position == chunk_position@,
            input.grid == grid_of(chunks@),
            input.ao_index_map == ao_index_map@,
            forall|i: int| 0 <= i < 4 ==> #[trigger] ao_index_map@[i] < 4,
            in_chunk(local@),
        ensures
            ao@ == input.face_ao(local@, dir),
    {
        let mut ao: [u8; 4] = [0u8; 4];
        assert(ao@ =~= seq![0u8, 0u8, 0u8, 0u8]);
        let l0 = self.corner_occlusion(chunk_position, chunks, local, dir, 0, Ghost(input));
        ao[ao_index_map[0] as usize] = l0;
        let l1 = self.corner_occlusion(chunk_position, chunks, local, dir, 1, Ghost(input));
        ao[ao_index_map[1] as usize] = l1;
        let l2 = self.corner_occlusion(chunk_position, chunks, local, dir, 2, Ghost(input));
        ao[ao_index_map[2] as usize] = l2;
        let l3 = self.corner_occlusion(chunk_position, chunks, local, dir, 3, Ghost(input));
        ao[ao_index_map[3] as usize] = l3;
        ao
    }
}

impl MeshInput {
    /// There are no more faces below `n` than numbers.
    pub proof fn lemma_emitted_slots_len(self, n: int)
        requires
            0 <= n,
        ensures
            self.emitted_slots(n).len() <= n,
        decreases n,
    {
        if n > 0 {
            self.lemma_emitted_slots_len(n - 1);
        }
    }

    /// A block of air adds no face.
    proof fn lemma_air_block(self, block: int, k: int)
        requires
            0 <= block < CHUNK_BLOCK_COUNT,
            0 <= k <= 6,
            self.own[block].id == 0,
        ensures
            self.emitted_slots(6 * block + k) == self.emitted_slots(6 * block),
        decreases k,
    {
        if k > 0 {
            self.lemma_air_block(block, k - 1);
            let slot = 6 * block + k - 1;
            lemma_slot_parts(block, k - 1);
            lemma_offset_round_trip(block);
            assert(!self.slot_emitted(slot));
        }
    }

    /// One more face adds its four vertices at the end of the vertex buffer.
    proof fn lemma_vertices_push(self, slots: Seq<int>, slot: int)
        ensures
            self.vertices_of(slots.push(slot)) == self.vertices_of(slots) + seq![
                self.face_vertex(pos_of_offset(slot / 6), Dir::spec_from_index(slot % 6), 0),
                self.face_vertex(pos_of_offset(slot / 6), Dir::spec_from_index(slot % 6), 1),
                self.face_vertex(pos_of_offset(slot / 6), Dir::spec_from_index(slot % 6), 2),
                self.face_vertex(pos_of_offset(slot / 6), Dir::spec_from_index(slot % 6), 3),
            ],
    {
        let n = slots.len() as int;
        let longer = self.vertices_of(slots.push(slot));
        let sum = self.vertices_of(slots) + seq![
            self.face_vertex(pos_of_offset(slot / 6), Dir::spec_from_index(slot % 6), 0),
            self.face_vertex(pos_of_offset(slot / 6), Dir::spec_from_index(slot % 6), 1),
            self.face_vertex(pos_of_offset(slot / 6), Dir::spec_from_index(slot % 6), 2),
            self.face_vertex(pos_of_offset(slot / 6), Dir::spec_from_index(slot % 6), 3),
        ];
        assert(longer.len() == sum.len());
        assert forall|i: int| 0 <= i < longer.len() implies longer[i] == sum[i] by {
            if i < 4 * n {
                assert(i / 4 < n);
                assert(slots.push(slot)[i / 4] == slots[i / 4]);
            } else {
                assert(i / 4 == n);
                assert(slots.push(slot)[i / 4] == slot);
                assert(i % 4 == i - 4 * n);
            }
        }
        assert(longer =~= sum);
    }
}

/// The index of a block and its local coordinates determine each other.
pub proof fn lemma_offset_round_trip(offset: int)
    requires
        0 <= offset < CHUNK_BLOCK_COUNT,
    ensures
        in_chunk(pos_of_offset(offset)),
        offset_of(pos_of_offset(offset)) == offset,
{
    let x = offset % 32;
    let rows = offset / 32;
    let z = rows % 32;
    let y = rows / 32;
    assert(offset == 32 * rows + x);
    assert(rows == 32 * y + z);
    assert(offset / 1024 == y);
}

/// The local coordinates of a block and its index determine each other.
pub proof fn lemma_pos_round_trip(local: Pos)
    requires
        in_chunk(local),
    ensures
        0 <= offset_of(local) < CHUNK_BLOCK_COUNT,
        pos_of_offset(offset_of(local)) == local,
{
    let offset = offset_of(local);
    assert(offset == 32 * (32 * local.y + local.z) + local.x);
    assert(offset % 32 == local.x);
    assert(offset / 32 == 32 * local.y + local.z);
    assert(offset == 1024 * local.y + (32 * local.z + local.x));
    assert(offset / 1024 == local.y);
}

/// The number of face `d` of the block at index `offset` names both.
proof fn lemma_slot_parts(offset: int, d: int)
    requires
        0 <= offset < CHUNK_BLOCK_COUNT,
        0 <= d < 6,
    ensures
        0 <= 6 * offset + d < FACE_SLOTS,
        (6 * offset + d) / 6 == offset,
        (6 * offset + d) % 6 == d,
{
}

/// One more face adds its six indices at the end of the index buffer.
proof fn lemma_indices_push(count: int)
    requires
        0 <= count < FACE_SLOTS,
    ensures
        spec_face_indices(count + 1) == spec_face_indices(count) + seq![
            (4 * count) as u32,
            (4 * count + 1) as u32,
            (4 * count + 2) as u32,
            (4 * count + 2) as u32,
            (4 * count + 3) as u32,
            (4 * count) as u32,
        ],
{
    let longer = spec_face_indices(count + 1);
    let sum = spec_face_indices(count) + seq![
        (4 * count) as u32,
        (4 * count + 1) as u32,
        (4 * count + 2) as u32,
        (4 * count + 2) as u32,
        (4 * count + 3) as u32,
        (4 * count) as u32,
    ];
    assert(longer.len() == sum.len());
    assert forall|i: int| 0 <= i < longer.len() implies longer[i] == sum[i] by {
        if i >= 6 * count {
            assert(i / 6 == count);
            assert(i % 6 == i - 6 * count);
        }
    }
    assert(longer =~= sum);
}

/// Appends one face to the buffers of a mesh of `count` faces.
fn push_face(
    vertices: &mut Vec<BlockVertex>,
    indices: &mut Vec<u32>,
    corners: [BlockVertex; 4],
    Ghost(count): Ghost<int>,
)
    requires
        0 <= count < FACE_SLOTS,
        old(vertices)@.len() == 4 * count,
        old(indices)@ == spec_face_indices(count),
    ensures
        final(vertices)@ == old(vertices)@ + seq![corners@[0], corners@[1], corners@[2], corners@[3]],
        final(indices)@ == spec_face_indices(count + 1),
{
    let start_index: u32 = vertices.len() as u32;
    vertices.push(corners[0]);
    vertices.push(corners[1]);
    vertices.push(corners[2]);
    vertices.push(corners[3]);
    indices.push(start_index);
    indices.push(start_index + 1);
    indices.push(start_index + 2);
    indices.push(start_index + 2);
    indices.push(start_index + 3);
    indices.push(start_index);
    proof {
        lemma_indices_push(count);
        assert(final(vertices)@ =~= old(vertices)@ + seq![
            corners@[0],
            corners@[1],
            corners@[2],
            corners@[3],
        ]);
        assert(final(indices)@ =~= old(indices)@ + seq![
            (4 * count) as u32,
            (4 * count + 1) as u32,
            (4 * count + 2) as u32,
            (4 * count + 2) as u32,
            (4 * count + 3) as u32,
            (4 * count) as u32,
        ]);
    }
}

impl ChunkData {
    /// The vertex at corner `corner` of the face in direction `dir` of the
    /// block `block` at `local`.
    fn corner_vertex(
        local: &Vec3i32,
        dir: Dir,
        corner: usize,
        ao: &[u8; 4],
        texture: u32,
    ) -> (v: BlockVertex)
        requires
            in_chunk(local@),
            corner < 4,
        ensures
            v == spec_vertex(
                local@.times(2).plus(spec_face_corner(dir, corner as int)),
                corner as u8,
                dir,
                ao@,
                texture,
            ),
    {
        let vertex = face_corner(dir, corner);
        let position = vec3(
            2 * local.x() + vertex.x(),
            2 * local.y() + vertex.y(),
            2 * local.z() + vertex.z(),
        );
        BlockVertex::new(position, corner as u8, dir, ao, texture)
    }

    /// Appends the face with number `slot` to the buffers if it is emitted.
    fn emit_face(
        &self,
        chunk_position: &Vec3i32,
        chunks: &ChunkMap,
        block_textures: &LoadedTextures,
        ao_index_map: &[u32; 4],
        local: &Vec3i32,
        block: Block,
        dir: Dir,
        vertices: &mut Vec<BlockVertex>,
        indices: &mut Vec<u32>,
        Ghost(input): Ghost<MeshInput>,
        Ghost(slot): Ghost<int>,
    )
        requires
            input == mesh_input(
                self@,
                chunk_position@,
                chunks@,
                block_textures@,
                ao_index_map@,
            ),
            forall|i: int| 0 <= i < 4 ==> #[trigger] ao_index_map@[i] < 4,
            in_chunk(local@),
            0 <= slot < FACE_SLOTS,
            pos_of_offset(slot / 6) == local@,
            Dir::spec_from_index(slot % 6) == dir,
            block == self@[offset_of(local@)],
            block.id != 0,
            old(vertices)@ == input.vertices_of(input.emitted_slots(slot)),
            old(indices)@ == spec_face_indices(input.emitted_slots(slot).len() as int),
        ensures
            final(vertices)@ == input.vertices_of(input.emitted_slots(slot + 1)),
            final(indices)@ == spec_face_indices(input.emitted_slots(slot + 1).len() as int),
    {
        let ghost before = input.emitted_slots(slot);
        proof {
            input.lemma_emitted_slots_len(slot);
        }
        let hidden = self.is_block_solid_at(chunk_position, chunks, local, &dir.normal(), Ghost(input));
        if !hidden {
            let texture = block_textures.texture_index(block.id, dir);
            let ao = self.face_occlusion(chunk_position, chunks, local, dir, ao_index_map, Ghost(input));
            let corners = [
                Self::corner_vertex(local, dir, 0, &ao, texture),
                Self::corner_vertex(local, dir, 1, &ao, texture),
                Self::corner_vertex(local, dir, 2, &ao, texture),
                Self::corner_vertex(local, dir, 3, &ao, texture),
            ];
            push_face(vertices, indices, corners, Ghost(before.len() as int));
            proof {
                assert(input.slot_emitted(slot));
                assert(input.emitted_slots(slot + 1) == before.push(slot));
                input.lemma_vertices_push(before, slot);
            }
        } else {
            proof {
                assert(!input.slot_emitted(slot));
                assert(input.emitted_slots(slot + 1) == before);
            }
        }
    }

    /// The mesh of this chunk, standing at `chunk_position` among `chunks`:
    /// the vertex buffer and the index buffer.
    ///
    /// The blocks are walked in storage order and the faces of each in the
    /// order of [`Dir::all`]. A face is emitted where the block is not air
    /// and the cell it looks at does not count as solid; a cell in a chunk
    /// that is not loaded counts as solid.
    pub fn generate_mesh(
        &self,
        chunk_position: Vec3i32,
        chunks: &ChunkMap,
        block_textures: &LoadedTextures,
        ao_index_map: &[u32; 4],
    ) -> (mesh: (Vec<BlockVertex>, Vec<u32>))
        requires
            forall|i: int| 0 <= i < 4 ==> #[trigger] ao_index_map@[i] < 4,
        ensures
            mesh.0@ == mesh_input(
                self@,
                chunk_position@,
                chunks@,
                block_textures@,
                ao_index_map@,
            ).mesh_vertices(),
            mesh.1@ == mesh_input(
                self@,
                chunk_position@,
                chunks@,
                block_textures@,
                ao_index_map@,
            ).mesh_indices(),
    {
        let ghost input = mesh_input(
            self@,
            chunk_position@,
            chunks@,
            block_textures@,
            ao_index_map@,
        );
        let mut vertices: Vec<BlockVertex> = Vec::new();
        let mut indices: Vec<u32> = Vec::new();
        let dirs = Dir::all();
        let mut offset: usize = 0;
        assert(vertices@ =~= input.vertices_of(input.emitted_slots(0)));
        assert(indices@ =~= spec_face_indices(0));
        while offset < CHUNK_BLOCK_COUNT
            invariant
                offset <= CHUNK_BLOCK_COUNT,
                input == mesh_input(
                    self@,
                    chunk_position@,
                    chunks@,
                    block_textures@,
                    ao_index_map@,
                ),
                forall|i: int| 0 <= i < 4 ==> #[trigger] ao_index_map@[i] < 4,
                forall|i: int| 0 <= i < 6 ==> #[trigger] dirs@[i] == Dir::spec_from_index(i),
                vertices@ == input.vertices_of(input.emitted_slots(6 * offset)),
                indices@ == spec_face_indices(input.emitted_slots(6 * offset).len() as int),
            decreases CHUNK_BLOCK_COUNT - offset,
        {
            let block = self.block(offset);
            if block.id == 0 {
                proof {
                    input.lemma_air_block(offset as int, 6);
                }
            } else {
                let local = position_of_offset(offset);
                let mut d: usize = 0;
                while d < 6
                    invariant
                        d <= 6,
                        offset < CHUNK_BLOCK_COUNT,
                        block == self@[offset as int],
                        block.id != 0,
                        local@ == pos_of_offset(offset as int),
                        in_chunk(local@),
                        input == mesh_input(
                            self@,
                            chunk_position@,
                            chunks@,
                            block_textures@,
                            ao_index_map@,
                        ),
                        forall|i: int| 0 <= i < 4 ==> #[trigger] ao_index_map@[i] < 4,
                        forall|i: int| 0 <= i < 6 ==> #[trigger] dirs@[i] == Dir::spec_from_index(i),
                        vertices@ == input.vertices_of(input.emitted_slots(6 * offset + d)),
                        indices@ == spec_face_indices(
                            input.emitted_slots(6 * offset + d).len() as int,
                        ),
                    decreases 6 - d,
                {
                    proof {
                        lemma_slot_parts(offset as int, d as int);
                    }
                    self.emit_face(
                        &chunk_position,
                        chunks,
                        block_textures,
                        ao_index_map,
                        &local,
                        block,
                        dirs[d],
                        &mut vertices,
                        &mut indices,
                        Ghost(input),
                        Ghost(6 * offset + d),
                    );
                    d += 1;
                }
            }
            offset += 1;
        }
        (vertices, indices)
    }
}

/// Four levels of at most 3, each put in a slot, leave four levels of at
/// most 3.
proof fn lemma_slots_bounded(map: Seq<u32>, l0: u8, l1: u8, l2: u8, l3: u8)
    requires
        map.len() == 4,
        forall|i: int| 0 <= i < 4 ==> #[trigger] map[i] < 4,
        l0 <= 3,
        l1 <= 3,
        l2 <= 3,
        l3 <= 3,
    ensures
        spec_ao_slots(map, l0, l1, l2, l3).len() == 4,
        forall|k: int| 0 <= k < 4 ==> #[trigger] spec_ao_slots(map, l0, l1, l2, l3)[k] <= 3,
{
    assert(map[0] < 4 && map[1] < 4 && map[2] < 4 && map[3] < 4);
}

impl Chunk {
    /// Makes the mesh of the chunk anew, as it stands at its position among
    /// `chunks`.
    pub fn update_mesh(
        &mut self,
        chunks: &ChunkMap,
        block_textures: &LoadedTextures,
        ao_index_map: &[u32; 4],
    )
        requires
            forall|i: int| 0 <= i < 4 ==> #[trigger] ao_index_map@[i] < 4,
        ensures
            final(self).data == old(self).data,
            final(self).position == old(self).position,
            final(self).mesh matches Some(mesh) && mesh.vertices@ == mesh_input(
                old(self).data@,
                old(self).position@,
                chunks@,
                block_textures@,
                ao_index_map@,
            ).mesh_vertices() && mesh.indices@ == mesh_input(
                old(self).data@,
                old(self).position@,
                chunks@,
                block_textures@,
                ao_index_map@,
            ).mesh_indices(),
    {
        let (vertices, indices) = self.data.generate_mesh(
            self.position,
            chunks,
            block_textures,
            ao_index_map,
        );
        self.mesh = Some(ChunkMesh { vertices, indices });
    }
}

/// The number of the face in direction `dir` of the block at `local`.
pub open spec fn slot_of(local: Pos, dir: Dir) -> int {
    6 * offset_of(local) + dir.spec_index()
}

/// A face's number names its block and its direction.
pub proof fn lemma_slot_of(local: Pos, dir: Dir)
    requires
        in_chunk(local),
    ensures
        0 <= slot_of(local, dir) < FACE_SLOTS,
        pos_of_offset(slot_of(local, dir) / 6) == local,
        Dir::spec_from_index(slot_of(local, dir) % 6) == dir,
{
    lemma_pos_round_trip(local);
    lemma_slot_parts(offset_of(local), dir.spec_index());
}

impl MeshInput {
    /// The faces below `n` that the mesh holds are numbered in ascending
    /// order, each is emitted, and none that is emitted is left out.
    pub proof fn lemma_emitted_slots(self, n: int)
        requires
            0 <= n,
        ensures
            forall|k: int|
                0 <= k < self.emitted_slots(n).len() ==> 0 <= #[trigger] self.emitted_slots(n)[k] < n
                    && self.slot_emitted(self.emitted_slots(n)[k]),
            forall|j: int, k: int|
                0 <= j < k < self.emitted_slots(n).len() ==> self.emitted_slots(n)[j]
                    < self.emitted_slots(n)[k],
            forall|slot: int|
                0 <= slot < n && self.slot_emitted(slot) ==> self.emitted_slots(n).contains(slot),
        decreases n,
    {
        if n > 0 {
            self.lemma_emitted_slots(n - 1);
            let before = self.emitted_slots(n - 1);
            let now = self.emitted_slots(n);
            assert forall|slot: int| 0 <= slot < n && self.slot_emitted(slot) implies now.contains(
                slot,
            ) by {
                if slot < n - 1 {
                    let k = choose|k: int| 0 <= k < before.len() && before[k] == slot;
                    assert(now[k] == slot);
                } else {
                    assert(now[now.len() - 1] == slot);
                }
            }
        }
    }

    /// The mesh holds four vertices and six indices for each of its faces.
    pub proof fn lemma_mesh_sizes(self)
        ensures
            self.mesh_vertices().len() == 4 * self.faces().len(),
            self.mesh_indices().len() == 6 * self.faces().len(),
            self.faces().len() <= FACE_SLOTS,
    {
        self.lemma_emitted_slots_len(FACE_SLOTS as int);
    }

    /// The mesh holds the face in direction `dir` of the block at `local`
    /// if and only if that face is emitted.
    pub proof fn lemma_mesh_holds_emitted_faces(self, local: Pos, dir: Dir)
        requires
            in_chunk(local),
        ensures
            self.faces().contains(slot_of(local, dir)) == self.face_emitted(local, dir),
    {
        lemma_slot_of(local, dir);
        self.lemma_emitted_slots(FACE_SLOTS as int);
        let slot = slot_of(local, dir);
        assert(self.slot_emitted(slot) == self.face_emitted(local, dir));
        if self.faces().contains(slot) {
            let k = choose|k: int| 0 <= k < self.faces().len() && self.faces()[k] == slot;
            assert(self.slot_emitted(self.faces()[k]));
        }
        if self.slot_emitted(slot) {
            assert(self.emitted_slots(FACE_SLOTS as int).contains(slot));
        }
    }

    /// A chunk of nothing but air has an empty mesh.
    pub proof fn lemma_air_chunk_has_empty_mesh(self)
        requires
            forall|i: int| 0 <= i < CHUNK_BLOCK_COUNT ==> (#[trigger] self.own[i]).id == 0,
        ensures
            self.faces().len() == 0,
            self.mesh_vertices().len() == 0,
            self.mesh_indices().len() == 0,
    {
        self.lemma_emitted_slots(FACE_SLOTS as int);
        if self.faces().len() > 0 {
            let slot = self.faces()[0];
            assert(self.slot_emitted(slot));
            lemma_offset_round_trip(slot / 6);
        }
    }

    /// No face is emitted towards a solid cell of the same chunk; a block of
    /// unknown kind is such a cell.
    pub proof fn lemma_no_face_toward_solid_block(self, local: Pos, dir: Dir)
        requires
            in_chunk(local),
            in_chunk(local.plus(dir.spec_normal())),
            self.own[offset_of(local.plus(dir.spec_normal()))].spec_is_solid() || self.own[offset_of(
                local.plus(dir.spec_normal()),
            )].id >= crate::game::chunk::BLOCK_ID_END,
        ensures
            !self.face_emitted(local, dir),
            !self.faces().contains(slot_of(local, dir)),
    {
        self.lemma_mesh_holds_emitted_faces(local, dir);
    }

    /// No face is emitted on the boundary towards a chunk that is not
    /// loaded.
    pub proof fn lemma_no_face_toward_absent_chunk(self, local: Pos, dir: Dir)
        requires
            in_chunk(local),
            !in_chunk(local.plus(dir.spec_normal())),
            !self.grid.contains_key(self.position.plus(dir.spec_normal())),
        ensures
            !self.face_emitted(local, dir),
            !self.faces().contains(slot_of(local, dir)),
    {
        self.lemma_mesh_holds_emitted_faces(local, dir);
    }

    /// No face is emitted on the boundary towards a loaded chunk whose
    /// blocks are all solid.
    pub proof fn lemma_no_face_toward_solid_chunk(self, local: Pos, dir: Dir)
        requires
            in_chunk(local),
            !in_chunk(local.plus(dir.spec_normal())),
            self.grid.contains_key(self.position.plus(dir.spec_normal())),
            forall|i: int|
                0 <= i < CHUNK_BLOCK_COUNT ==> (#[trigger] self.grid[self.position.plus(
                    dir.spec_normal(),
                )][i]).spec_is_solid(),
        ensures
            !self.face_emitted(local, dir),
            !self.faces().contains(slot_of(local, dir)),
    {
        self.lemma_mesh_holds_emitted_faces(local, dir);
        let n = dir.spec_normal();
        let landing = Pos {
            x: spec_wrap(n.x, local.x),
            y: spec_wrap(n.y, local.y),
            z: spec_wrap(n.z, local.z),
        };
        assert(in_chunk(landing));
        assert(0 <= offset_of(landing) < CHUNK_BLOCK_COUNT);
    }

    /// On the boundary towards a loaded chunk, the cell that decides about a
    /// face is the one across the boundary: the block of the neighbour with
    /// the same coordinates in the plane of the face, on the neighbour's
    /// edge that touches this chunk.
    pub proof fn lemma_boundary_probe(self, local: Pos, dir: Dir)
        requires
            in_chunk(local),
            !in_chunk(local.plus(dir.spec_normal())),
            self.grid.contains_key(self.position.plus(dir.spec_normal())),
        ensures
            in_chunk(local.plus(dir.spec_normal()).minus(dir.spec_normal().times(CHUNK_SIZE as int))),
            self.solid_at(local, dir.spec_normal()) == self.grid[self.position.plus(
                dir.spec_normal(),
            )][offset_of(
                local.plus(dir.spec_normal()).minus(dir.spec_normal().times(CHUNK_SIZE as int)),
            )].spec_is_solid(),
    {
    }

    /// A face has four occlusion levels, none above 3.
    pub proof fn lemma_face_ao(self, local: Pos, dir: Dir)
        requires
            self.ao_index_map.len() == 4,
            forall|i: int| 0 <= i < 4 ==> #[trigger] self.ao_index_map[i] < 4,
        ensures
            self.face_ao(local, dir).len() == 4,
            forall|k: int| 0 <= k < 4 ==> #[trigger] self.face_ao(local, dir)[k] <= 3,
    {
        let l0 = self.corner_level(local, dir, 0);
        let l1 = self.corner_level(local, dir, 1);
        let l2 = self.corner_level(local, dir, 2);
        let l3 = self.corner_level(local, dir, 3);
        assert(l0 <= 3 && l1 <= 3 && l2 <= 3 && l3 <= 3);
        lemma_slots_bounded(self.ao_index_map, l0, l1, l2, l3);
    }

    /// What a vertex of the mesh says when it is unpacked: its position is
    /// the corner of its block, in half blocks; its corner index is its
    /// place in the face; its direction is that of the face; its occlusion
    /// levels are those of the face; and its texture index is that of the
    /// block's kind and the face's direction, where that is below `2^21`.
    pub proof fn lemma_face_vertex(self, local: Pos, dir: Dir, corner: int)
        requires
            in_chunk(local),
            0 <= corner < 4,
            self.ao_index_map.len() == 4,
            forall|i: int| 0 <= i < 4 ==> #[trigger] self.ao_index_map[i] < 4,
        ensures
            self.face_vertex(local, dir, corner).spec_position() == local.times(2).plus(
                spec_face_corner(dir, corner),
            ),
            self.face_vertex(local, dir, corner).spec_uv() == corner,
            self.face_vertex(local, dir, corner).spec_direction() == dir.spec_index(),
            forall|k: int|
                0 <= k < 4 ==> #[trigger] self.face_vertex(local, dir, corner).spec_ao(k)
                    == self.face_ao(local, dir)[k],
            spec_texture_index(self.textures, self.own[offset_of(local)].id, dir) < 0x20_0000
                ==> self.face_vertex(local, dir, corner).spec_texture() == spec_texture_index(
                self.textures,
                self.own[offset_of(local)].id,
                dir,
            ),
    {
        let ao = self.face_ao(local, dir);
        self.lemma_face_ao(local, dir);
        crate::game::renderer::chunk::lemma_vertex_round_trip(
            local.times(2).plus(spec_face_corner(dir, corner)),
            corner as u8,
            dir,
            ao,
            spec_texture_index(self.textures, self.own[offset_of(local)].id, dir),
        );
    }
}

} // verus!
