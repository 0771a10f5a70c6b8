//! The world: the loaded chunks around a viewpoint, kept in line with it,
//! edited, and meshed.

use crate::game::chunk::{
    block_at, block_global_to_block_local, block_global_to_chunk, chunk_of, in_chunk, local_of,
    offset_of, Block, Chunk, ChunkData, ChunkMesh,
};
use crate::game::chunk_map::{ChunkMap, PositionSet};
use crate::game::mesh::{grid_of, mesh_input, MeshInput};
use crate::game::renderer::chunk::BlockVertex;
use crate::game::retention::{
    dirty, evict_outside, fresh, generated, lemma_dirty_kept, load_range, retained,
};
use crate::game::texture::{BlockTextures, LoadedTextures};
use crate::game::{
    lemma_near, names_face, near, neighbor, touches, BlockTarget, Dir, RaySample, RaycastError,
};
use crate::math::{vec3, Pos, Vec3i32};
use vstd::prelude::*;

verus! {

impl Chunk {
    /// The two buffers of the chunk's mesh, if it has one.
    pub open spec fn mesh_view(self) -> Option<(Seq<BlockVertex>, Seq<u32>)> {
        match self.mesh {
            Some(mesh) => Some((mesh.vertices@, mesh.indices@)),
            None => None,
        }
    }
}

/// The loaded chunks around a viewpoint, with what their meshes are made
/// from.
pub struct World {
    chunks: ChunkMap,
    block_textures: LoadedTextures,
    ao_index_map: [u32; 4],
    render_distance: i32,
    current_chunk_position: Vec3i32,
    target_block: Option<BlockTarget>,
}

impl View for World {
    type V = Map<Pos, Chunk>;

    closed spec fn view(&self) -> Map<Pos, Chunk> {
        self.chunks@
    }
}

impl World {
    /// The textures that meshes take their texture indices from.
    pub closed spec fn textures(&self) -> Map<crate::game::chunk::BlockId, BlockTextures> {
        self.block_textures@
    }

    /// The slot map that meshes place their occlusion levels by.
    pub closed spec fn spec_ao_index_map(&self) -> Seq<u32> {
        self.ao_index_map@
    }

    pub closed spec fn spec_render_distance(&self) -> int {
        self.render_distance as int
    }

    /// The chunk that the viewpoint is in.
    pub closed spec fn center(&self) -> Pos {
        self.current_chunk_position@
    }

    pub closed spec fn spec_target_block(&self) -> Option<BlockTarget> {
        self.target_block
    }

    /// What holds of the world also while chunks are loaded: each chunk
    /// stands at its own position, the occlusion slots are four, and a
    /// target names a block of the grid.
    closed spec fn sound(&self) -> bool {
        &&& self.chunks.wf()
        &&& forall|i: int| 0 <= i < 4 ==> #[trigger] self.ao_index_map@[i] < 4
        &&& self.target_block matches Some(target) ==> target.valid()
    }

    /// What holds of every world: each chunk stands at its own position
    /// and has a mesh, the occlusion slots are four, and a target names a
    /// block of the grid.
    pub closed spec fn wf(&self) -> bool {
        &&& self.sound()
        &&& forall|p: Pos| #[trigger] self.chunks@.contains_key(p) ==> self.chunks@[p].mesh is Some
    }

    /// What a well-formed world promises of its view.
    pub proof fn lemma_wf(&self)
        requires
            self.wf(),
        ensures
            forall|p: Pos| #[trigger] self@.contains_key(p) ==> self@[p].position@ == p && p.fits_i32(),
            forall|p: Pos| #[trigger] self@.contains_key(p) ==> self@[p].mesh is Some,
            self@.dom().finite(),
            self.spec_ao_index_map().len() == 4,
            forall|i: int| 0 <= i < 4 ==> #[trigger] self.spec_ao_index_map()[i] < 4,
            self.spec_target_block() matches Some(target) ==> target.valid(),
    {
        self.chunks.lemma_wf();
    }

    /// What the mesh of the chunk at `p` is made from.
    pub open spec fn mesh_input_at(&self, p: Pos) -> MeshInput {
        mesh_input(self@[p].data@, p, self@, self.textures(), self.spec_ao_index_map())
    }

    /// Whether the chunk at `p` has the mesh that the world as it stands
    /// gives it.
    pub open spec fn mesh_current(&self, p: Pos) -> bool {
        self@[p].mesh_view() == Some(
            (self.mesh_input_at(p).mesh_vertices(), self.mesh_input_at(p).mesh_indices()),
        )
    }

    /// Whether `other` has the same chunks with the same blocks, and the
    /// same settings, as this world; meshes and the target may differ.
    pub open spec fn same_blocks(&self, other: &World) -> bool {
        &&& self@.dom() == other@.dom()
        &&& forall|p: Pos| #[trigger]
            self@.contains_key(p) ==> self@[p].data == other@[p].data && self@[p].position
                == other@[p].position
        &&& self.same_settings(other)
    }

    /// Whether `other` has the same textures, slot map, render distance and
    /// viewpoint chunk as this world.
    pub open spec fn same_settings(&self, other: &World) -> bool {
        &&& self.textures() == other.textures()
        &&& self.spec_ao_index_map() == other.spec_ao_index_map()
        &&& self.spec_render_distance() == other.spec_render_distance()
        &&& self.center() == other.center()
    }

    /// An empty world around the chunk at the origin.
    pub fn new(block_textures: LoadedTextures, render_distance: i32) -> (world: Self)
        ensures
            world.wf(),
            world@ == Map::<Pos, Chunk>::empty(),
            world.textures() == block_textures@,
            world.spec_ao_index_map() == seq![0u32, 1u32, 3u32, 2u32],
            world.spec_render_distance() == render_distance,
            world.center() == (Pos { x: 0, y: 0, z: 0 }),
            world.spec_target_block().is_none(),
    {
        let world = Self {
            chunks: ChunkMap::new(),
            block_textures,
            ao_index_map: [0, 1, 3, 2],
            render_distance,
            current_chunk_position: vec3(0, 0, 0),
            target_block: None,
        };
        assert(world.ao_index_map@ =~= seq![0u32, 1u32, 3u32, 2u32]);
        world
    }

    pub fn chunks(&self) -> (chunks: &ChunkMap)
        ensures
            chunks@ == self@,
            self.wf() ==> chunks.wf(),
    {
        &self.chunks
    }

    pub fn render_distance(&self) -> (r: i32)
        ensures
            r == self.spec_render_distance(),
    {
        self.render_distance
    }

    pub fn set_render_distance(&mut self, render_distance: i32)
        ensures
            final(self)@ == old(self)@,
            final(self).spec_render_distance() == render_distance,
            final(self).textures() == old(self).textures(),
            final(self).spec_ao_index_map() == old(self).spec_ao_index_map(),
            final(self).center() == old(self).center(),
            final(self).spec_target_block() == old(self).spec_target_block(),
            old(self).wf() ==> final(self).wf(),
    {
        self.render_distance = render_distance;
    }

    pub fn current_chunk_position(&self) -> (p: Vec3i32)
        ensures
            p@ == self.center(),
    {
        self.current_chunk_position
    }

    pub fn target_block(&self) -> (t: Option<BlockTarget>)
        ensures
            t == self.spec_target_block(),
            self.wf() ==> (t matches Some(target) ==> target.valid()),
    {
        self.target_block
    }

    /// Makes the mesh of the chunk at `pos` anew from the world as it
    /// stands.
    pub fn update_chunk_quick(&mut self, pos: Vec3i32)
        requires
            old(self).wf(),
            old(self)@.contains_key(pos@),
        ensures
            final(self).wf(),
            final(self).same_blocks(old(self)),
            final(self).spec_target_block() == old(self).spec_target_block(),
            final(self).mesh_current(pos@),
            forall|p: Pos| #[trigger]
                final(self)@.contains_key(p) && p != pos@ ==> final(self)@[p] == old(self)@[p],
    {
        self.remesh(pos);
    }

    /// Makes the mesh of the chunk at `pos` anew, also while chunks are
    /// loaded.
    fn remesh(&mut self, pos: Vec3i32)
        requires
            old(self).sound(),
            old(self)@.contains_key(pos@),
        ensures
            final(self).sound(),
            final(self).same_blocks(old(self)),
            final(self).spec_target_block() == old(self).spec_target_block(),
            final(self).mesh_current(pos@),
            forall|p: Pos| #[trigger]
                final(self)@.contains_key(p) && p != pos@ ==> final(self)@[p] == old(self)@[p],
    {
        let (vertices, indices) = match self.chunks.get(&pos) {
            Some(chunk) => chunk.data.generate_mesh(
                pos,
                &self.chunks,
                &self.block_textures,
                &self.ao_index_map,
            ),
            None => {
                return ;
            },
        };
        if let Some(mut chunk) = self.chunks.remove(&pos) {
            proof {
                old(self).chunks.lemma_wf();
            }
            chunk.mesh = Some(ChunkMesh { vertices, indices });
            self.chunks.insert(chunk);
            proof {
                assert(final(self)@.dom() =~= old(self)@.dom());
                assert(grid_of(final(self)@) =~= grid_of(old(self)@));
            }
        }
    }
    /// The block at `position` in the chunk at `chunk_position`, where that
    /// chunk is loaded and `position` lies inside it.
    pub fn get_block(&self, chunk_position: Vec3i32, position: Vec3i32) -> (r: Option<Block>)
        ensures
            r == if self@.contains_key(chunk_position@) {
                block_at(self@[chunk_position@].data@, position@)
            } else {
                None
            },
    {
        match self.chunks.get(&chunk_position) {
            Some(chunk) => match chunk.data.get_block(position) {
                Some(block) => Some(*block),
                None => None,
            },
            None => None,
        }
    }

    /// Stores `block` at `position` in the chunk at `chunk_position`, then
    /// makes anew the mesh of that chunk and those of the loaded chunks that
    /// share a face with it, and returns their positions as
    /// [`World::update_chunk`] does. Where `position` falls outside the
    /// chunk no block changes.
    pub fn set_block(&mut self, chunk_position: Vec3i32, position: Vec3i32, block: Block) -> (remeshed:
        Vec<Vec3i32>)
        requires
            old(self).wf(),
            old(self)@.contains_key(chunk_position@),
        ensures
            final(self).wf(),
            final(self).same_settings(old(self)),
            final(self).spec_target_block() == old(self).spec_target_block(),
            final(self).edited(old(self), chunk_position@, position@, block, remeshed@),
    {
        proof {
            self.chunks.lemma_wf();
        }
        if let Some(mut chunk) = self.chunks.remove(&chunk_position) {
            chunk.data.set_block(position, block);
            self.chunks.insert(chunk);
        }
        assert(self@.dom() =~= old(self)@.dom());
        self.update_chunk(chunk_position)
    }

    /// What holds of the world after its chunks were brought in line with a
    /// viewpoint in the chunk at `center`, starting from the chunks
    /// `before`: only chunks of the range are loaded; the chunks of `before`
    /// in the range are still loaded, with their blocks; every other loaded
    /// chunk is one that `generator` made; where a chunk of the range is not
    /// loaded, `generator` made none; the chunks that needed a new mesh have
    /// the mesh that the world gives them, and all others are as they were;
    /// and `remeshed` names the chunks whose meshes were made.
    pub open spec fn recomputed<F: Fn(Vec3i32) -> Option<ChunkData>>(
        &self,
        before: Map<Pos, Chunk>,
        generator: &F,
        center: Pos,
        r: int,
        remeshed: Seq<Vec3i32>,
    ) -> bool {
        &&& forall|p: Pos| #[trigger] self@.contains_key(p) ==> retained(p, center, r)
        &&& forall|p: Pos| #[trigger]
            before.contains_key(p) && retained(p, center, r) ==> self@.contains_key(p)
                && self@[p].data == before[p].data && self@[p].position == before[p].position
        &&& forall|p: Pos| #[trigger]
            self@.contains_key(p) && !before.contains_key(p) ==> generated(
                generator,
                p,
                Some(self@[p].data),
            )
        &&& forall|p: Pos|
            retained(p, center, r) && !(#[trigger] self@.contains_key(p)) ==> generated(
                generator,
                p,
                None,
            )
        &&& (forall|v: Vec3i32| !generator.ensures((v,), None)) ==> self@.dom() == Set::new(
            |p: Pos| retained(p, center, r),
        )
        &&& forall|p: Pos| #[trigger]
            self@.contains_key(p) ==> if dirty(before.dom(), self@.dom(), p) {
                self.mesh_current(p)
            } else {
                self@[p] == before[p]
            }
        &&& names_each_once(
            remeshed,
            Set::new(|p: Pos| self@.contains_key(p) && dirty(before.dom(), self@.dom(), p)),
        )
    }

    /// Brings the loaded chunks in line with the viewpoint: loads every
    /// chunk of the range around the viewpoint's chunk that is not loaded
    /// and that `generator` makes, unloads every chunk outside the range,
    /// and then makes anew the meshes of the new chunks and of the loaded
    /// chunks that share a face with a new one. Returns the positions of the
    /// chunks whose meshes were made.
    pub fn generate_chunks<F: Fn(Vec3i32) -> Option<ChunkData>>(&mut self, generator: &F) -> (remeshed:
        Vec<Vec3i32>)
        requires
            old(self).wf(),
            forall|v: Vec3i32|
                retained(v@, old(self).center(), old(self).spec_render_distance())
                    ==> generator.requires((v,)),
        ensures
            final(self).wf(),
            final(self).same_settings(old(self)),
            final(self).spec_target_block() == old(self).spec_target_block(),
            final(self).recomputed(
                old(self)@,
                generator,
                old(self).center(),
                old(self).spec_render_distance(),
                remeshed@,
            ),
    {
        let center = self.current_chunk_position;
        let r: i32 = self.render_distance;
        let mut marked = PositionSet::new();
        load_range(&mut self.chunks, &mut marked, &center, r, generator);
        let ghost loaded = self.chunks@;
        evict_outside(&mut self.chunks, &center, r);
        let ghost kept = *self;
        proof {
            assert forall|p: Pos| #[trigger] kept@.contains_key(p) implies marked@.contains(p)
                == dirty(old(self)@.dom(), kept@.dom(), p) by {
                lemma_dirty_kept(old(self)@.dom(), loaded.dom(), kept@.dom(), center@, r as int, p);
            }
        }
        let remeshed = self.remesh_marked(&marked);
        proof {
            assert(self@.dom() == kept@.dom());
            assert forall|p: Pos|
                retained(p, center@, r as int) && !(#[trigger] self@.contains_key(p)) implies generated(
                generator,
                p,
                None,
            ) by {
                assert(!loaded.contains_key(p));
            }
            if forall|v: Vec3i32| !generator.ensures((v,), None) {
                assert(self@.dom() =~= Set::new(|p: Pos| retained(p, center@, r as int))) by {
                    assert forall|p: Pos| retained(p, center@, r as int) implies self@.contains_key(
                        p,
                    ) by {
                        if !self@.contains_key(p) {
                            assert(generated(generator, p, None));
                        }
                    }
                }
            }
            assert forall|p: Pos| #[trigger] self@.contains_key(p) implies if dirty(
                old(self)@.dom(),
                self@.dom(),
                p,
            ) {
                self.mesh_current(p)
            } else {
                self@[p] == old(self)@[p]
            } by {
                assert(kept@.contains_key(p));
                if !marked@.contains(p) {
                    assert(!fresh(old(self)@.dom(), kept@.dom(), p));
                    assert(old(self)@.contains_key(p));
                }
            }
            assert(Set::new(|p: Pos| self@.contains_key(p) && marked@.contains(p)) =~= Set::new(
                |p: Pos| self@.contains_key(p) && dirty(old(self)@.dom(), self@.dom(), p),
            ));
        }
        remeshed
    }

    /// Moves the viewpoint to the block at the global coordinates `global`.
    /// Where that block lies in another chunk than the viewpoint did, the
    /// loaded chunks are brought in line as [`World::generate_chunks`] does,
    /// and the positions of the chunks whose meshes were made are returned;
    /// otherwise nothing changes.
    pub fn set_viewpoint<F: Fn(Vec3i32) -> Option<ChunkData>>(
        &mut self,
        global: Vec3i32,
        generator: &F,
    ) -> (remeshed: Vec<Vec3i32>)
        requires
            old(self).wf(),
            forall|v: Vec3i32|
                retained(v@, chunk_of(global@), old(self).spec_render_distance())
                    ==> generator.requires((v,)),
        ensures
            final(self).wf(),
            final(self).center() == chunk_of(global@),
            final(self).textures() == old(self).textures(),
            final(self).spec_ao_index_map() == old(self).spec_ao_index_map(),
            final(self).spec_render_distance() == old(self).spec_render_distance(),
            final(self).spec_target_block() == old(self).spec_target_block(),
            if old(self).center() == chunk_of(global@) {
                final(self)@ == old(self)@ && remeshed@.len() == 0
            } else {
                final(self).recomputed(
                    old(self)@,
                    generator,
                    chunk_of(global@),
                    old(self).spec_render_distance(),
                    remeshed@,
                )
            },
    {
        let last_chunk_position = self.current_chunk_position;
        self.current_chunk_position = block_global_to_chunk(global);
        if !last_chunk_position.same(&self.current_chunk_position) {
            self.generate_chunks(generator)
        } else {
            Vec::new()
        }
    }

    /// The index of the first of `samples` that lies in a solid block of a
    /// loaded chunk, if there is one.
    pub fn find_first_hit(&self, samples: &Vec<RaySample>) -> (r: Option<usize>)
        ensures
            match r {
                Some(i) => self.first_hit(samples@, i as int),
                None => forall|i: int|
                    0 <= i < samples@.len() ==> !self.solid_at(#[trigger] samples@[i].position@),
            },
    {
        let mut i: usize = 0;
        while i < samples.len()
            invariant
                i <= samples.len(),
                forall|j: int| 0 <= j < i ==> !self.solid_at(#[trigger] samples@[j].position@),
            decreases samples.len() - i,
        {
            let position = samples[i].position;
            let chunk_position = block_global_to_chunk(position);
            let block_position = block_global_to_block_local(position);
            let solid = match self.get_block(chunk_position, block_position) {
                Some(block) => block.is_solid(),
                None => false,
            };
            if solid {
                return Some(i);
            }
            i += 1;
        }
        None
    }

    /// Finds the block that a ray strikes first. `samples` holds, for each
    /// step along the ray, the global coordinates of the block that the
    /// step lies in and the normal of the face through which the ray comes
    /// to that step. The target becomes the first sample that lies in a
    /// solid block of a loaded chunk, with the face that its normal names,
    /// and `None` where there is no such sample.
    ///
    /// The normal of that sample has to name a face: a ray that enters a
    /// block through no one face has no target. Where that is not known of
    /// the samples, [`World::try_raycast_target`] tells.
    pub fn raycast_target(&mut self, samples: &Vec<RaySample>)
        requires
            old(self).wf(),
            old(self).hit_names_face(samples@),
        ensures
            final(self).wf(),
            final(self)@ == old(self)@,
            final(self).same_settings(old(self)),
            match final(self).spec_target_block() {
                Some(target) => old(self).struck(samples@, target),
                None => forall|i: int|
                    0 <= i < samples@.len() ==> !old(self).solid_at(
                        #[trigger] samples@[i].position@,
                    ),
            },
    {
        self.target_block = None;
        if let Some(i) = self.find_first_hit(samples) {
            let position = samples[i].position;
            assert(old(self).first_hit(samples@, i as int));
            if let Some(face) = Dir::from_normal(samples[i].normal) {
                proof {
                    crate::game::chunk::lemma_global_round_trip(position@);
                }
                self.target_block = Some(
                    BlockTarget {
                        chunk: block_global_to_chunk(position),
                        block: block_global_to_block_local(position),
                        face,
                    },
                );
            }
        }
    }

    /// Finds the block that a ray strikes first, as
    /// [`World::raycast_target`] does, for any samples. Where the normal of
    /// the first sample that lies in a solid block names no face, the ray is
    /// refused: the target becomes `None` and the call fails.
    pub fn try_raycast_target(&mut self, samples: &Vec<RaySample>) -> (r: Result<(), RaycastError>)
        requires
            old(self).wf(),
        ensures
            final(self).wf(),
            final(self)@ == old(self)@,
            final(self).same_settings(old(self)),
            r.is_ok() == old(self).hit_names_face(samples@),
            match r {
                Ok(()) => match final(self).spec_target_block() {
                    Some(target) => old(self).struck(samples@, target),
                    None => forall|i: int|
                        0 <= i < samples@.len() ==> !old(self).solid_at(
                            #[trigger] samples@[i].position@,
                        ),
                },
                Err(error) => {
                    &&& error == RaycastError::BadNormal
                    &&& final(self).spec_target_block().is_none()
                    &&& exists|i: int|
                        {
                            &&& #[trigger] old(self).first_hit(samples@, i)
                            &&& !names_face(samples@[i].normal@)
                        }
                },
            },
    {
        let named = match self.find_first_hit(samples) {
            Some(i) => Dir::from_normal(samples[i].normal).is_some(),
            None => true,
        };
        if named {
            self.raycast_target(samples);
            Ok(())
        } else {
            self.target_block = None;
            Err(RaycastError::BadNormal)
        }
    }

    /// The block at `position` in the chunk that the viewpoint is in. That
    /// chunk has to be loaded: the chunks are brought in line with the
    /// viewpoint before anything is asked of the block under it.
    pub fn block_at_viewpoint(&self, position: Vec3i32) -> (r: Option<Block>)
        requires
            self@.contains_key(self.center()),
        ensures
            r == block_at(self@[self.center()].data@, position@),
    {
        self.get_block(self.current_chunk_position, position)
    }

    /// Whether the block at the global coordinates `g` is a solid block of a
    /// loaded chunk.
    pub open spec fn solid_at(&self, g: Pos) -> bool {
        &&& self@.contains_key(chunk_of(g))
        &&& self@[chunk_of(g)].data@[offset_of(local_of(g))].spec_is_solid()
    }

    /// Whether sample `i` is the first of `samples` that lies in a solid
    /// block.
    pub open spec fn first_hit(&self, samples: Seq<RaySample>, i: int) -> bool {
        &&& 0 <= i < samples.len()
        &&& self.solid_at(samples[i].position@)
        &&& forall|j: int| 0 <= j < i ==> !self.solid_at(#[trigger] samples[j].position@)
    }

    /// Whether the normal of the first of `samples` that lies in a solid
    /// block, if there is one, names a face.
    pub open spec fn hit_names_face(&self, samples: Seq<RaySample>) -> bool {
        forall|i: int| #[trigger] self.first_hit(samples, i) ==> names_face(samples[i].normal@)
    }

    /// Whether `target` is what the ray with the samples `samples` strikes:
    /// the block of the first sample that lies in a solid block, and the
    /// face that the normal of that sample names.
    pub open spec fn struck(&self, samples: Seq<RaySample>, target: BlockTarget) -> bool {
        exists|i: int|
            {
                &&& #[trigger] self.first_hit(samples, i)
                &&& target.chunk@ == chunk_of(samples[i].position@)
                &&& target.block@ == local_of(samples[i].position@)
                &&& target.face.spec_normal() == samples[i].normal@
            }
    }

    /// Moves on to the next arrangement of the occlusion slots. The meshes
    /// stay as they are until they are made anew.
    pub fn next_ao_index_map(&mut self)
        requires
            old(self).wf(),
        ensures
            final(self).wf(),
            final(self)@ == old(self)@,
            final(self).spec_ao_index_map() == crate::game::ao::spec_next_ao_index_map(
                old(self).spec_ao_index_map(),
            ),
            final(self).textures() == old(self).textures(),
            final(self).spec_render_distance() == old(self).spec_render_distance(),
            final(self).center() == old(self).center(),
            final(self).spec_target_block() == old(self).spec_target_block(),
    {
        proof {
            crate::game::ao::lemma_next_rearranges(self.ao_index_map@);
        }
        self.ao_index_map = crate::game::ao::next_ao_index_map(self.ao_index_map);
    }

    /// Puts air in place of the targeted block, and makes the meshes anew
    /// as [`World::set_block`] does. Returns the positions of the chunks
    /// whose meshes were made; none where there is no target.
    pub fn break_target(&mut self) -> (remeshed: Vec<Vec3i32>)
        requires
            old(self).wf(),
            old(self).spec_target_block() matches Some(target) ==> old(self)@.contains_key(
                target.chunk@,
            ),
        ensures
            final(self).wf(),
            final(self).same_settings(old(self)),
            final(self).spec_target_block() == old(self).spec_target_block(),
            match old(self).spec_target_block() {
                Some(target) => final(self).edited(
                    old(self),
                    target.chunk@,
                    target.block@,
                    Block { id: 0, state: 0 },
                    remeshed@,
                ),
                None => final(self)@ == old(self)@ && remeshed@.len() == 0,
            },
    {
        match self.target_block {
            Some(target) => self.set_block(target.chunk, target.block, Block { id: 0, state: 0 }),
            None => Vec::new(),
        }
    }

    /// Puts `block` in the cell that the targeted face looks at, and makes
    /// the meshes anew as [`World::set_block`] does. Returns the positions
    /// of the chunks whose meshes were made; none where there is no target
    /// or the cell has no `i32` global coordinates.
    pub fn place_at_target(&mut self, block: Block) -> (remeshed: Vec<Vec3i32>)
        requires
            old(self).wf(),
            old(self).spec_target_block() matches Some(target) ==> (target.spec_to_global().plus(
                target.face.spec_normal(),
            ).fits_i32() ==> old(self)@.contains_key(
                chunk_of(target.spec_to_global().plus(target.face.spec_normal())),
            )),
        ensures
            final(self).wf(),
            final(self).same_settings(old(self)),
            final(self).spec_target_block() == old(self).spec_target_block(),
            match old(self).spec_target_block() {
                Some(target) => if target.spec_to_global().plus(
                    target.face.spec_normal(),
                ).fits_i32() {
                    final(self).edited(
                        old(self),
                        chunk_of(target.spec_to_global().plus(target.face.spec_normal())),
                        local_of(target.spec_to_global().plus(target.face.spec_normal())),
                        block,
                        remeshed@,
                    )
                } else {
                    final(self)@ == old(self)@ && remeshed@.len() == 0
                },
                None => final(self)@ == old(self)@ && remeshed@.len() == 0,
            },
    {
        match self.target_block {
            Some(target) => {
                match target.to_global().checked_add(&target.face.normal()) {
                    Some(global) => {
                        let chunk_position = block_global_to_chunk(global);
                        let block_position = block_global_to_block_local(global);
                        self.set_block(chunk_position, block_position, block)
                    },
                    None => Vec::new(),
                }
            },
            None => Vec::new(),
        }
    }

    /// What holds of the world after `block` was stored at `position` in
    /// the chunk at `chunk_position` of the world `before`: that block has
    /// changed and no other; the chunk and the loaded chunks that share a
    /// face with it have the meshes that the world gives them, and all
    /// other chunks are as they were; `remeshed` names the chunks whose
    /// meshes were made.
    pub open spec fn edited(
        &self,
        before: &World,
        chunk_position: Pos,
        position: Pos,
        block: Block,
        remeshed: Seq<Vec3i32>,
    ) -> bool {
        &&& self@.dom() == before@.dom()
        &&& self@[chunk_position].data@ == if in_chunk(position) {
            before@[chunk_position].data@.update(offset_of(position), block)
        } else {
            before@[chunk_position].data@
        }
        &&& forall|p: Pos| #[trigger]
            self@.contains_key(p) ==> self@[p].position == before@[p].position && (p
                != chunk_position ==> self@[p].data == before@[p].data)
        &&& forall|p: Pos| #[trigger]
            self@.contains_key(p) ==> if p == chunk_position || touches(p, chunk_position) {
                self.mesh_current(p)
            } else {
                self@[p] == before@[p]
            }
        &&& positions_of(remeshed) == seq![chunk_position] + loaded_neighbors(
            before@.dom(),
            chunk_position,
            6,
        )
    }

    /// Makes anew the mesh of every chunk that `list` names.
    fn remesh_all(&mut self, list: &Vec<Vec3i32>)
        requires
            old(self).sound(),
            forall|k: int| 0 <= k < list@.len() ==> old(self)@.contains_key(#[trigger] list@[k]@),
        ensures
            final(self).sound(),
            final(self).same_blocks(old(self)),
            final(self).spec_target_block() == old(self).spec_target_block(),
            forall|p: Pos| #[trigger]
                final(self)@.contains_key(p) ==> if seen(list@, list@.len() as int, p) {
                    final(self).mesh_current(p)
                } else {
                    final(self)@[p] == old(self)@[p]
                },
    {
        let mut i: usize = 0;
        while i < list.len()
            invariant
                i <= list.len(),
                self.sound(),
                self.same_blocks(old(self)),
                self.spec_target_block() == old(self).spec_target_block(),
                forall|k: int| 0 <= k < list@.len() ==> old(self)@.contains_key(#[trigger] list@[k]@),
                forall|p: Pos| #[trigger]
                    self@.contains_key(p) ==> if seen(list@, i as int, p) {
                        self.mesh_current(p)
                    } else {
                        self@[p] == old(self)@[p]
                    },
            decreases list.len() - i,
        {
            let position = list[i];
            let ghost before = *self;
            assert(old(self)@.contains_key(list@[i as int]@));
            self.remesh(position);
            proof {
                assert forall|p: Pos| #[trigger] self@.contains_key(p) implies if seen(
                    list@,
                    i + 1,
                    p,
                ) {
                    self.mesh_current(p)
                } else {
                    self@[p] == old(self)@[p]
                } by {
                    lemma_seen_step(list@, i as int, p);
                    if p != position@ {
                        assert(before@.contains_key(p));
                        self.lemma_same_blocks(&before, p);
                    }
                }
            }
            i += 1;
        }
    }

    /// Makes anew the mesh of every loaded chunk that is marked, and returns
    /// the positions of those chunks.
    fn remesh_marked(&mut self, marked: &PositionSet) -> (remeshed: Vec<Vec3i32>)
        requires
            old(self).sound(),
        ensures
            final(self).sound(),
            final(self).same_blocks(old(self)),
            final(self).spec_target_block() == old(self).spec_target_block(),
            forall|p: Pos| #[trigger]
                final(self)@.contains_key(p) ==> if marked@.contains(p) {
                    final(self).mesh_current(p)
                } else {
                    final(self)@[p] == old(self)@[p]
                },
            names_each_once(
                remeshed@,
                Set::new(|p: Pos| final(self)@.contains_key(p) && marked@.contains(p)),
            ),
    {
        let positions = self.chunks.positions();
        let remeshed = marked_among(&positions, marked);
        proof {
            lemma_chosen(positions@, marked@, positions@.len() as int);
            assert forall|k: int| 0 <= k < remeshed@.len() implies old(self)@.contains_key(
                #[trigger] remeshed@[k]@,
            ) by {
                assert(seen(positions@, positions@.len() as int, remeshed@[k]@));
            }
        }
        self.remesh_all(&remeshed);
        proof {
            assert forall|p: Pos| self@.contains_key(p) implies seen(
                remeshed@,
                remeshed@.len() as int,
                p,
            ) == marked@.contains(p) by {
                assert(seen(positions@, positions@.len() as int, p));
            }
            let set = Set::new(|p: Pos| self@.contains_key(p) && marked@.contains(p));
            assert forall|k: int| 0 <= k < remeshed@.len() implies set.contains(
                #[trigger] remeshed@[k]@,
            ) by {
                assert(seen(positions@, positions@.len() as int, remeshed@[k]@));
            }
            assert forall|p: Pos| set.contains(p) implies exists|k: int|
                0 <= k < remeshed@.len() && #[trigger] remeshed@[k]@ == p by {
                assert(seen(remeshed@, remeshed@.len() as int, p));
            }
        }
        remeshed
    }

    /// Worlds with the same blocks and settings make the same meshes.
    pub proof fn lemma_same_blocks(&self, other: &World, p: Pos)
        requires
            self.same_blocks(other),
            self@.contains_key(p),
        ensures
            self.mesh_input_at(p) == other.mesh_input_at(p),
            self@[p].mesh_view() == other@[p].mesh_view() ==> self.mesh_current(p)
                == other.mesh_current(p),
    {
        assert(grid_of(self@) =~= grid_of(other@));
    }

    /// Makes anew the mesh of the chunk at `pos` and those of the loaded
    /// chunks that share a face with it, and returns their positions: `pos`
    /// first, then the neighbours in the order of [`Dir::all`].
    pub fn update_chunk(&mut self, pos: Vec3i32) -> (remeshed: Vec<Vec3i32>)
        requires
            old(self).wf(),
            old(self)@.contains_key(pos@),
        ensures
            final(self).wf(),
            final(self).same_blocks(old(self)),
            final(self).spec_target_block() == old(self).spec_target_block(),
            forall|p: Pos| #[trigger]
                final(self)@.contains_key(p) ==> if p == pos@ || touches(p, pos@) {
                    final(self).mesh_current(p)
                } else {
                    final(self)@[p] == old(self)@[p]
                },
            positions_of(remeshed@) == seq![pos@] + loaded_neighbors(old(self)@.dom(), pos@, 6),
    {
        let mut remeshed: Vec<Vec3i32> = Vec::new();
        self.update_chunk_quick(pos);
        remeshed.push(pos);
        let dirs = Dir::all();
        let mut d: usize = 0;
        assert(positions_of(remeshed@) =~= seq![pos@] + loaded_neighbors(old(self)@.dom(), pos@, 0));
        while d < 6
            invariant
                d <= 6,
                forall|i: int| 0 <= i < 6 ==> #[trigger] dirs@[i] == Dir::spec_from_index(i),
                self.wf(),
                self.same_blocks(old(self)),
                self@.contains_key(pos@),
                self.spec_target_block() == old(self).spec_target_block(),
                forall|p: Pos| #[trigger]
                    self@.contains_key(p) ==> if near(p, pos@, d as int) {
                        self.mesh_current(p)
                    } else {
                        self@[p] == old(self)@[p]
                    },
                positions_of(remeshed@) == seq![pos@] + loaded_neighbors(
                    old(self)@.dom(),
                    pos@,
                    d as int,
                ),
            decreases 6 - d,
        {
            let dir = dirs[d];
            let ghost before = *self;
            let ghost q = neighbor(pos@, d as int);
            proof {
                self.chunks.lemma_positions_fit();
            }
            match pos.checked_add(&dir.normal()) {
                Some(position) => {
                    if self.chunks.contains_key(&position) {
                        self.update_chunk_quick(position);
                        proof {
                            assert forall|p: Pos| #[trigger] self@.contains_key(p) implies if near(
                                p,
                                pos@,
                                d + 1,
                            ) {
                                self.mesh_current(p)
                            } else {
                                self@[p] == old(self)@[p]
                            } by {
                                if p != q {
                                    self.lemma_same_blocks(&before, p);
                                }
                            }
                            assert(positions_of(remeshed@.push(position)) =~= positions_of(
                                remeshed@,
                            ).push(q));
                        }
                        remeshed.push(position);
                    }
                },
                None => {},
            }
            d += 1;
        }
        proof {
            lemma_near(pos@);
        }
        remeshed
    }
}

/// The height of the block that sample `i` lies in.
pub open spec fn sample_height(samples: Seq<RaySample>, i: int) -> int {
    samples[i].position@.y
}

/// Whether the samples come down the column of blocks at `(x, z)` without
/// leaving out a block: each lies in the column, and in the same block as
/// the sample before it or in the block below.
pub open spec fn comes_down(samples: Seq<RaySample>, x: int, z: int) -> bool {
    &&& forall|i: int|
        0 <= i < samples.len() ==> (#[trigger] samples[i]).position@.x == x
            && samples[i].position@.z == z
    &&& forall|i: int, j: int|
        0 <= i && j == i + 1 && j < samples.len() ==> #[trigger] sample_height(samples, j)
            == #[trigger] sample_height(samples, i) || sample_height(samples, j) == sample_height(
            samples,
            i,
        ) - 1
}

/// Samples that come down a column fall by at most one block a step.
proof fn lemma_comes_down(samples: Seq<RaySample>, x: int, z: int, j: int, k: int)
    requires
        comes_down(samples, x, z),
        0 <= j <= k < samples.len(),
    ensures
        sample_height(samples, k) <= sample_height(samples, j),
        sample_height(samples, j) - sample_height(samples, k) <= k - j,
    decreases k - j,
{
    if j < k {
        lemma_comes_down(samples, x, z, j, k - 1);
        assert(sample_height(samples, k) == sample_height(samples, k - 1) || sample_height(
            samples,
            k,
        ) == sample_height(samples, k - 1) - 1);
    }
}

/// Samples that come down a column from above `top` to `top` or below come
/// to `top` itself, and all samples before that lie above `top`.
proof fn lemma_comes_to(samples: Seq<RaySample>, x: int, z: int, top: int, n: int) -> (i: int)
    requires
        comes_down(samples, x, z),
        0 <= n < samples.len(),
        sample_height(samples, 0) > top,
        sample_height(samples, n) <= top,
    ensures
        0 < i <= n,
        sample_height(samples, i) == top,
        forall|j: int| 0 <= j < i ==> top < #[trigger] sample_height(samples, j),
    decreases n,
{
    if sample_height(samples, n - 1) <= top {
        lemma_comes_to(samples, x, z, top, n - 1)
    } else {
        assert(sample_height(samples, n) == sample_height(samples, n - 1) || sample_height(
            samples,
            n,
        ) == sample_height(samples, n - 1) - 1);
        assert forall|j: int| 0 <= j < n implies top < #[trigger] sample_height(samples, j) by {
            lemma_comes_down(samples, x, z, j, n - 1);
        }
        n
    }
}

impl World {
    /// A ray that comes down a column of blocks strikes the topmost solid
    /// block of the column: where the samples come down the column at
    /// `(x, z)` from above `top` to `top` or below, the block at `top` is
    /// solid and the blocks above it up to the first sample are not, the
    /// first sample in a solid block lies in the block at `top`. What the
    /// ray strikes is then that block, and its upper face where the
    /// samples in that block have the normal that points up.
    pub proof fn lemma_ray_down_a_column(
        &self,
        samples: Seq<RaySample>,
        x: int,
        z: int,
        top: int,
    )
        requires
            samples.len() > 0,
            comes_down(samples, x, z),
            sample_height(samples, 0) > top,
            sample_height(samples, samples.len() - 1) <= top,
            self.solid_at(Pos { x, y: top, z }),
            forall|y: int|
                top < y <= sample_height(samples, 0) ==> !(#[trigger] self.solid_at(Pos { x, y, z })),
        ensures
            exists|i: int|
                #[trigger] self.first_hit(samples, i) && samples[i].position@ == (Pos {
                    x,
                    y: top,
                    z,
                }),
            forall|target: BlockTarget| #[trigger]
                self.struck(samples, target) ==> {
                    &&& target.chunk@ == chunk_of(Pos { x, y: top, z })
                    &&& target.block@ == local_of(Pos { x, y: top, z })
                    &&& target.spec_to_global() == (Pos { x, y: top, z })
                },
            (forall|i: int|
                0 <= i < samples.len() && (#[trigger] samples[i]).position@ == (Pos { x, y: top, z })
                    ==> samples[i].normal@ == Dir::PY.spec_normal()) ==> (forall|
                target: BlockTarget,
            | #[trigger] self.struck(samples, target) ==> target.face == Dir::PY),
    {
        let hit = Pos { x, y: top, z };
        let first = lemma_comes_to(samples, x, z, top, samples.len() - 1);
        assert(samples[first].position@ == hit);
        assert forall|j: int| 0 <= j < first implies !self.solid_at(
            #[trigger] samples[j].position@,
        ) by {
            lemma_comes_down(samples, x, z, 0, j);
            assert(top < sample_height(samples, j));
            assert(samples[j].position@ == (Pos { x, y: sample_height(samples, j), z }));
            assert(!self.solid_at(Pos { x, y: sample_height(samples, j), z }));
        }
        assert(self.first_hit(samples, first));
        crate::game::chunk::lemma_global_round_trip(hit);
        assert forall|target: BlockTarget| #[trigger] self.struck(samples, target) implies {
            &&& target.chunk@ == chunk_of(hit)
            &&& target.block@ == local_of(hit)
            &&& target.spec_to_global() == hit
            &&& samples[first].normal@ == Dir::PY.spec_normal() ==> target.face == Dir::PY
        } by {
            let i = choose|i: int|
                {
                    &&& #[trigger] self.first_hit(samples, i)
                    &&& target.chunk@ == chunk_of(samples[i].position@)
                    &&& target.block@ == local_of(samples[i].position@)
                    &&& target.face.spec_normal() == samples[i].normal@
                };
            if i < first {
                assert(!self.solid_at(samples[i].position@));
            }
            if first < i {
                assert(!self.solid_at(samples[first].position@));
            }
            assert(i == first);
        }
    }
}

/// Whether one of the first `n` vectors of `list` names `p`.
pub open spec fn seen(list: Seq<Vec3i32>, n: int, p: Pos) -> bool {
    exists|j: int| 0 <= j < n && #[trigger] list[j]@ == p
}

/// One more vector of a list names one more point.
pub proof fn lemma_seen_step(list: Seq<Vec3i32>, n: int, p: Pos)
    requires
        0 <= n < list.len(),
    ensures
        seen(list, n + 1, p) == (seen(list, n, p) || list[n]@ == p),
{
    if seen(list, n + 1, p) && list[n]@ != p {
        let j = choose|j: int| 0 <= j < n + 1 && #[trigger] list[j]@ == p;
        assert(0 <= j < n);
    }
    if seen(list, n, p) {
        let j = choose|j: int| 0 <= j < n && #[trigger] list[j]@ == p;
        assert(0 <= j < n + 1);
    }
}

/// Those of the first `n` vectors of `list` that name a point of `marked`,
/// in the order of the list.
pub open spec fn chosen(list: Seq<Vec3i32>, marked: Set<Pos>, n: int) -> Seq<Vec3i32>
    decreases n,
{
    if n <= 0 {
        Seq::empty()
    } else if marked.contains(list[n - 1]@) {
        chosen(list, marked, n - 1).push(list[n - 1])
    } else {
        chosen(list, marked, n - 1)
    }
}

/// The chosen vectors name the marked points that the list names; where
/// the list names no point twice, neither do they.
pub proof fn lemma_chosen(list: Seq<Vec3i32>, marked: Set<Pos>, n: int)
    requires
        0 <= n <= list.len(),
    ensures
        forall|p: Pos|
            #[trigger] seen(chosen(list, marked, n), chosen(list, marked, n).len() as int, p) == (
            marked.contains(p) && seen(list, n, p)),
        forall|k: int|
            0 <= k < chosen(list, marked, n).len() ==> seen(
                list,
                n,
                #[trigger] chosen(list, marked, n)[k]@,
            ) && marked.contains(chosen(list, marked, n)[k]@),
        (forall|j: int, k: int| 0 <= j < k < list.len() ==> #[trigger] list[j]@ != #[trigger] list[k]@)
            ==> (forall|j: int, k: int|
            0 <= j < k < chosen(list, marked, n).len() ==> #[trigger] chosen(list, marked, n)[j]@
                != #[trigger] chosen(list, marked, n)[k]@),
    decreases n,
{
    if n > 0 {
        lemma_chosen(list, marked, n - 1);
        let before = chosen(list, marked, n - 1);
        let now = chosen(list, marked, n);
        let last = list[n - 1];
        assert forall|p: Pos|
            #[trigger] seen(now, now.len() as int, p) == (marked.contains(p) && seen(list, n, p)) by {
            lemma_seen_step(list, n - 1, p);
            assert(seen(before, before.len() as int, p) == (marked.contains(p) && seen(
                list,
                n - 1,
                p,
            )));
            if marked.contains(last@) {
                assert(now == before.push(last));
                lemma_seen_step(now, before.len() as int, p);
                assert(seen(now, before.len() as int, p) == seen(before, before.len() as int, p)) by {
                    if seen(now, before.len() as int, p) {
                        let j = choose|j: int| 0 <= j < before.len() && #[trigger] now[j]@ == p;
                        assert(before[j]@ == p);
                    }
                    if seen(before, before.len() as int, p) {
                        let j = choose|j: int| 0 <= j < before.len() && #[trigger] before[j]@ == p;
                        assert(now[j]@ == p);
                    }
                }
            }
        }
        assert forall|k: int| 0 <= k < now.len() implies seen(list, n, #[trigger] now[k]@)
            && marked.contains(now[k]@) by {
            if k < before.len() {
                assert(now[k] == before[k]);
                assert(seen(list, n - 1, before[k]@));
                lemma_seen_step(list, n - 1, before[k]@);
            } else {
                assert(now[k] == last);
                assert(list[n - 1]@ == last@);
            }
        }
        if forall|j: int, k: int|
            0 <= j < k < list.len() ==> #[trigger] list[j]@ != #[trigger] list[k]@ {
            assert forall|j: int, k: int| 0 <= j < k < now.len() implies #[trigger] now[j]@
                != #[trigger] now[k]@ by {
                if marked.contains(last@) && k == before.len() {
                    assert(now[j] == before[j]);
                    assert(seen(list, n - 1, before[j]@));
                    let m = choose|m: int| 0 <= m < n - 1 && #[trigger] list[m]@ == before[j]@;
                    assert(list[m]@ != list[n - 1]@);
                } else {
                    assert(now[j] == before[j] && now[k] == before[k]);
                }
            }
        }
    } else {
        assert(chosen(list, marked, n) =~= Seq::<Vec3i32>::empty());
    }
}

/// The vectors of `list` that name a marked point, in the order of the
/// list.
pub fn marked_among(list: &Vec<Vec3i32>, marked: &PositionSet) -> (out: Vec<Vec3i32>)
    ensures
        out@ == chosen(list@, marked@, list@.len() as int),
{
    let mut out: Vec<Vec3i32> = Vec::new();
    let mut i: usize = 0;
    while i < list.len()
        invariant
            i <= list.len(),
            out@ == chosen(list@, marked@, i as int),
        decreases list.len() - i,
    {
        if marked.contains(&list[i]) {
            out.push(list[i]);
        }
        i += 1;
    }
    out
}

/// Whether `list` names the positions of `set`, and each of them once.
pub open spec fn names_each_once(list: Seq<Vec3i32>, set: Set<Pos>) -> bool {
    &&& forall|k: int| 0 <= k < list.len() ==> set.contains(#[trigger] list[k]@)
    &&& forall|p: Pos| set.contains(p) ==> exists|k: int| 0 <= k < list.len() && #[trigger] list[k]@ == p
    &&& forall|j: int, k: int| 0 <= j < k < list.len() ==> #[trigger] list[j]@ != #[trigger] list[k]@
}

/// Those of the neighbours of `pos` in the first `d` directions that are in
/// `loaded`, in the order of the directions.
pub open spec fn loaded_neighbors(loaded: Set<Pos>, pos: Pos, d: int) -> Seq<Pos>
    decreases d,
{
    if d <= 0 {
        Seq::empty()
    } else if loaded.contains(neighbor(pos, d - 1)) {
        loaded_neighbors(loaded, pos, d - 1).push(neighbor(pos, d - 1))
    } else {
        loaded_neighbors(loaded, pos, d - 1)
    }
}

/// The points that a list of vectors names.
pub open spec fn positions_of(list: Seq<Vec3i32>) -> Seq<Pos> {
    list.map_values(|v: Vec3i32| v@)
}

/// The loaded neighbours of `pos` are those positions of `loaded` that
/// touch `pos`, each listed once.
pub proof fn lemma_loaded_neighbors(loaded: Set<Pos>, pos: Pos)
    ensures
        forall|p: Pos|
            #[trigger] loaded_neighbors(loaded, pos, 6).contains(p) == (loaded.contains(p)
                && touches(p, pos)),
        loaded_neighbors(loaded, pos, 6).no_duplicates(),
        !loaded_neighbors(loaded, pos, 6).contains(pos),
{
    lemma_loaded_neighbors_upto(loaded, pos, 6);
    lemma_near(pos);
    reveal_with_fuel(near, 7);
    assert forall|p: Pos|
        #[trigger] loaded_neighbors(loaded, pos, 6).contains(p) == (loaded.contains(p) && touches(
            p,
            pos,
        )) by {
        assert(near(p, pos, 6) == (p == pos || touches(p, pos)));
        assert(loaded_neighbors(loaded, pos, 6).contains(p) == (loaded.contains(p) && p != pos
            && near(p, pos, 6)));
    }
    assert(loaded_neighbors(loaded, pos, 6).contains(pos) == (loaded.contains(pos) && pos != pos
        && near(pos, pos, 6)));
}

proof fn lemma_loaded_neighbors_upto(loaded: Set<Pos>, pos: Pos, d: int)
    requires
        0 <= d <= 6,
    ensures
        forall|p: Pos|
            #[trigger] loaded_neighbors(loaded, pos, d).contains(p) == (loaded.contains(p) && p
                != pos && near(p, pos, d)),
        loaded_neighbors(loaded, pos, d).no_duplicates(),
    decreases d,
{
    if d > 0 {
        lemma_loaded_neighbors_upto(loaded, pos, d - 1);
        let before = loaded_neighbors(loaded, pos, d - 1);
        let now = loaded_neighbors(loaded, pos, d);
        let q = neighbor(pos, d - 1);
        assert(q != pos);
        assert forall|p: Pos|
            #[trigger] now.contains(p) == (loaded.contains(p) && p != pos && near(p, pos, d)) by {
            assert(before.contains(p) == (loaded.contains(p) && p != pos && near(p, pos, d - 1)));
            if loaded.contains(q) {
                assert(now == before.push(q));
                if now.contains(p) {
                    let i = choose|i: int| 0 <= i < now.len() && now[i] == p;
                    if i < before.len() {
                        assert(before[i] == p);
                        assert(before.contains(p));
                    }
                }
                if before.contains(p) {
                    let i = choose|i: int| 0 <= i < before.len() && before[i] == p;
                    assert(now[i] == p);
                }
                if p == q {
                    assert(now[before.len() as int] == p);
                }
            }
        }
        if loaded.contains(q) {
            if before.contains(q) {
                // q would be near pos in an earlier direction
                lemma_neighbors_distinct(pos, d - 1);
            }
            assert(now.no_duplicates()) by {
                assert forall|i: int, j: int| 0 <= i < j < now.len() implies now[i] != now[j] by {
                    if j == before.len() {
                        assert(before[i] == now[i]);
                        assert(before.contains(now[i]));
                    } else {
                        assert(before[i] == now[i] && before[j] == now[j]);
                    }
                }
            }
        }
    } else {
        assert(loaded_neighbors(loaded, pos, d) =~= Seq::<Pos>::empty());
    }
}

/// The neighbour in one direction is not near `pos` in the directions
/// before it.
proof fn lemma_neighbors_distinct(pos: Pos, k: int)
    requires
        0 <= k < 6,
    ensures
        !near(neighbor(pos, k), pos, k),
{
    reveal_with_fuel(near, 7);
}

} // verus!
