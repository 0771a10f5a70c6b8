use voxel_world::game::chunk::{Block, ChunkData, CHUNK_SIZE};
use voxel_world::game::texture::LoadedTextures;
use voxel_world::game::worldgen::generate_chunk;
use voxel_world::game::world::World;
use voxel_world::game::{Dir, RaySample, RaycastError};
use voxel_world::math::{vec3, Vec2i32, Vec3i32};

fn filled(id: u16) -> ChunkData {
    let mut data = ChunkData::new();
    for y in 0..CHUNK_SIZE {
        for z in 0..CHUNK_SIZE {
            for x in 0..CHUNK_SIZE {
                data.set_block(vec3(x, y, z), Block { id, state: 0 });
            }
        }
    }
    data
}

fn air(_position: Vec3i32) -> Option<ChunkData> {
    Some(ChunkData::new())
}

fn loaded(world: &World) -> Vec<[i32; 3]> {
    let mut positions: Vec<[i32; 3]> = world.chunks().positions().iter().map(|p| p.0).collect();
    positions.sort();
    positions
}

fn sorted(list: &[Vec3i32]) -> Vec<[i32; 3]> {
    let mut positions: Vec<[i32; 3]> = list.iter().map(|p| p.0).collect();
    positions.sort();
    positions
}

fn face_count(world: &World, position: [i32; 3]) -> usize {
    let chunk = world.chunks().get(&vec3(position[0], position[1], position[2])).unwrap();
    let mesh = chunk.mesh.as_ref().unwrap();
    assert_eq!(mesh.vertices.len() % 4, 0);
    assert_eq!(mesh.indices.len(), mesh.vertices.len() / 4 * 6);
    mesh.vertices.len() / 4
}

/// The positions within the cube `[-h - 1, h + 1]` around `center`, `h` half
/// of `r`, whose squared distance from `center` is below `r * r`.
fn range(center: [i32; 3], r: i32) -> Vec<[i32; 3]> {
    let half = r / 2;
    let mut positions = Vec::new();
    for x in -half - 1..=half + 1 {
        for y in -half - 1..=half + 1 {
            for z in -half - 1..=half + 1 {
                if x * x + y * y + z * z < r * r {
                    positions.push([center[0] + x, center[1] + y, center[2] + z]);
                }
            }
        }
    }
    positions.sort();
    positions
}

#[test]
fn new_world_is_empty() {
    let world = World::new(LoadedTextures::new(), 8);
    assert_eq!(world.chunks().len(), 0);
    assert_eq!(world.render_distance(), 8);
    assert_eq!(world.current_chunk_position().0, [0, 0, 0]);
    assert!(world.target_block().is_none());
}

#[test]
fn render_distance_one_keeps_the_viewpoint_chunk() {
    let mut world = World::new(LoadedTextures::new(), 1);
    let remeshed = world.generate_chunks(&air);
    assert_eq!(loaded(&world), vec![[0, 0, 0]]);
    assert_eq!(sorted(&remeshed), vec![[0, 0, 0]]);
}

#[test]
fn loaded_chunks_are_those_of_the_range() {
    for (r, count) in [(0, 0), (1, 1), (2, 27), (3, 93), (4, 251)] {
        let mut world = World::new(LoadedTextures::new(), r);
        let remeshed = world.generate_chunks(&air);
        assert_eq!(loaded(&world), range([0, 0, 0], r));
        assert_eq!(loaded(&world).len(), count);
        assert_eq!(sorted(&remeshed), range([0, 0, 0], r));
    }
}

#[test]
fn range_is_the_same_on_both_sides() {
    let mut world = World::new(LoadedTextures::new(), 3);
    world.generate_chunks(&air);
    for position in loaded(&world) {
        let mirrored = vec3(-position[0], -position[1], -position[2]);
        assert!(world.chunks().contains_key(&mirrored));
    }
    assert!(world.chunks().contains_key(&vec3(-2, 0, 0)));
    assert!(world.chunks().contains_key(&vec3(2, 0, 0)));
    assert!(world.chunks().contains_key(&vec3(2, 2, 0)));
    // as far away as the render distance is too far
    assert!(!world.chunks().contains_key(&vec3(2, 2, 1)));
    assert!(!world.chunks().contains_key(&vec3(-2, -2, -1)));
    assert!(!world.chunks().contains_key(&vec3(3, 0, 0)));
}

#[test]
fn range_is_cut_by_the_cube() {
    // with render distance 6 the cube reaches four chunks to each side:
    // five chunks away is closer than 6, but outside the cube
    let mut world = World::new(LoadedTextures::new(), 6);
    world.generate_chunks(&|position: Vec3i32| {
        if position.0[1] == 0 && position.0[2] == 0 {
            Some(ChunkData::new())
        } else {
            None
        }
    });
    let expected: Vec<[i32; 3]> = (-4..=4).map(|x| [x, 0, 0]).collect();
    assert_eq!(loaded(&world), expected);
    // with render distance 8 it reaches five chunks to each side; the chunks
    // that are loaded stay, and new ones come where the generator makes them
    world.set_render_distance(8);
    world.generate_chunks(&|position: Vec3i32| {
        if position.0[0] == 0 && position.0[2] == 0 {
            Some(ChunkData::new())
        } else {
            None
        }
    });
    let mut expected: Vec<[i32; 3]> = (-4..=4).map(|x| [x, 0, 0]).collect();
    expected.extend((-5..=5).filter(|&y| y != 0).map(|y| [0, y, 0]));
    expected.sort();
    assert_eq!(loaded(&world), expected);
}

#[test]
fn moving_the_viewpoint_loads_and_unloads() {
    let mut world = World::new(LoadedTextures::new(), 2);
    world.generate_chunks(&air);
    // still in the same chunk: nothing happens
    let remeshed = world.set_viewpoint(vec3(31, 0, 0), &air);
    assert!(remeshed.is_empty());
    assert_eq!(loaded(&world), range([0, 0, 0], 2));
    // one chunk over: a new layer comes in, the far layer goes
    let remeshed = world.set_viewpoint(vec3(32, 0, 0), &air);
    assert_eq!(world.current_chunk_position().0, [1, 0, 0]);
    assert_eq!(loaded(&world), range([1, 0, 0], 2));
    // the nine new chunks at x = 2 and the nine at x = 1 that touch them
    let mut expected: Vec<[i32; 3]> = Vec::new();
    for x in [1, 2] {
        for y in -1..=1 {
            for z in -1..=1 {
                expected.push([x, y, z]);
            }
        }
    }
    expected.sort();
    assert_eq!(sorted(&remeshed), expected);
    // far away: everything is replaced
    world.set_viewpoint(vec3(-32 * 10 - 1, 64, 5), &air);
    assert_eq!(world.current_chunk_position().0, [-11, 2, 0]);
    assert_eq!(loaded(&world), range([-11, 2, 0], 2));
}

#[test]
fn generator_may_make_no_chunk() {
    let mut world = World::new(LoadedTextures::new(), 2);
    let remeshed = world.generate_chunks(&|position: Vec3i32| {
        if position.0[1] == 0 {
            Some(ChunkData::new())
        } else {
            None
        }
    });
    let expected: Vec<[i32; 3]> =
        range([0, 0, 0], 2).into_iter().filter(|p| p[1] == 0).collect();
    assert_eq!(expected.len(), 9);
    assert_eq!(loaded(&world), expected);
    assert_eq!(sorted(&remeshed), expected);
}

#[test]
fn loaded_chunks_are_not_generated_again() {
    let mut world = World::new(LoadedTextures::new(), 2);
    world.generate_chunks(&|_| Some(filled(1)));
    world.set_viewpoint(vec3(32, 0, 0), &air);
    // the chunks that stayed are still stone, the new ones are air
    assert_eq!(world.get_block(vec3(0, 0, 0), vec3(1, 2, 3)), Some(Block { id: 1, state: 0 }));
    assert_eq!(world.get_block(vec3(1, 1, 1), vec3(1, 2, 3)), Some(Block { id: 1, state: 0 }));
    assert_eq!(world.get_block(vec3(2, 0, 0), vec3(1, 2, 3)), Some(Block { id: 0, state: 0 }));
    assert_eq!(world.get_block(vec3(-1, 0, 0), vec3(1, 2, 3)), None);
}

#[test]
fn new_chunk_remeshes_its_loaded_neighbours() {
    let mut world = World::new(LoadedTextures::new(), 1);
    let remeshed = world.generate_chunks(&|_| Some(filled(1)));
    assert_eq!(sorted(&remeshed), vec![[0, 0, 0]]);
    // alone, the chunk shows nothing: nothing is known of what lies around it
    assert_eq!(face_count(&world, [0, 0, 0]), 0);

    // air comes in all around: the blocks of the chunk did not change, but
    // its six sides now show
    world.set_render_distance(2);
    let remeshed = world.generate_chunks(&air);
    assert!(sorted(&remeshed).contains(&[0, 0, 0]));
    assert_eq!(remeshed.len(), 27);
    assert_eq!(face_count(&world, [0, 0, 0]), 6 * 1024);
    assert_eq!(face_count(&world, [1, 0, 0]), 0);
}

#[test]
fn solid_neighbour_hides_the_shared_side() {
    let mut world = World::new(LoadedTextures::new(), 2);
    world.generate_chunks(&|position: Vec3i32| {
        if position.0 == [0, 0, 0] || position.0 == [1, 0, 0] {
            Some(filled(1))
        } else {
            Some(ChunkData::new())
        }
    });
    // five open sides each
    assert_eq!(face_count(&world, [0, 0, 0]), 5 * 1024);
    assert_eq!(face_count(&world, [1, 0, 0]), 4 * 1024);
}

#[test]
fn edit_is_read_back_and_changes_the_mesh() {
    let mut world = World::new(LoadedTextures::new(), 2);
    world.generate_chunks(&air);
    assert_eq!(face_count(&world, [0, 0, 0]), 0);

    let stone = Block { id: 1, state: 0 };
    let remeshed = world.set_block(vec3(0, 0, 0), vec3(4, 5, 6), stone);
    assert_eq!(world.get_block(vec3(0, 0, 0), vec3(4, 5, 6)), Some(stone));
    assert_eq!(face_count(&world, [0, 0, 0]), 6);
    // the chunk itself, then its six neighbours in the order of the directions
    let listed: Vec<[i32; 3]> = remeshed.iter().map(|p| p.0).collect();
    assert_eq!(
        listed,
        vec![[0, 0, 0], [1, 0, 0], [-1, 0, 0], [0, 1, 0], [0, -1, 0], [0, 0, 1], [0, 0, -1]]
    );

    // a second block next to the first: two faces go, six come
    world.set_block(vec3(0, 0, 0), vec3(5, 5, 6), stone);
    assert_eq!(face_count(&world, [0, 0, 0]), 10);

    // taking the first away again
    world.set_block(vec3(0, 0, 0), vec3(4, 5, 6), Block { id: 0, state: 0 });
    assert_eq!(world.get_block(vec3(0, 0, 0), vec3(4, 5, 6)), Some(Block { id: 0, state: 0 }));
    assert_eq!(face_count(&world, [0, 0, 0]), 6);

    // out of range: no block changes
    world.set_block(vec3(0, 0, 0), vec3(32, 5, 6), stone);
    assert_eq!(face_count(&world, [0, 0, 0]), 6);
}

#[test]
fn edit_on_the_boundary_changes_the_neighbour_mesh() {
    let mut world = World::new(LoadedTextures::new(), 2);
    world.generate_chunks(&|position: Vec3i32| {
        if position.0 == [1, 0, 0] {
            let mut data = ChunkData::new();
            data.set_block(vec3(0, 5, 5), Block { id: 1, state: 0 });
            Some(data)
        } else {
            Some(ChunkData::new())
        }
    });
    assert_eq!(face_count(&world, [1, 0, 0]), 6);
    // a block across the boundary hides one face of the neighbour's block
    world.set_block(vec3(0, 0, 0), vec3(31, 5, 5), Block { id: 3, state: 0 });
    assert_eq!(face_count(&world, [0, 0, 0]), 5);
    assert_eq!(face_count(&world, [1, 0, 0]), 5);
}

#[test]
fn edit_at_the_edge_of_the_range_lists_the_loaded_neighbours_only() {
    let mut world = World::new(LoadedTextures::new(), 2);
    world.generate_chunks(&air);
    let remeshed = world.set_block(vec3(1, 1, 1), vec3(31, 31, 31), Block { id: 1, state: 0 });
    let listed: Vec<[i32; 3]> = remeshed.iter().map(|p| p.0).collect();
    assert_eq!(listed, vec![[1, 1, 1], [0, 1, 1], [1, 0, 1], [1, 1, 0]]);
    // the three faces on the outer boundary are left out
    assert_eq!(face_count(&world, [1, 1, 1]), 3);
}

/// The samples of a ray from `origin` along `direction`: one every tenth of a
/// block up to `reach`, each with the block it lies in and the normal of the
/// face of that block that the ray comes through.
fn march(origin: [f32; 3], direction: [f32; 3], reach: f32) -> Vec<RaySample> {
    let step = 0.1f32;
    let mut samples = Vec::new();
    let mut ray = origin;
    let mut length = 0.0f32;
    while length < reach {
        let block = [ray[0].round(), ray[1].round(), ray[2].round()];
        let mut t1 = [0.0f32; 3];
        for axis in 0..3 {
            let inverse = 1.0 / direction[axis];
            let ro = (ray[axis] - direction[axis] * step) - block[axis];
            t1[axis] = -(inverse * ro) - inverse.abs() * 0.5;
        }
        let at_least = |a: f32, b: f32| if a < b { 0.0f32 } else { 1.0 };
        let mut normal = [0i32; 3];
        for axis in 0..3 {
            let next = t1[(axis + 1) % 3];
            let last = t1[(axis + 2) % 3];
            let sign = if direction[axis] > 0.0 {
                1.0
            } else if direction[axis] < 0.0 {
                -1.0
            } else {
                0.0
            };
            normal[axis] = (-sign * at_least(t1[axis], next) * at_least(t1[axis], last)) as i32;
        }
        samples.push(RaySample {
            position: vec3(block[0] as i32, block[1] as i32, block[2] as i32),
            normal: vec3(normal[0], normal[1], normal[2]),
        });
        length += step;
        for axis in 0..3 {
            ray[axis] += direction[axis] * step;
        }
    }
    samples
}

fn flat_world(top: i32) -> World {
    let mut world = World::new(LoadedTextures::new(), 2);
    world.set_viewpoint(vec3(16, 150, 16), &|_| None);
    let height = move |_column: Vec2i32| top;
    world.generate_chunks(&|position: Vec3i32| generate_chunk(position, &height).map(|c| c.data));
    world
}

#[test]
fn ray_straight_down_hits_the_top_of_the_terrain() {
    let mut world = flat_world(128);
    assert_eq!(world.current_chunk_position().0, [0, 4, 0]);
    let samples = march([16.0, 150.0, 16.0], [0.0, -1.0, 0.0], 32.0);
    assert_eq!(world.try_raycast_target(&samples), Ok(()));
    let target = world.target_block().unwrap();
    assert_eq!(target.chunk.0, [0, 4, 0]);
    assert_eq!(target.block.0, [16, 0, 16]);
    assert_eq!(target.to_global().0, [16, 128, 16]);
    assert!(matches!(target.face, Dir::PY));
}

#[test]
fn ray_that_reaches_nothing_has_no_target() {
    let mut world = flat_world(128);
    let samples = march([16.0, 150.0, 16.0], [0.0, -1.0, 0.0], 16.0);
    assert_eq!(samples.len(), 160);
    assert_eq!(world.try_raycast_target(&samples), Ok(()));
    assert!(world.target_block().is_none());
    // an earlier target is forgotten
    world.raycast_target(&march([16.0, 150.0, 16.0], [0.0, -1.0, 0.0], 32.0));
    assert!(world.target_block().is_some());
    world.raycast_target(&Vec::new());
    assert!(world.target_block().is_none());
}

#[test]
fn ray_does_not_pass_through_a_single_block() {
    let mut world = World::new(LoadedTextures::new(), 2);
    world.generate_chunks(&air);
    world.set_block(vec3(0, 0, 0), vec3(10, 10, 10), Block { id: 1, state: 0 });
    let samples = march([2.3, 10.2, 9.9], [1.0, 0.0, 0.0], 16.0);
    assert_eq!(world.try_raycast_target(&samples), Ok(()));
    let target = world.target_block().unwrap();
    assert_eq!(target.chunk.0, [0, 0, 0]);
    assert_eq!(target.block.0, [10, 10, 10]);
    assert!(matches!(target.face, Dir::NX));
}

#[test]
fn ray_sees_blocks_in_loaded_chunks_only() {
    let mut world = World::new(LoadedTextures::new(), 1);
    world.generate_chunks(&|_| Some(filled(1)));
    let outside = RaySample { position: vec3(40, 0, 0), normal: vec3(-1, 0, 0) };
    let inside = RaySample { position: vec3(-1, 0, 0), normal: vec3(0, 0, 1) };
    let within = RaySample { position: vec3(31, 31, 0), normal: vec3(0, 0, -1) };
    world.raycast_target(&vec![outside, inside]);
    assert!(world.target_block().is_none());
    world.raycast_target(&vec![outside, inside, within, outside]);
    let target = world.target_block().unwrap();
    assert_eq!(target.chunk.0, [0, 0, 0]);
    assert_eq!(target.block.0, [31, 31, 0]);
    assert!(matches!(target.face, Dir::NZ));
}

#[test]
fn normal_that_names_no_face_is_refused() {
    let mut world = World::new(LoadedTextures::new(), 1);
    world.generate_chunks(&|_| Some(filled(1)));
    for normal in [[0, 0, 0], [1, 1, 0], [0, 2, 0], [-1, 0, 1]] {
        let sample =
            RaySample { position: vec3(3, 3, 3), normal: vec3(normal[0], normal[1], normal[2]) };
        assert_eq!(world.try_raycast_target(&vec![sample]), Err(RaycastError::BadNormal));
        assert!(world.target_block().is_none());
    }
}

#[test]
fn breaking_and_placing_at_the_target() {
    let mut world = flat_world(128);
    let samples = march([16.0, 150.0, 16.0], [0.0, -1.0, 0.0], 32.0);
    world.raycast_target(&samples);

    // a block on top of the targeted face
    let remeshed = world.place_at_target(Block { id: 1, state: 0 });
    assert_eq!(remeshed[0].0, [0, 4, 0]);
    assert_eq!(world.get_block(vec3(0, 4, 0), vec3(16, 1, 16)), Some(Block { id: 1, state: 0 }));

    // the target stays where it was until the next ray
    world.break_target();
    assert_eq!(world.get_block(vec3(0, 4, 0), vec3(16, 0, 16)), Some(Block { id: 0, state: 0 }));
    assert_eq!(world.get_block(vec3(0, 4, 0), vec3(16, 1, 16)), Some(Block { id: 1, state: 0 }));

    world.raycast_target(&samples);
    assert_eq!(world.target_block().unwrap().block.0, [16, 1, 16]);
}

#[test]
fn placing_across_a_chunk_boundary() {
    let mut world = flat_world(127);
    let samples = march([16.0, 150.0, 16.0], [0.0, -1.0, 0.0], 32.0);
    world.raycast_target(&samples);
    let target = world.target_block().unwrap();
    assert_eq!(target.chunk.0, [0, 3, 0]);
    assert_eq!(target.block.0, [16, 31, 16]);
    let remeshed = world.place_at_target(Block { id: 3, state: 0 });
    assert_eq!(remeshed[0].0, [0, 4, 0]);
    assert_eq!(world.get_block(vec3(0, 4, 0), vec3(16, 0, 16)), Some(Block { id: 3, state: 0 }));
}

#[test]
fn without_a_target_nothing_is_edited() {
    let mut world = World::new(LoadedTextures::new(), 1);
    world.generate_chunks(&|_| Some(filled(1)));
    assert!(world.break_target().is_empty());
    assert!(world.place_at_target(Block { id: 2, state: 0 }).is_empty());
    assert_eq!(world.get_block(vec3(0, 0, 0), vec3(0, 0, 0)), Some(Block { id: 1, state: 0 }));
}

#[test]
fn occlusion_slots_cycle_through_the_arrangements() {
    let mut world = World::new(LoadedTextures::new(), 2);
    world.generate_chunks(&air);
    world.set_block(vec3(0, 0, 0), vec3(5, 5, 5), Block { id: 1, state: 0 });
    world.set_block(vec3(0, 0, 0), vec3(6, 6, 6), Block { id: 1, state: 0 });
    let levels = |world: &World| -> [u8; 4] {
        let chunk = world.chunks().get(&vec3(0, 0, 0)).unwrap();
        let vertex = chunk.mesh.as_ref().unwrap().vertices[8];
        [vertex.ao(0), vertex.ao(1), vertex.ao(2), vertex.ao(3)]
    };
    // slot map 0 1 3 2
    assert_eq!(levels(&world), [3, 3, 2, 3]);
    // next: 0 2 1 3; the mesh changes when it is made anew
    world.next_ao_index_map();
    assert_eq!(levels(&world), [3, 3, 2, 3]);
    world.update_chunk(vec3(0, 0, 0));
    assert_eq!(levels(&world), [3, 3, 3, 2]);
}

#[test]
fn refused_ray_forgets_the_target_and_leaves_the_chunks() {
    let mut world = World::new(LoadedTextures::new(), 1);
    world.generate_chunks(&|_| Some(filled(1)));
    let good = RaySample { position: vec3(3, 3, 3), normal: vec3(0, 1, 0) };
    let bad = RaySample { position: vec3(4, 3, 3), normal: vec3(1, 1, 0) };
    assert_eq!(world.try_raycast_target(&vec![good, bad]), Ok(()));
    assert_eq!(world.target_block().unwrap().block.0, [3, 3, 3]);
    // only the normal of the first solid sample counts
    assert_eq!(world.try_raycast_target(&vec![bad, good]), Err(RaycastError::BadNormal));
    assert!(world.target_block().is_none());
    assert_eq!(loaded(&world), vec![[0, 0, 0]]);
    assert_eq!(world.get_block(vec3(0, 0, 0), vec3(4, 3, 3)), Some(Block { id: 1, state: 0 }));
    // a sample outside every loaded chunk may carry any normal
    let outside = RaySample { position: vec3(-5, 0, 0), normal: vec3(7, 7, 7) };
    assert_eq!(world.try_raycast_target(&vec![outside, good]), Ok(()));
    assert!(matches!(world.target_block().unwrap().face, Dir::PY));
}

#[test]
fn first_hit_is_the_first_solid_sample() {
    let mut world = World::new(LoadedTextures::new(), 2);
    world.generate_chunks(&air);
    world.set_block(vec3(0, 0, 0), vec3(5, 5, 5), Block { id: 1, state: 0 });
    world.set_block(vec3(-1, 0, 0), vec3(31, 5, 5), Block { id: 6, state: 0 });
    let at = |x: i32| RaySample { position: vec3(x, 5, 5), normal: vec3(-1, 0, 0) };
    assert_eq!(world.find_first_hit(&vec![at(8), at(7), at(6), at(5), at(4)]), Some(3));
    assert_eq!(world.find_first_hit(&vec![at(5), at(5), at(-1)]), Some(0));
    // the block of unknown kind across the chunk boundary is solid too
    assert_eq!(world.find_first_hit(&vec![at(1), at(0), at(-1), at(-2)]), Some(2));
    assert_eq!(world.find_first_hit(&vec![at(8), at(7), at(6)]), None);
    assert_eq!(world.find_first_hit(&vec![at(1000), at(-1000)]), None);
    assert_eq!(world.find_first_hit(&Vec::new()), None);
}

#[test]
fn ray_down_a_column_strikes_the_top_block_from_above() {
    // whole blocks only: the samples come down the column at (16, 16), two
    // to a block, from height 150
    let mut world = flat_world(128);
    let mut samples = Vec::new();
    for half in 0..60 {
        samples.push(RaySample { position: vec3(16, 150 - half / 2, 16), normal: vec3(0, 1, 0) });
    }
    world.raycast_target(&samples);
    let target = world.target_block().unwrap();
    assert_eq!(target.to_global().0, [16, 128, 16]);
    assert_eq!(target.chunk.0, [0, 4, 0]);
    assert_eq!(target.block.0, [16, 0, 16]);
    assert!(matches!(target.face, Dir::PY));
    assert_eq!(world.find_first_hit(&samples), Some(44));
}

#[test]
fn block_under_the_viewpoint() {
    let mut world = flat_world(128);
    assert_eq!(world.current_chunk_position().0, [0, 4, 0]);
    assert_eq!(world.block_at_viewpoint(vec3(16, 0, 16)), Some(Block { id: 4, state: 0 }));
    assert_eq!(world.block_at_viewpoint(vec3(16, 1, 16)), Some(Block { id: 0, state: 0 }));
    assert_eq!(world.block_at_viewpoint(vec3(16, 32, 16)), None);
    assert_eq!(world.block_at_viewpoint(vec3(-1, 0, 0)), None);
    world.set_block(vec3(0, 4, 0), vec3(16, 1, 16), Block { id: 3, state: 9 });
    assert_eq!(world.block_at_viewpoint(vec3(16, 1, 16)), Some(Block { id: 3, state: 9 }));
}

#[test]
fn ray_of_a_camera_that_looks_down_steeply_hits_the_top() {
    // the steepest pitch that the camera takes, at the yaw it starts with
    let pitch = -(3.141592f32 * 0.5 - 0.01);
    let yaw = 3.0 * std::f32::consts::FRAC_PI_4;
    let direction = [yaw.cos() * pitch.cos(), pitch.sin(), yaw.sin() * pitch.cos()];
    let mut world = flat_world(128);
    let samples = march([16.0, 150.0, 16.0], direction, 32.0);
    assert_eq!(world.try_raycast_target(&samples), Ok(()));
    let target = world.target_block().unwrap();
    assert_eq!(target.to_global().0, [16, 128, 16]);
    assert!(matches!(target.face, Dir::PY));
    // from the side the same block is entered through its side
    world.set_block(vec3(0, 4, 0), vec3(10, 1, 16), Block { id: 1, state: 0 });
    let samples = march([16.2, 129.1, 16.1], [-1.0, 0.0, 0.0], 16.0);
    assert_eq!(world.try_raycast_target(&samples), Ok(()));
    let target = world.target_block().unwrap();
    assert_eq!(target.to_global().0, [10, 129, 16]);
    assert!(matches!(target.face, Dir::PX));
}
