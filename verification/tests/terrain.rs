use voxel_world::game::ao::{ao_index_map, next_ao_index_map};
use voxel_world::game::chunk::Block;
use voxel_world::game::worldgen::{generate_chunk, get_top_layer_block};
use voxel_world::math::{vec3, Vec2i32};

fn block(id: u16) -> Block {
    Block { id, state: 0 }
}

#[test]
fn layers_of_a_low_column() {
    // top at 10: grass on top, four layers of dirt, stone below
    assert_eq!(get_top_layer_block(10, 10), block(2));
    assert_eq!(get_top_layer_block(9, 10), block(3));
    assert_eq!(get_top_layer_block(6, 10), block(3));
    assert_eq!(get_top_layer_block(5, 10), block(1));
    assert_eq!(get_top_layer_block(-100, 10), block(1));
}

#[test]
fn layers_of_a_high_column() {
    // above 64 the grass is snowy
    assert_eq!(get_top_layer_block(64, 64), block(2));
    assert_eq!(get_top_layer_block(65, 65), block(5));
    assert_eq!(get_top_layer_block(85, 85), block(5));
    assert_eq!(get_top_layer_block(84, 85), block(3));
    // above 85 the top five layers are snow
    assert_eq!(get_top_layer_block(86, 86), block(4));
    assert_eq!(get_top_layer_block(86, 90), block(4));
    assert_eq!(get_top_layer_block(85, 90), block(1));
    assert_eq!(get_top_layer_block(85, 89), block(3));
    assert_eq!(get_top_layer_block(96, 100), block(4));
    assert_eq!(get_top_layer_block(95, 100), block(1));
}

#[test]
fn layers_at_the_limits() {
    assert_eq!(get_top_layer_block(i32::MIN, i32::MIN), block(2));
    assert_eq!(get_top_layer_block(i32::MIN, i32::MIN + 5), block(1));
    assert_eq!(get_top_layer_block(i32::MAX, i32::MAX), block(4));
}

#[test]
fn chunk_of_a_sloped_terrain() {
    // the top of the column at (x, z) is at x + 2 z
    let height = |column: Vec2i32| column.0[0] + 2 * column.0[1];
    let chunk = generate_chunk(vec3(1, 1, -1), &height).unwrap();
    assert_eq!(chunk.position.0, [1, 1, -1]);
    assert!(chunk.mesh.is_none());
    for x in 0..32 {
        for z in 0..32 {
            let top = (32 + x) + 2 * (-32 + z);
            for y in 0..32 {
                let world_y = 32 + y;
                let expected = if world_y > top {
                    block(0)
                } else if world_y == top {
                    block(2)
                } else if world_y > top - 5 {
                    block(3)
                } else {
                    block(1)
                };
                assert_eq!(chunk.data.get_block(vec3(x, y, z)).copied(), Some(expected));
            }
        }
    }
}

#[test]
fn chunk_above_the_terrain_is_air_and_below_is_stone() {
    let height = |_column: Vec2i32| 0;
    let above = generate_chunk(vec3(0, 1, 0), &height).unwrap();
    let below = generate_chunk(vec3(0, -1, 0), &height).unwrap();
    for &(x, y, z) in [(0, 0, 0), (31, 31, 31), (7, 20, 9)].iter() {
        assert_eq!(above.data.get_block(vec3(x, y, z)).copied(), Some(block(0)));
    }
    assert_eq!(below.data.get_block(vec3(3, 0, 3)).copied(), Some(block(1)));
    assert_eq!(below.data.get_block(vec3(3, 27, 3)).copied(), Some(block(1)));
    assert_eq!(below.data.get_block(vec3(3, 28, 3)).copied(), Some(block(3)));
    assert_eq!(below.data.get_block(vec3(3, 31, 3)).copied(), Some(block(3)));
}

#[test]
fn no_chunk_beyond_the_addressable_grid() {
    let height = |_column: Vec2i32| 0;
    assert!(generate_chunk(vec3(0x3ff_ffff, 0, 0), &height).is_some());
    assert!(generate_chunk(vec3(0x400_0000, 0, 0), &height).is_none());
    assert!(generate_chunk(vec3(0, -0x400_0000, 0), &height).is_some());
    assert!(generate_chunk(vec3(0, -0x400_0001, 0), &height).is_none());
    assert!(generate_chunk(vec3(0, 0, i32::MAX), &height).is_none());
}

#[test]
fn slot_map_starts_at_0_1_3_2() {
    assert_eq!(ao_index_map(), [0, 1, 3, 2]);
}

#[test]
fn slot_maps_follow_each_other_in_order() {
    assert_eq!(next_ao_index_map([0, 1, 2, 3]), [0, 1, 3, 2]);
    assert_eq!(next_ao_index_map([0, 1, 3, 2]), [0, 2, 1, 3]);
    assert_eq!(next_ao_index_map([0, 3, 2, 1]), [1, 0, 2, 3]);
    assert_eq!(next_ao_index_map([2, 3, 1, 0]), [3, 0, 1, 2]);
    assert_eq!(next_ao_index_map([3, 2, 1, 0]), [0, 1, 2, 3]);
}

#[test]
fn slot_maps_go_through_all_arrangements() {
    let mut map = [0, 1, 2, 3];
    let mut seen = vec![map];
    for _ in 0..23 {
        let next = next_ao_index_map(map);
        assert!(next > map);
        assert!(!seen.contains(&next));
        seen.push(next);
        map = next;
    }
    assert_eq!(map, [3, 2, 1, 0]);
    assert_eq!(next_ao_index_map(map), [0, 1, 2, 3]);
}

#[test]
fn slot_map_with_equal_entries() {
    // the last ascending place is exchanged for the last place behind it
    // that holds no less
    assert_eq!(next_ao_index_map([1, 1, 1, 1]), [1, 1, 1, 1]);
    assert_eq!(next_ao_index_map([0, 1, 1, 0]), [0, 0, 1, 1]);
    assert_eq!(next_ao_index_map([1, 2, 1, 1]), [1, 1, 1, 2]);
}
