use voxel_world::game::chunk::{
    Block, BlockId, Chunk, ChunkData, BLOCK_ID_END, CHUNK_BLOCK_COUNT, CHUNK_SIZE,
};
use voxel_world::math::vec3;

#[test]
fn new_chunk_is_air() {
    let data = ChunkData::new();
    for &(x, y, z) in [(0, 0, 0), (31, 31, 31), (5, 17, 30)].iter() {
        assert_eq!(data.get_block(vec3(x, y, z)).copied(), Some(Block { id: 0, state: 0 }));
    }
    assert_eq!(data.block(CHUNK_BLOCK_COUNT - 1), Block { id: 0, state: 0 });
}

#[test]
fn set_then_get_returns_the_block() {
    let mut data = ChunkData::new();
    let block = Block { id: 1, state: 7 };
    data.set_block(vec3(3, 4, 5), block);
    assert_eq!(data.get_block(vec3(3, 4, 5)).copied(), Some(block));
    assert_eq!(data.get_block(vec3(4, 4, 5)).copied(), Some(Block { id: 0, state: 0 }));
    assert_eq!(data.get_block(vec3(3, 5, 5)).copied(), Some(Block { id: 0, state: 0 }));
}

#[test]
fn offsets_go_through_x_then_z_then_y() {
    let data = ChunkData::new();
    assert_eq!(data.coords_to_offset(vec3(0, 0, 0)), Some(0));
    assert_eq!(data.coords_to_offset(vec3(1, 0, 0)), Some(1));
    assert_eq!(data.coords_to_offset(vec3(0, 0, 1)), Some(32));
    assert_eq!(data.coords_to_offset(vec3(0, 1, 0)), Some(1024));
    assert_eq!(data.coords_to_offset(vec3(7, 3, 2)), Some(3 * 1024 + 2 * 32 + 7));
    assert_eq!(data.coords_to_offset(vec3(31, 31, 31)), Some(32767));
}

#[test]
fn out_of_range_coordinates_have_no_offset() {
    let data = ChunkData::new();
    for position in [
        vec3(-1, 0, 0),
        vec3(0, -1, 0),
        vec3(0, 0, -1),
        vec3(CHUNK_SIZE, 0, 0),
        vec3(0, CHUNK_SIZE, 0),
        vec3(0, 0, CHUNK_SIZE),
        vec3(i32::MIN, 0, 0),
        vec3(i32::MAX, i32::MAX, i32::MAX),
    ] {
        assert_eq!(data.coords_to_offset(position), None);
        assert!(data.get_block(position).is_none());
    }
}

#[test]
fn set_block_out_of_range_changes_nothing() {
    let mut data = ChunkData::new();
    data.set_block(vec3(32, 0, 0), Block { id: 1, state: 0 });
    data.set_block(vec3(0, -1, 0), Block { id: 1, state: 0 });
    for offset in 0..CHUNK_BLOCK_COUNT {
        assert_eq!(data.block(offset), Block { id: 0, state: 0 });
    }
}

#[test]
fn air_is_not_solid_and_every_other_block_is() {
    assert!(!Block { id: 0, state: 0 }.is_solid());
    assert!(!Block { id: 0, state: 9 }.is_solid());
    for id in 1..BLOCK_ID_END {
        assert!(Block { id, state: 0 }.is_solid());
    }
}

#[test]
fn unknown_block_is_solid() {
    assert!(Block { id: BLOCK_ID_END, state: 0 }.is_solid());
    assert!(Block { id: 1000, state: 0 }.is_solid());
    assert!(Block { id: u16::MAX, state: 3 }.is_solid());
}

#[test]
fn block_ids_and_numbers_correspond() {
    let kinds = [
        (BlockId::Air, 0u16),
        (BlockId::Stone, 1),
        (BlockId::Grass, 2),
        (BlockId::Dirt, 3),
        (BlockId::Snow, 4),
        (BlockId::SnowGrass, 5),
    ];
    for (kind, number) in kinds {
        assert_eq!(kind.to_u16(), number);
        assert_eq!(BlockId::from_u16(number), Some(kind));
        assert_eq!(kind.is_solid(), number != 0);
    }
    assert_eq!(BlockId::from_u16(6), None);
    assert_eq!(BlockId::from_u16(u16::MAX), None);
}

#[test]
fn default_block_is_air() {
    assert_eq!(Block::default(), Block { id: 0, state: 0 });
}

#[test]
fn new_chunk_has_no_mesh() {
    let chunk = Chunk::new(vec3(1, -2, 3), ChunkData::new());
    assert!(chunk.mesh.is_none());
    assert_eq!(chunk.position.0, [1, -2, 3]);
}
