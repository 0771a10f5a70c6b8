use voxel_world::game::chunk::{block_global_to_block_local, block_global_to_chunk, CHUNK_SIZE};
use voxel_world::game::{BlockTarget, Dir};
use voxel_world::math::vec3;

#[test]
fn negative_coordinates_round_down() {
    let chunk = block_global_to_chunk(vec3(-1, -32, -33));
    assert_eq!(chunk.0, [-1, -1, -2]);
    let local = block_global_to_block_local(vec3(-1, -32, -33));
    assert_eq!(local.0, [31, 0, 31]);
}

#[test]
fn positive_coordinates_split() {
    assert_eq!(block_global_to_chunk(vec3(0, 31, 32)).0, [0, 0, 1]);
    assert_eq!(block_global_to_block_local(vec3(0, 31, 32)).0, [0, 31, 0]);
    assert_eq!(block_global_to_chunk(vec3(100, 150, 1000)).0, [3, 4, 31]);
    assert_eq!(block_global_to_block_local(vec3(100, 150, 1000)).0, [4, 22, 8]);
}

#[test]
fn chunk_and_local_add_up_to_global() {
    let samples = [
        -2147483648i32,
        -2147483647,
        -1000,
        -65,
        -64,
        -33,
        -32,
        -31,
        -1,
        0,
        1,
        31,
        32,
        33,
        4095,
        2147483647,
    ];
    for &x in samples.iter() {
        for &y in samples.iter() {
            let global = vec3(x, y, x);
            let chunk = block_global_to_chunk(global);
            let local = block_global_to_block_local(global);
            for axis in 0..3 {
                assert!(0 <= local.0[axis] && local.0[axis] < CHUNK_SIZE);
                assert_eq!(
                    chunk.0[axis] as i64 * CHUNK_SIZE as i64 + local.0[axis] as i64,
                    global.0[axis] as i64
                );
            }
        }
    }
}

#[test]
fn target_to_global_undoes_the_split() {
    let global = vec3(-70, 129, 5);
    let target = BlockTarget {
        chunk: block_global_to_chunk(global),
        block: block_global_to_block_local(global),
        face: Dir::PY,
    };
    assert_eq!(target.to_global().0, [-70, 129, 5]);
}
