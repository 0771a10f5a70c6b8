use voxel_world::game::texture::{BlockSides, TextureId};
use voxel_world::game::Dir;
use voxel_world::math::{vec1, vec2, vec3, vec4, Vec3i32, Vector};

#[test]
fn constructors_keep_the_order() {
    assert_eq!(vec1(7).0, [7]);
    assert_eq!(vec2(7, 8).0, [7, 8]);
    assert_eq!(vec3(7, 8, 9).0, [7, 8, 9]);
    assert_eq!(vec4('a', 'b', 'c', 'd').0, ['a', 'b', 'c', 'd']);
    let v = vec3(1, -2, 3);
    assert_eq!((v.x(), v.y(), v.z()), (1, -2, 3));
}

#[test]
fn make_calls_the_function_with_each_index() {
    let v: Vector<usize, 5> = Vector::make(|i| 10 * i + 1);
    assert_eq!(v.0, [1, 11, 21, 31, 41]);
    let empty: Vector<u8, 0> = Vector::make(|_| 1);
    let nothing: [u8; 0] = [];
    assert_eq!(empty.0, nothing);
}

#[test]
fn map_applies_to_each_component() {
    let v = vec3(1, -2, 3);
    assert_eq!(v.map(|c| c * 2).0, [2, -4, 6]);
    assert_eq!(v.map(|c| c < 0).0, [false, true, false]);
    assert_eq!(v.map_indexed(|c, i| c + 10 * i as i32).0, [1, 8, 23]);
    assert_eq!(v.zip_map(vec3(10u8, 20, 30), |a, b| a + b as i32).0, [11, 18, 33]);
}

#[test]
fn zero_vector() {
    assert_eq!(Vec3i32::zero().0, [0, 0, 0]);
    assert_eq!(Vector::<i32, 2>::zero().0, [0, 0]);
}

#[test]
fn same_compares_all_components() {
    assert!(vec3(1, 2, 3).same(&vec3(1, 2, 3)));
    assert!(!vec3(1, 2, 3).same(&vec3(1, 2, 4)));
    assert!(!vec3(1, 2, 3).same(&vec3(0, 2, 3)));
    assert!(!vec3(1, 2, 3).same(&vec3(1, -2, 3)));
}

#[test]
fn checked_add_refuses_overflow() {
    assert_eq!(vec3(1, 2, 3).checked_add(&vec3(10, 20, 30)).map(|v| v.0), Some([11, 22, 33]));
    assert!(vec3(i32::MAX, 0, 0).checked_add(&vec3(1, 0, 0)).is_none());
    assert!(vec3(0, i32::MIN, 0).checked_add(&vec3(0, -1, 0)).is_none());
    assert!(vec3(0, 0, i32::MAX).checked_add(&vec3(0, 0, 1)).is_none());
    assert_eq!(
        vec3(i32::MAX, i32::MIN, 0).checked_add(&vec3(0, 0, 0)).map(|v| v.0),
        Some([i32::MAX, i32::MIN, 0])
    );
}

#[test]
fn cross_product() {
    assert_eq!(vec3(1, 0, 0).cross(vec3(0, 1, 0)).0, [0, 0, 1]);
    assert_eq!(vec3(0, 1, 0).cross(vec3(1, 0, 0)).0, [0, 0, -1]);
    assert_eq!(vec3(2, 3, 4).cross(vec3(5, 6, 7)).0, [-3, 6, -3]);
    assert_eq!(vec3(40000, 0, 0).cross(vec3(0, 40000, 0)).0, [0, 0, 1_600_000_000]);
}

#[test]
fn directions_and_their_normals() {
    let all = Dir::all();
    assert_eq!(Dir::count(), 6);
    let normals: Vec<[i32; 3]> = all.iter().map(|d| d.normal().0).collect();
    assert_eq!(
        normals,
        vec![[1, 0, 0], [-1, 0, 0], [0, 1, 0], [0, -1, 0], [0, 0, 1], [0, 0, -1]]
    );
    for (index, dir) in all.iter().enumerate() {
        assert_eq!(dir.index(), index);
        assert_eq!(Dir::from_normal(dir.normal()), Some(*dir));
    }
    assert_eq!(Dir::from_normal(vec3(0, 0, 0)), None);
    assert_eq!(Dir::from_normal(vec3(1, 0, 1)), None);
    assert_eq!(Dir::from_normal(vec3(2, 0, 0)), None);
}

#[test]
fn zero_axis_replaces_the_axis_of_the_normal() {
    let v = vec3(1, 2, 3);
    let n = vec3(10, 20, 30);
    let p = vec3(100, 200, 300);
    assert_eq!(Dir::PX.zero_axis(v, n, p).0, [100, 2, 3]);
    assert_eq!(Dir::NX.zero_axis(v, n, p).0, [10, 2, 3]);
    assert_eq!(Dir::PY.zero_axis(v, n, p).0, [1, 200, 3]);
    assert_eq!(Dir::NY.zero_axis(v, n, p).0, [1, 20, 3]);
    assert_eq!(Dir::PZ.zero_axis(v, n, p).0, [1, 2, 300]);
    assert_eq!(Dir::NZ.zero_axis(v, n, p).0, [1, 2, 30]);
}

#[test]
fn in_plane_coordinates() {
    let v = vec3(1, 2, 3);
    assert_eq!(Dir::PX.exclude_axis(v).0, [2, 3]);
    assert_eq!(Dir::NY.exclude_axis(v).0, [1, 3]);
    assert_eq!(Dir::PZ.exclude_axis(v).0, [1, 2]);
    assert_eq!(Dir::PX.with_others(vec2(5, 6)).0, [1, 5, 6]);
    assert_eq!(Dir::NX.with_others(vec2(5, 6)).0, [-1, 5, 6]);
    assert_eq!(Dir::PY.with_others(vec2(5, 6)).0, [5, 1, 6]);
    assert_eq!(Dir::NY.with_others(vec2(5, 6)).0, [5, -1, 6]);
    assert_eq!(Dir::PZ.with_others(vec2(5, 6)).0, [5, 6, 1]);
    assert_eq!(Dir::NZ.with_others(vec2(5, 6)).0, [5, 6, -1]);
}

#[test]
fn block_sides() {
    let same = BlockSides::same(TextureId(4));
    assert_eq!(same.all(), [TextureId(4); 6]);
    let sides = BlockSides::cylinder(TextureId(1), TextureId(2), TextureId(3));
    assert_eq!(
        sides.all(),
        [TextureId(1), TextureId(2), TextureId(3), TextureId(3), TextureId(3), TextureId(3)]
    );
    assert_eq!(sides.in_direction(Dir::PY), TextureId(1));
    assert_eq!(sides.in_direction(Dir::NY), TextureId(2));
    for dir in [Dir::PX, Dir::NX, Dir::PZ, Dir::NZ] {
        assert_eq!(sides.in_direction(dir), TextureId(3));
    }
    let six = BlockSides { top: 1, bottom: 2, left: 3, right: 4, front: 5, back: 6 };
    assert_eq!(six.all(), [1, 2, 3, 4, 5, 6]);
    assert_eq!(six.in_direction(Dir::PX), 4);
    assert_eq!(six.in_direction(Dir::NX), 3);
    assert_eq!(six.in_direction(Dir::PZ), 5);
    assert_eq!(six.in_direction(Dir::NZ), 6);
}
