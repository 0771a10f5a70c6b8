//! Which chunks are kept around a viewpoint.

use crate::game::chunk::{Chunk, ChunkData};
use crate::game::chunk_map::{ChunkMap, PositionSet};
use crate::game::{neighbor, touches, Dir};
use crate::math::{vec3, Pos, Vec3i32};
use vstd::prelude::*;

verus! {

/// Half of the render distance, rounded towards zero.
pub open spec fn half_distance(r: int) -> int {
    if r >= 0 {
        r / 2
    } else {
        -((-r) / 2)
    }
}

/// Whether a step of `c` chunks along one axis stays inside the cube that
/// is walked around the viewpoint: `c` lies in `[-h - 1, h + 1]`, where `h`
/// is half the render distance.
pub open spec fn in_cube(c: int, r: int) -> bool {
    -half_distance(r) - 1 <= c <= half_distance(r) + 1
}

/// Whether the chunk at `offset` from the viewpoint's chunk is kept: the
/// offset lies inside the cube, and its length is less than the render
/// distance.
pub open spec fn in_range(offset: Pos, r: int) -> bool {
    &&& in_cube(offset.x, r)
    &&& in_cube(offset.y, r)
    &&& in_cube(offset.z, r)
    &&& offset.norm2() < r * r
}

/// Whether the chunk at `p` is kept when the viewpoint is in the chunk at
/// `center`.
pub open spec fn retained(p: Pos, center: Pos, r: int) -> bool {
    p.fits_i32() && in_range(p.minus(center), r)
}

/// The square of a number of at most 31 bits has at most 62 bits, and the
/// square of a number of `[-2^31, 2^31]` at most 63.
proof fn lemma_square_bound(a: int)
    by (nonlinear_arith)
    requires
        -0x8000_0000 <= a <= 0x8000_0000,
    ensures
        0 <= a * a <= 0x4000_0000_0000_0000,
        -0x4000_0001 <= a <= 0x4000_0001 ==> a * a <= 0x1000_0000_8000_0001,
{
}

/// Whether the offset `(dx, dy, dz)` is in range for the render distance
/// `r`.
pub fn offset_in_range(dx: i64, dy: i64, dz: i64, r: i32) -> (b: bool)
    ensures
        b == in_range(Pos { x: dx as int, y: dy as int, z: dz as int }, r as int),
{
    let half: i64 = (r / 2) as i64;
    let low: i64 = -half - 1;
    let high: i64 = half + 1;
    if dx < low || dx > high || dy < low || dy > high || dz < low || dz > high {
        return false;
    }
    proof {
        lemma_square_bound(dx as int);
        lemma_square_bound(dy as int);
        lemma_square_bound(dz as int);
        lemma_square_bound(r as int);
    }
    dx * dx + dy * dy + dz * dz < (r as i64) * (r as i64)
}

/// Whether the chunk at `p` is kept when the viewpoint is in the chunk at
/// `center` and the render distance is `r`.
pub fn is_retained(p: &Vec3i32, center: &Vec3i32, r: i32) -> (b: bool)
    ensures
        b == retained(p@, center@, r as int),
{
    offset_in_range(
        p.x() as i64 - center.x() as i64,
        p.y() as i64 - center.y() as i64,
        p.z() as i64 - center.z() as i64,
        r,
    )
}

/// Whether the chunk at `q` is among `now` and was not among `old`.
pub open spec fn fresh(old: Set<Pos>, now: Set<Pos>, q: Pos) -> bool {
    now.contains(q) && !old.contains(q)
}

/// Whether the chunk at `p` needs a new mesh after the loaded positions went
/// from `old` to `now`: it is new itself, or a chunk that shares a face with
/// it is.
pub open spec fn dirty(old: Set<Pos>, now: Set<Pos>, p: Pos) -> bool {
    ||| fresh(old, now, p)
    ||| fresh(old, now, neighbor(p, 0))
    ||| fresh(old, now, neighbor(p, 1))
    ||| fresh(old, now, neighbor(p, 2))
    ||| fresh(old, now, neighbor(p, 3))
    ||| fresh(old, now, neighbor(p, 4))
    ||| fresh(old, now, neighbor(p, 5))
}

/// A loaded chunk that shares a face with a new chunk needs a new mesh,
/// though its own blocks did not change.
pub proof fn lemma_neighbor_of_new_chunk_is_dirty(old: Set<Pos>, now: Set<Pos>, new: Pos, p: Pos)
    requires
        fresh(old, now, new),
        touches(p, new),
    ensures
        dirty(old, now, p),
{
    assert(Dir::spec_from_index(0) == Dir::PX);
    assert(Dir::spec_from_index(1) == Dir::NX);
    assert(Dir::spec_from_index(2) == Dir::PY);
    assert(Dir::spec_from_index(3) == Dir::NY);
    assert(Dir::spec_from_index(4) == Dir::PZ);
    assert(Dir::spec_from_index(5) == Dir::NZ);
}

/// Adds to the map the chunk that the terrain generator made for
/// `position`, if it made one, and marks that chunk and the loaded chunks
/// that share a face with it.
pub fn add_generated(
    chunks: &mut ChunkMap,
    marked: &mut PositionSet,
    position: Vec3i32,
    outcome: Option<ChunkData>,
)
    requires
        old(chunks).wf(),
        !old(chunks)@.contains_key(position@),
    ensures
        final(chunks).wf(),
        match outcome {
            Some(data) => {
                &&& final(chunks)@ == old(chunks)@.insert(
                    position@,
                    Chunk { data, mesh: None, position },
                )
                &&& forall|q: Pos|
                    #[trigger] final(marked)@.contains(q) == (old(marked)@.contains(q) || q
                        == position@ || (touches(q, position@) && old(chunks)@.contains_key(q)))
            },
            None => final(chunks)@ == old(chunks)@ && final(marked)@ == old(marked)@,
        },
{
    if let Some(data) = outcome {
        chunks.insert(Chunk::new(position, data));
        marked.insert(position);
        let dirs = Dir::all();
        let mut d: usize = 0;
        while d < 6
            invariant
                d <= 6,
                forall|i: int| 0 <= i < 6 ==> #[trigger] dirs@[i] == Dir::spec_from_index(i),
                chunks.wf(),
                chunks@ == old(chunks)@.insert(position@, Chunk { data, mesh: None, position }),
                !old(chunks)@.contains_key(position@),
                forall|q: Pos|
                    #[trigger] marked@.contains(q) == (old(marked)@.contains(q) || q == position@
                        || (crate::game::near(q, position@, d as int) && old(chunks)@.contains_key(
                        q,
                    ))),
            decreases 6 - d,
        {
            let ghost step = neighbor(position@, d as int);
            let ghost marked_before = marked@;
            proof {
                chunks.lemma_positions_fit();
                old(chunks).lemma_positions_fit();
                assert(step != position@);
            }
            match position.checked_add(&dirs[d].normal()) {
                Some(next) => {
                    if chunks.contains_key(&next) {
                        marked.insert(next);
                    }
                },
                None => {},
            }
            proof {
                assert(marked@ == if old(chunks)@.contains_key(step) {
                    marked_before.insert(step)
                } else {
                    marked_before
                });
                assert forall|q: Pos|
                    #[trigger] marked@.contains(q) == (old(marked)@.contains(q) || q == position@
                        || (crate::game::near(q, position@, d + 1) && old(chunks)@.contains_key(
                        q,
                    ))) by {
                    assert(crate::game::near(q, position@, d + 1) == (crate::game::near(
                        q,
                        position@,
                        d as int,
                    ) || q == step));
                    assert(marked_before.contains(q) == (old(marked)@.contains(q) || q == position@
                        || (crate::game::near(q, position@, d as int) && old(chunks)@.contains_key(
                        q,
                    ))));
                }
            }
            d += 1;
        }
        proof {
            crate::game::lemma_near(position@);
            assert forall|q: Pos|
                #[trigger] marked@.contains(q) == (old(marked)@.contains(q) || q == position@ || (
                touches(q, position@) && old(chunks)@.contains_key(q))) by {
                assert(crate::game::near(q, position@, 6) == (q == position@ || touches(
                    q,
                    position@,
                )));
            }
        }
    }
}

/// Whether the offset `o` comes before `cursor` in the walk around the
/// viewpoint, which goes through x, then y, then z.
pub open spec fn before(o: Pos, cursor: Pos) -> bool {
    o.x < cursor.x || (o.x == cursor.x && (o.y < cursor.y || (o.y == cursor.y && o.z < cursor.z)))
}

/// Whether `outcome` is something that the terrain generator may return for
/// the chunk at `p`.
pub open spec fn generated<F: Fn(Vec3i32) -> Option<ChunkData>>(
    generator: &F,
    p: Pos,
    outcome: Option<ChunkData>,
) -> bool {
    exists|v: Vec3i32| v@ == p && #[trigger] generator.ensures((v,), outcome)
}

/// What holds while the chunks around the viewpoint are loaded, when the
/// walk has come to `cursor`: the chunks of `old` are as they were; every
/// other chunk is one that the generator made for a position of the range
/// that the walk has passed, and has no mesh yet; where the walk has passed
/// a position of the range and there is no chunk, the generator made none;
/// and the marked chunks are those that need a new mesh.
pub open spec fn pass_state<F: Fn(Vec3i32) -> Option<ChunkData>>(
    old: Map<Pos, Chunk>,
    now: Map<Pos, Chunk>,
    marked: Set<Pos>,
    generator: &F,
    center: Pos,
    r: int,
    cursor: Pos,
) -> bool {
    &&& forall|p: Pos| #[trigger] old.contains_key(p) ==> now.contains_key(p) && now[p] == old[p]
    &&& forall|p: Pos| #[trigger]
        now.contains_key(p) && !old.contains_key(p) ==> {
            &&& retained(p, center, r)
            &&& before(p.minus(center), cursor)
            &&& now[p].mesh is None
            &&& now[p].position@ == p
            &&& generated(generator, p, Some(now[p].data))
        }
    &&& forall|p: Pos|
        retained(p, center, r) && before(p.minus(center), cursor) && !(#[trigger] now.contains_key(
            p,
        )) ==> generated(generator, p, None)
    &&& forall|p: Pos| #[trigger]
        now.contains_key(p) ==> marked.contains(p) == dirty(old.dom(), now.dom(), p)
}

/// One step of the walk: loads the chunk at `offset` from `center` if it is
/// in range and not loaded yet.
fn consider<F: Fn(Vec3i32) -> Option<ChunkData>>(
    chunks: &mut ChunkMap,
    marked: &mut PositionSet,
    center: &Vec3i32,
    r: i32,
    dx: i64,
    dy: i64,
    dz: i64,
    generator: &F,
    Ghost(old_chunks): Ghost<Map<Pos, Chunk>>,
)
    requires
        old(chunks).wf(),
        -0x4000_0001 <= dx <= 0x4000_0001,
        -0x4000_0001 <= dy <= 0x4000_0001,
        -0x4000_0001 <= dz <= 0x4000_0001,
        forall|v: Vec3i32| retained(v@, center@, r as int) ==> generator.requires((v,)),
        pass_state(
            old_chunks,
            old(chunks)@,
            old(marked)@,
            generator,
            center@,
            r as int,
            Pos { x: dx as int, y: dy as int, z: dz as int },
        ),
    ensures
        final(chunks).wf(),
        pass_state(
            old_chunks,
            final(chunks)@,
            final(marked)@,
            generator,
            center@,
            r as int,
            Pos { x: dx as int, y: dy as int, z: dz + 1 },
        ),
{
    let ghost here = Pos { x: dx as int, y: dy as int, z: dz as int };
    let ghost next = Pos { x: dx as int, y: dy as int, z: dz + 1 };
    let ghost target = center@.plus(here);
    let ghost before_chunks = chunks@;
    let ghost before_marked = marked@;
    proof {
        assert forall|o: Pos| before(o, next) == (before(o, here) || o == here) by {}
        chunks.lemma_positions_fit();
    }
    if offset_in_range(dx, dy, dz, r) {
        let ax: i64 = center.x() as i64 + dx;
        let ay: i64 = center.y() as i64 + dy;
        let az: i64 = center.z() as i64 + dz;
        if ax >= i32::MIN as i64 && ax <= i32::MAX as i64 && ay >= i32::MIN as i64 && ay
            <= i32::MAX as i64 && az >= i32::MIN as i64 && az <= i32::MAX as i64 {
            let position = vec3(ax as i32, ay as i32, az as i32);
            assert(position@ == target);
            assert(target.minus(center@) == here);
            if !chunks.contains_key(&position) {
                let outcome = generator(position);
                add_generated(chunks, marked, position, outcome);
                proof {
                    assert(generated(generator, target, outcome));
                    lemma_step(
                        old_chunks,
                        before_chunks,
                        before_marked,
                        chunks@,
                        marked@,
                        generator,
                        center@,
                        r as int,
                        here,
                        outcome,
                        position,
                    );
                }
                return ;
            }
        }
    }
    proof {
        assert forall|p: Pos|
            retained(p, center@, r as int) && before(p.minus(center@), next) && !(
            #[trigger] chunks@.contains_key(p)) implies generated(generator, p, None) by {
            if p.minus(center@) == here {
                assert(p == target);
            }
        }
    }
}

/// A step of the walk that asked the generator keeps what holds of the
/// walk.
proof fn lemma_step<F: Fn(Vec3i32) -> Option<ChunkData>>(
    old: Map<Pos, Chunk>,
    before_chunks: Map<Pos, Chunk>,
    before_marked: Set<Pos>,
    now: Map<Pos, Chunk>,
    marked: Set<Pos>,
    generator: &F,
    center: Pos,
    r: int,
    here: Pos,
    outcome: Option<ChunkData>,
    position: Vec3i32,
)
    requires
        pass_state(old, before_chunks, before_marked, generator, center, r, here),
        position@ == center.plus(here),
        retained(position@, center, r),
        !before_chunks.contains_key(position@),
        generated(generator, position@, outcome),
        match outcome {
            Some(data) => {
                &&& now == before_chunks.insert(position@, Chunk { data, mesh: None, position })
                &&& forall|q: Pos|
                    #[trigger] marked.contains(q) == (before_marked.contains(q) || q == position@
                        || (touches(q, position@) && before_chunks.contains_key(q)))
            },
            None => now == before_chunks && marked == before_marked,
        },
    ensures
        pass_state(
            old,
            now,
            marked,
            generator,
            center,
            r,
            Pos { x: here.x, y: here.y, z: here.z + 1 },
        ),
{
    let next = Pos { x: here.x, y: here.y, z: here.z + 1 };
    let target = position@;
    assert(target.minus(center) == here);
    assert forall|o: Pos| before(o, next) == (before(o, here) || o == here) by {}
    assert forall|p: Pos|
        retained(p, center, r) && before(p.minus(center), next) && !(#[trigger] now.contains_key(
            p,
        )) implies generated(generator, p, None) by {
        if p.minus(center) == here {
            assert(p == target);
        } else {
            assert(!before_chunks.contains_key(p));
        }
    }
    match outcome {
        Some(data) => {
            assert forall|p: Pos| #[trigger] now.contains_key(p) implies marked.contains(p)
                == dirty(old.dom(), now.dom(), p) by {
                lemma_dirty_step(old.dom(), before_chunks.dom(), target, p);
                if p != target {
                    assert(before_chunks.contains_key(p));
                    assert(before_marked.contains(p) == dirty(
                        old.dom(),
                        before_chunks.dom(),
                        p,
                    ));
                }
                assert(now.dom() =~= before_chunks.dom().insert(target));
            }
            assert forall|p: Pos| #[trigger] now.contains_key(p) && !old.contains_key(p) implies {
                &&& retained(p, center, r)
                &&& before(p.minus(center), next)
                &&& now[p].mesh is None
                &&& now[p].position@ == p
                &&& generated(generator, p, Some(now[p].data))
            } by {
                if p != target {
                    assert(before_chunks.contains_key(p));
                }
            }
        },
        None => {},
    }
}

/// How the chunks that need a new mesh change when the chunk at `target` is
/// loaded: `target` joins them, and so do the loaded chunks that touch it.
pub proof fn lemma_dirty_step(old: Set<Pos>, before: Set<Pos>, target: Pos, p: Pos)
    requires
        !before.contains(target),
        !old.contains(target),
    ensures
        dirty(old, before.insert(target), p) == (dirty(old, before, p) || p == target || touches(
            p,
            target,
        )),
{
    let now = before.insert(target);
    assert(Dir::spec_from_index(0) == Dir::PX);
    assert(Dir::spec_from_index(1) == Dir::NX);
    assert(Dir::spec_from_index(2) == Dir::PY);
    assert(Dir::spec_from_index(3) == Dir::NY);
    assert(Dir::spec_from_index(4) == Dir::PZ);
    assert(Dir::spec_from_index(5) == Dir::NZ);
    assert forall|q: Pos| fresh(old, now, q) == (fresh(old, before, q) || q == target) by {}
}

/// What holds of the walk at one cursor holds at another that the same
/// offsets of the range come before.
proof fn lemma_cursor_carry<F: Fn(Vec3i32) -> Option<ChunkData>>(
    old: Map<Pos, Chunk>,
    now: Map<Pos, Chunk>,
    marked: Set<Pos>,
    generator: &F,
    center: Pos,
    r: int,
    from: Pos,
    to: Pos,
)
    requires
        pass_state(old, now, marked, generator, center, r, from),
        forall|o: Pos| in_range(o, r) ==> before(o, from) == before(o, to),
    ensures
        pass_state(old, now, marked, generator, center, r, to),
{
    assert forall|p: Pos| #[trigger] now.contains_key(p) && !old.contains_key(p) implies before(
        p.minus(center),
        to,
    ) by {
        assert(in_range(p.minus(center), r));
    }
    assert forall|p: Pos|
        retained(p, center, r) && before(p.minus(center), to) && !(#[trigger] now.contains_key(
            p,
        )) implies generated(generator, p, None) by {
        assert(in_range(p.minus(center), r));
    }
}

/// Walks the cube around `center` and loads every chunk of the range that
/// is not loaded yet and that the generator makes, marking the chunks that
/// need a new mesh.
pub fn load_range<F: Fn(Vec3i32) -> Option<ChunkData>>(
    chunks: &mut ChunkMap,
    marked: &mut PositionSet,
    center: &Vec3i32,
    r: i32,
    generator: &F,
)
    requires
        old(chunks).wf(),
        old(marked)@ == Set::<Pos>::empty(),
        forall|v: Vec3i32| retained(v@, center@, r as int) ==> generator.requires((v,)),
    ensures
        final(chunks).wf(),
        forall|p: Pos| #[trigger]
            old(chunks)@.contains_key(p) ==> final(chunks)@.contains_key(p) && final(chunks)@[p]
                == old(chunks)@[p],
        forall|p: Pos| #[trigger]
            final(chunks)@.contains_key(p) && !old(chunks)@.contains_key(p) ==> {
                &&& retained(p, center@, r as int)
                &&& final(chunks)@[p].mesh is None
                &&& final(chunks)@[p].position@ == p
                &&& generated(generator, p, Some(final(chunks)@[p].data))
            },
        forall|p: Pos|
            retained(p, center@, r as int) && !(#[trigger] final(chunks)@.contains_key(p))
                ==> generated(generator, p, None),
        forall|p: Pos| #[trigger]
            final(chunks)@.contains_key(p) ==> final(marked)@.contains(p) == dirty(
                old(chunks)@.dom(),
                final(chunks)@.dom(),
                p,
            ),
{
    let half: i64 = (r / 2) as i64;
    let low: i64 = -half - 1;
    let high: i64 = half + 1;
    let ghost old_chunks = chunks@;
    let ghost c = center@;
    let mut x: i64 = low;
    while x <= high
        invariant
            low == -half_distance(r as int) - 1,
            high == half_distance(r as int) + 1,
            low <= x,
            x <= high + 1 || x == low,
            chunks.wf(),
            c == center@,
            forall|v: Vec3i32| retained(v@, center@, r as int) ==> generator.requires((v,)),
            pass_state(
                old_chunks,
                chunks@,
                marked@,
                generator,
                c,
                r as int,
                Pos { x: x as int, y: low as int, z: low as int },
            ),
        decreases high + 1 - x,
    {
        let mut y: i64 = low;
        while y <= high
            invariant
                low == -half_distance(r as int) - 1,
                high == half_distance(r as int) + 1,
                low <= x <= high,
                low <= y <= high + 1,
                chunks.wf(),
                c == center@,
                forall|v: Vec3i32| retained(v@, center@, r as int) ==> generator.requires((v,)),
                pass_state(
                    old_chunks,
                    chunks@,
                    marked@,
                    generator,
                    c,
                    r as int,
                    Pos { x: x as int, y: y as int, z: low as int },
                ),
            decreases high + 1 - y,
        {
            let mut z: i64 = low;
            while z <= high
                invariant
                    low == -half_distance(r as int) - 1,
                    high == half_distance(r as int) + 1,
                    low <= x <= high,
                    low <= y <= high,
                    low <= z <= high + 1,
                    chunks.wf(),
                    c == center@,
                    forall|v: Vec3i32| retained(v@, center@, r as int) ==> generator.requires((v,)),
                    pass_state(
                        old_chunks,
                        chunks@,
                        marked@,
                        generator,
                        c,
                        r as int,
                        Pos { x: x as int, y: y as int, z: z as int },
                    ),
                decreases high + 1 - z,
            {
                consider(chunks, marked, center, r, x, y, z, generator, Ghost(old_chunks));
                z += 1;
            }
            proof {
                lemma_cursor_carry(
                    old_chunks,
                    chunks@,
                    marked@,
                    generator,
                    c,
                    r as int,
                    Pos { x: x as int, y: y as int, z: z as int },
                    Pos { x: x as int, y: y + 1, z: low as int },
                );
            }
            y += 1;
        }
        proof {
            lemma_cursor_carry(
                old_chunks,
                chunks@,
                marked@,
                generator,
                c,
                r as int,
                Pos { x: x as int, y: y as int, z: low as int },
                Pos { x: x + 1, y: low as int, z: low as int },
            );
        }
        x += 1;
    }
    proof {
        lemma_cursor_carry(
            old_chunks,
            chunks@,
            marked@,
            generator,
            c,
            r as int,
            Pos { x: x as int, y: low as int, z: low as int },
            Pos { x: high + 1, y: low as int, z: low as int },
        );
        assert forall|p: Pos|
            retained(p, center@, r as int) && !(#[trigger] chunks@.contains_key(p)) implies generated(
            generator,
            p,
            None,
        ) by {
            assert(before(p.minus(c), Pos { x: high + 1, y: low as int, z: low as int }));
        }
    }
}

/// Removes from the map every chunk that is not kept around `center`.
pub fn evict_outside(chunks: &mut ChunkMap, center: &Vec3i32, r: i32)
    requires
        old(chunks).wf(),
    ensures
        final(chunks).wf(),
        final(chunks)@ == old(chunks)@.restrict(
            Set::new(|p: Pos| retained(p, center@, r as int)),
        ),
{
    let positions = chunks.positions();
    let mut i: usize = 0;
    while i < positions.len()
        invariant
            i <= positions.len(),
            chunks.wf(),
            forall|p: Pos| #[trigger]
                chunks@.contains_key(p) ==> old(chunks)@.contains_key(p) && chunks@[p] == old(
                    chunks,
                )@[p],
            forall|p: Pos| #[trigger]
                old(chunks)@.contains_key(p) && retained(p, center@, r as int)
                    ==> chunks@.contains_key(p),
            forall|j: int|
                0 <= j < i && !retained(#[trigger] positions@[j]@, center@, r as int)
                    ==> !chunks@.contains_key(positions@[j]@),
            forall|p: Pos|
                old(chunks)@.contains_key(p) ==> exists|j: int|
                    0 <= j < positions@.len() && #[trigger] positions@[j]@ == p,
        decreases positions.len() - i,
    {
        if !is_retained(&positions[i], center, r) {
            chunks.remove(&positions[i]);
        }
        i += 1;
    }
    proof {
        let kept = old(chunks)@.restrict(Set::new(|p: Pos| retained(p, center@, r as int)));
        assert forall|p: Pos| chunks@.contains_key(p) implies retained(p, center@, r as int) by {
            let j = choose|j: int| 0 <= j < positions@.len() && #[trigger] positions@[j]@ == p;
            assert(positions@[j]@ == p);
        }
        assert(chunks@ =~= kept);
    }
}

/// The chunks that need a new mesh are the same whether the new chunks are
/// told from the chunks before or after those outside the range were
/// unloaded, because every new chunk is in the range.
pub proof fn lemma_dirty_kept(
    old: Set<Pos>,
    loaded: Set<Pos>,
    kept: Set<Pos>,
    center: Pos,
    r: int,
    p: Pos,
)
    requires
        forall|q: Pos| #[trigger] kept.contains(q) == (loaded.contains(q) && retained(q, center, r)),
        forall|q: Pos| #[trigger] loaded.contains(q) && !old.contains(q) ==> retained(q, center, r),
    ensures
        dirty(old, kept, p) == dirty(old, loaded, p),
{
    assert forall|q: Pos| fresh(old, kept, q) == fresh(old, loaded, q) by {
        if loaded.contains(q) && !old.contains(q) {
            assert(kept.contains(q));
        }
        if kept.contains(q) {
            assert(loaded.contains(q));
        }
    }
}

} // verus!
