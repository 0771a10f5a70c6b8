//! The loaded chunks, found by their position in the grid of chunks.

use crate::game::chunk::Chunk;
use crate::math::{Pos, Vec3i32};
use std::collections::{HashMap, HashSet};
use vstd::std_specs::iter::IteratorSpec;
use vstd::prelude::*;

verus! {

/// The number under which the chunk at `p` is filed: the three coordinates,
/// each moved into `[0, 2^32)`, as the digits of a number in base `2^32`.
pub open spec fn spec_chunk_key(p: Pos) -> int {
    (p.x + 0x8000_0000) * 0x1_0000_0000_0000_0000 + (p.y + 0x8000_0000) * 0x1_0000_0000 + (p.z
        + 0x8000_0000)
}

/// Distinct positions are filed under distinct numbers.
pub proof fn lemma_chunk_key_injective(p: Pos, q: Pos)
    requires
        p.fits_i32(),
        q.fits_i32(),
        spec_chunk_key(p) == spec_chunk_key(q),
    ensures
        p == q,
{
    let low_p = (p.y + 0x8000_0000) * 0x1_0000_0000 + (p.z + 0x8000_0000);
    let low_q = (q.y + 0x8000_0000) * 0x1_0000_0000 + (q.z + 0x8000_0000);
    assert(0 <= low_p < 0x1_0000_0000_0000_0000);
    assert(0 <= low_q < 0x1_0000_0000_0000_0000);
    if p.x < q.x {
        assert(spec_chunk_key(p) < spec_chunk_key(q));
    } else if q.x < p.x {
        assert(spec_chunk_key(q) < spec_chunk_key(p));
    } else if p.y < q.y {
        assert(low_p < low_q);
    } else if q.y < p.y {
        assert(low_q < low_p);
    }
}

fn chunk_key(position: &Vec3i32) -> (key: u128)
    ensures
        key == spec_chunk_key(position@),
{
    let x: u128 = (position.x() as i64 + 0x8000_0000) as u128;
    let y: u128 = (position.y() as i64 + 0x8000_0000) as u128;
    let z: u128 = (position.z() as i64 + 0x8000_0000) as u128;
    x * 0x1_0000_0000_0000_0000 + y * 0x1_0000_0000 + z
}

/// The loaded chunks, each found by its position.
pub struct ChunkMap {
    chunks: HashMap<u128, Chunk>,
}

impl View for ChunkMap {
    type V = Map<Pos, Chunk>;

    closed spec fn view(&self) -> Map<Pos, Chunk> {
        Map::new(
            |p: Pos| p.fits_i32() && self.chunks@.contains_key(spec_chunk_key(p) as u128),
            |p: Pos| self.chunks@[spec_chunk_key(p) as u128],
        )
    }
}

impl ChunkMap {
    /// Every chunk is filed under its own position.
    pub closed spec fn wf(&self) -> bool {
        forall|k: u128| #[trigger]
            self.chunks@.contains_key(k) ==> k == spec_chunk_key(self.chunks@[k].position@)
    }

    /// In a well-formed map every chunk stands at its own position, every
    /// position has `i32` coordinates, and there are finitely many chunks.
    pub proof fn lemma_wf(&self)
        requires
            self.wf(),
        ensures
            forall|p: Pos| #[trigger] self@.contains_key(p) ==> self@[p].position@ == p && p.fits_i32(),
            self@.dom().finite(),
    {
        broadcast use vstd::std_specs::hash::group_hash_axioms;
        assert forall|p: Pos| #[trigger] self@.contains_key(p) implies self@[p].position@ == p by {
            let k = spec_chunk_key(p) as u128;
            assert(self.chunks@.contains_key(k));
            lemma_chunk_key_injective(p, self.chunks@[k].position@);
        }
        let keys = self.chunks@.dom();
        let f = |k: u128| self.chunks@[k].position@;
        assert(self@.dom() =~= keys.map(f)) by {
            assert forall|p: Pos| self@.dom().contains(p) implies keys.map(f).contains(p) by {
                let k = spec_chunk_key(p) as u128;
                assert(keys.contains(k));
                lemma_chunk_key_injective(p, self.chunks@[k].position@);
                assert(f(k) == p);
            }
            assert forall|p: Pos| keys.map(f).contains(p) implies self@.dom().contains(p) by {
                let k = choose|k: u128| keys.contains(k) && f(k) == p;
                assert(self.chunks@.contains_key(k));
            }
        }
        keys.lemma_map_finite(f);
    }

    /// Every position in the map has `i32` coordinates.
    pub proof fn lemma_positions_fit(&self)
        ensures
            forall|p: Pos| #[trigger] self@.contains_key(p) ==> p.fits_i32(),
    {
    }

    pub fn new() -> (map: Self)
        ensures
            map.wf(),
            map@ == Map::<Pos, Chunk>::empty(),
    {
        broadcast use vstd::std_specs::hash::group_hash_axioms;
        let map = Self { chunks: HashMap::new() };
        assert(map@ =~= Map::<Pos, Chunk>::empty());
        map
    }

    pub fn len(&self) -> (n: usize)
        requires
            self.wf(),
        ensures
            n == self@.dom().len(),
    {
        broadcast use vstd::std_specs::hash::group_hash_axioms;
        proof {
            self.lemma_len();
        }
        self.chunks.len()
    }

    proof fn lemma_len(&self)
        requires
            self.wf(),
        ensures
            self@.dom().len() == self.chunks@.dom().len(),
            self.chunks@.dom().finite(),
    {
        broadcast use vstd::std_specs::hash::group_hash_axioms;
        self.lemma_wf();
        let keys = self.chunks@.dom();
        let f = |k: u128| self.chunks@[k].position@;
        assert(self@.dom() =~= keys.map(f)) by {
            assert forall|p: Pos| self@.dom().contains(p) implies keys.map(f).contains(p) by {
                let k = spec_chunk_key(p) as u128;
                assert(keys.contains(k));
                assert(f(k) == p);
            }
            assert forall|p: Pos| keys.map(f).contains(p) implies self@.dom().contains(p) by {
                let k = choose|k: u128| keys.contains(k) && f(k) == p;
                assert(self.chunks@.contains_key(k));
            }
        }
        assert(vstd::relations::injective_on(f, keys)) by {
            assert forall|k1: u128, k2: u128|
                keys.contains(k1) && keys.contains(k2) && f(k1) == f(k2) implies k1 == k2 by {
                assert(self.chunks@.contains_key(k1));
                assert(self.chunks@.contains_key(k2));
            }
        }
        vstd::set_lib::lemma_map_size(keys, keys.map(f), f);
    }

    /// The positions of all chunks in the map, each once, in no particular
    /// order.
    pub fn positions(&self) -> (r: Vec<Vec3i32>)
        requires
            self.wf(),
        ensures
            r@.len() == self@.dom().len(),
            forall|i: int| 0 <= i < r@.len() ==> self@.contains_key(#[trigger] r@[i]@),
            forall|p: Pos| self@.contains_key(p) ==> exists|i: int| 0 <= i < r@.len() && #[trigger] r@[i]@ == p,
            forall|i: int, j: int| 0 <= i < j < r@.len() ==> #[trigger] r@[i]@ != #[trigger] r@[j]@,
    {
        broadcast use vstd::std_specs::hash::group_hash_axioms;
        proof {
            self.lemma_wf();
            self.lemma_len();
        }
        let mut out: Vec<Vec3i32> = Vec::new();
        let keys = self.chunks.keys();
        let ghost all = keys.remaining();
        assert(all.unref().to_set() == self.chunks@.dom());
        assert(all.no_duplicates());
        for k in it: keys
            invariant
                self.wf(),
                it.seq() == all,
                all.unref().to_set() == self.chunks@.dom(),
                out@.len() == it.index(),
                forall|i: int| 0 <= i < out@.len() ==> spec_chunk_key(#[trigger] out@[i]@) == *all[i],
        {
            assert(all.unref()[it.index()] == *k);
            assert(all.unref().to_set().contains(*k));
            match self.chunks.get(k) {
                Some(chunk) => {
                    out.push(chunk.position);
                },
                None => {
                    assert(false);
                },
            }
        }
        proof {
            assert(out@.len() == all.len());
            all.unref().unique_seq_to_set();
            assert forall|i: int| 0 <= i < out@.len() implies self@.contains_key(#[trigger] out@[i]@) by {
                assert(all.unref()[i] == *all[i]);
                assert(all.unref().to_set().contains(*all[i]));
            }
            assert forall|p: Pos| self@.contains_key(p) implies exists|i: int|
                0 <= i < out@.len() && #[trigger] out@[i]@ == p by {
                let k = spec_chunk_key(p) as u128;
                assert(all.unref().to_set().contains(k));
                let i = choose|i: int| 0 <= i < all.unref().len() && all.unref()[i] == k;
                lemma_chunk_key_injective(p, out@[i]@);
            }
            assert forall|i: int, j: int| 0 <= i < j < out@.len() implies #[trigger] out@[i]@
                != #[trigger] out@[j]@ by {
                assert(all[i] != all[j]);
            }
        }
        out
    }

    pub fn contains_key(&self, position: &Vec3i32) -> (r: bool)
        ensures
            r == self@.contains_key(position@),
    {
        broadcast use vstd::std_specs::hash::group_hash_axioms;
        let key = chunk_key(position);
        self.chunks.contains_key(&key)
    }

    pub fn get(&self, position: &Vec3i32) -> (r: Option<&Chunk>)
        ensures
            match r {
                Some(chunk) => self@.contains_key(position@) && *chunk == self@[position@],
                None => !self@.contains_key(position@),
            },
    {
        broadcast use vstd::std_specs::hash::group_hash_axioms;
        let key = chunk_key(position);
        self.chunks.get(&key)
    }

    /// Files `chunk` under its position, in place of any chunk that stood
    /// there, which is returned.
    pub fn insert(&mut self, chunk: Chunk) -> (previous: Option<Chunk>)
        requires
            old(self).wf(),
        ensures
            final(self).wf(),
            final(self)@ == old(self)@.insert(chunk.position@, chunk),
            match previous {
                Some(c) => old(self)@.contains_key(chunk.position@) && c == old(self)@[chunk.position@],
                None => !old(self)@.contains_key(chunk.position@),
            },
    {
        broadcast use vstd::std_specs::hash::group_hash_axioms;
        let key = chunk_key(&chunk.position);
        let ghost position = chunk.position@;
        let previous = self.chunks.insert(key, chunk);
        proof {
            assert forall|p: Pos| p.fits_i32() && p != position implies spec_chunk_key(p) as u128
                != key by {
                if spec_chunk_key(p) == spec_chunk_key(position) {
                    lemma_chunk_key_injective(p, position);
                }
            }
            assert(final(self)@ =~= old(self)@.insert(position, chunk));
        }
        previous
    }

    /// Takes the chunk at `position` out of the map, if there is one.
    pub fn remove(&mut self, position: &Vec3i32) -> (removed: Option<Chunk>)
        requires
            old(self).wf(),
        ensures
            final(self).wf(),
            final(self)@ == old(self)@.remove(position@),
            match removed {
                Some(c) => old(self)@.contains_key(position@) && c == old(self)@[position@],
                None => !old(self)@.contains_key(position@),
            },
    {
        broadcast use vstd::std_specs::hash::group_hash_axioms;
        let key = chunk_key(position);
        let removed = self.chunks.remove(&key);
        proof {
            assert forall|p: Pos| p.fits_i32() && p != position@ implies spec_chunk_key(p) as u128
                != key by {
                if spec_chunk_key(p) == spec_chunk_key(position@) {
                    lemma_chunk_key_injective(p, position@);
                }
            }
            assert(final(self)@ =~= old(self)@.remove(position@));
        }
        removed
    }
}

/// A set of chunk positions.
pub struct PositionSet {
    keys: HashSet<u128>,
}

impl View for PositionSet {
    type V = Set<Pos>;

    closed spec fn view(&self) -> Set<Pos> {
        Set::new(|p: Pos| p.fits_i32() && self.keys@.contains(spec_chunk_key(p) as u128))
    }
}

impl PositionSet {
    pub fn new() -> (set: Self)
        ensures
            set@ == Set::<Pos>::empty(),
    {
        broadcast use vstd::std_specs::hash::group_hash_axioms;
        let set = Self { keys: HashSet::new() };
        assert(set@ =~= Set::<Pos>::empty());
        set
    }

    /// Adds `position` to the set; says whether it was new.
    pub fn insert(&mut self, position: Vec3i32) -> (fresh: bool)
        ensures
            final(self)@ == old(self)@.insert(position@),
            fresh == !old(self)@.contains(position@),
    {
        broadcast use vstd::std_specs::hash::group_hash_axioms;
        let key = chunk_key(&position);
        let fresh = self.keys.insert(key);
        proof {
            assert forall|p: Pos| p.fits_i32() && p != position@ implies spec_chunk_key(p) as u128
                != key by {
                if spec_chunk_key(p) == spec_chunk_key(position@) {
                    lemma_chunk_key_injective(p, position@);
                }
            }
            assert(final(self)@ =~= old(self)@.insert(position@));
        }
        fresh
    }

    pub fn contains(&self, position: &Vec3i32) -> (r: bool)
        ensures
            r == self@.contains(position@),
    {
        broadcast use vstd::std_specs::hash::group_hash_axioms;
        let key = chunk_key(position);
        self.keys.contains(&key)
    }
}

} // verus!
