//! The slots that the occlusion levels of a face's corners go to.

use vstd::prelude::*;

verus! {

/// The index of the last place of `a` that holds less than the place after
/// it, or -1 where `a` descends throughout.
pub open spec fn last_ascent(a: Seq<u32>) -> int {
    if a[2] < a[3] {
        2
    } else if a[1] < a[2] {
        1
    } else if a[0] < a[1] {
        0
    } else {
        -1
    }
}

/// The index of the last place after `i` that holds at least what place `i`
/// holds, where the place after `i` does.
pub open spec fn last_not_below(a: Seq<u32>, i: int) -> int {
    if 3 > i && a[3] >= a[i] {
        3
    } else if 2 > i && a[2] >= a[i] {
        2
    } else {
        i + 1
    }
}

/// `a` with the places `i` and `j` exchanged.
pub open spec fn swapped(a: Seq<u32>, i: int, j: int) -> Seq<u32> {
    a.update(i, a[j]).update(j, a[i])
}

/// `a` with the places after `i` in reverse order.
pub open spec fn tail_reversed(a: Seq<u32>, i: int) -> Seq<u32> {
    Seq::new(a.len(), |k: int| if k <= i { a[k] } else { a[a.len() + i - k] })
}

/// The arrangement that follows `a`: where `a` descends throughout, its
/// reverse; else `a` with the last ascending place exchanged for the last
/// place behind it that holds no less, and what follows that place
/// reversed.
pub open spec fn spec_next_ao_index_map(a: Seq<u32>) -> Seq<u32> {
    let i = last_ascent(a);
    if i < 0 {
        tail_reversed(a, -1)
    } else {
        tail_reversed(swapped(a, i, last_not_below(a, i)), i)
    }
}

/// The slot map that meshes use unless told otherwise.
pub fn ao_index_map() -> (map: [u32; 4])
    ensures
        map@ == seq![0u32, 1u32, 3u32, 2u32],
{
    let map: [u32; 4] = [0, 1, 3, 2];
    assert(map@ =~= seq![0u32, 1u32, 3u32, 2u32]);
    map
}

/// The arrangement of the four slots that follows `map`.
pub fn next_ao_index_map(map: [u32; 4]) -> (next: [u32; 4])
    ensures
        next@ == spec_next_ao_index_map(map@),
{
    let mut nums = map;
    assert(map@.len() == 4);
    let mut i: usize = 3;
    while i > 0 && nums[i - 1] >= nums[i]
        invariant
            i <= 3,
            nums == map,
            i <= 2 ==> map@[2] >= map@[3],
            i <= 1 ==> map@[1] >= map@[2],
            i <= 0 ==> map@[0] >= map@[1],
        decreases i,
    {
        i -= 1;
    }
    if i == 0 {
        let reversed: [u32; 4] = [nums[3], nums[2], nums[1], nums[0]];
        assert(reversed@ =~= spec_next_ao_index_map(map@));
        return reversed;
    }
    let pivot: usize = i - 1;
    assert(pivot == last_ascent(map@));
    let mut j: usize = 3;
    while j > pivot + 1 && nums[j] < nums[pivot]
        invariant
            pivot < j <= 3,
            nums == map,
            j < 3 ==> map@[3] < map@[pivot as int],
            j < 2 ==> map@[2] < map@[pivot as int],
        decreases j,
    {
        j -= 1;
    }
    assert(j == last_not_below(map@, pivot as int));
    let held: u32 = nums[pivot];
    nums[pivot] = nums[j];
    nums[j] = held;
    assert(nums@ =~= swapped(map@, pivot as int, j as int));
    let ghost exchanged = nums@;
    let mut low: usize = pivot + 1;
    let mut high: usize = 3;
    while low < high
        invariant
            pivot < low <= 4,
            high <= 3,
            low + high == pivot + 4,
            exchanged.len() == 4,
            forall|k: int|
                0 <= k < 4 ==> nums@[k] == if k < low || k > high {
                    tail_reversed(exchanged, pivot as int)[k]
                } else {
                    exchanged[k]
                },
        decreases high + 1 - low,
    {
        let held: u32 = nums[low];
        nums[low] = nums[high];
        nums[high] = held;
        low += 1;
        high -= 1;
    }
    assert(nums@ =~= tail_reversed(exchanged, pivot as int));
    nums
}

/// The arrangement that follows `a` holds what `a` holds: each place of it
/// holds what some place of `a` holds, and the other way round.
pub proof fn lemma_next_rearranges(a: Seq<u32>)
    requires
        a.len() == 4,
    ensures
        spec_next_ao_index_map(a).len() == 4,
        forall|k: int|
            0 <= k < 4 ==> exists|j: int|
                0 <= j < 4 && #[trigger] spec_next_ao_index_map(a)[k] == #[trigger] a[j],
        forall|j: int|
            0 <= j < 4 ==> exists|k: int|
                0 <= k < 4 && #[trigger] spec_next_ao_index_map(a)[k] == #[trigger] a[j],
{
    let next = spec_next_ao_index_map(a);
    assert(next[0] == a[0] || next[0] == a[1] || next[0] == a[2] || next[0] == a[3]);
    assert(next[1] == a[0] || next[1] == a[1] || next[1] == a[2] || next[1] == a[3]);
    assert(next[2] == a[0] || next[2] == a[1] || next[2] == a[2] || next[2] == a[3]);
    assert(next[3] == a[0] || next[3] == a[1] || next[3] == a[2] || next[3] == a[3]);
    assert(a[0] == next[0] || a[0] == next[1] || a[0] == next[2] || a[0] == next[3]);
    assert(a[1] == next[0] || a[1] == next[1] || a[1] == next[2] || a[1] == next[3]);
    assert(a[2] == next[0] || a[2] == next[1] || a[2] == next[2] || a[2] == next[3]);
    assert(a[3] == next[0] || a[3] == next[1] || a[3] == next[2] || a[3] == next[3]);
}

/// Whether `a` comes before `b` when the two are compared place by place
/// from the first.
pub open spec fn lex_less(a: Seq<u32>, b: Seq<u32>) -> bool {
    a[0] < b[0] || (a[0] == b[0] && (a[1] < b[1] || (a[1] == b[1] && (a[2] < b[2] || (a[2] == b[2]
        && a[3] < b[3])))))
}

/// Whether the four places of `a` hold four different values.
pub open spec fn all_different(a: Seq<u32>) -> bool {
    a[0] != a[1] && a[0] != a[2] && a[0] != a[3] && a[1] != a[2] && a[1] != a[3] && a[2] != a[3]
}

/// Whether the four numbers are the four indices, in some order.
pub open spec fn arrangement(s0: int, s1: int, s2: int, s3: int) -> bool {
    &&& 0 <= s0 < 4 && 0 <= s1 < 4 && 0 <= s2 < 4 && 0 <= s3 < 4
    &&& s0 != s1 && s0 != s2 && s0 != s3 && s1 != s2 && s1 != s3 && s2 != s3
}

/// What `a` holds, in the order that the four indices give.
pub open spec fn arranged(a: Seq<u32>, s0: int, s1: int, s2: int, s3: int) -> Seq<u32> {
    seq![a[s0], a[s1], a[s2], a[s3]]
}

/// Of four different values, the arrangement that follows `a` is the next
/// in order: it comes after `a`, and no arrangement of the values lies
/// between the two. After the last arrangement, which descends throughout,
/// the first follows, which comes before all others.
pub proof fn lemma_next_is_next(a: Seq<u32>, s0: int, s1: int, s2: int, s3: int)
    requires
        a.len() == 4,
        all_different(a),
        arrangement(s0, s1, s2, s3),
    ensures
        last_ascent(a) >= 0 ==> lex_less(a, spec_next_ao_index_map(a)) && !(lex_less(
            a,
            arranged(a, s0, s1, s2, s3),
        ) && lex_less(arranged(a, s0, s1, s2, s3), spec_next_ao_index_map(a))),
        last_ascent(a) < 0 ==> !lex_less(a, arranged(a, s0, s1, s2, s3)) && !lex_less(
            arranged(a, s0, s1, s2, s3),
            spec_next_ao_index_map(a),
        ),
{
    let next = spec_next_ao_index_map(a);
    let p = arranged(a, s0, s1, s2, s3);
    let i = last_ascent(a);
    assert(p[0] == a[s0] && p[1] == a[s1] && p[2] == a[s2] && p[3] == a[s3]);
    if i < 0 {
        assert(next[0] == a[3] && next[1] == a[2] && next[2] == a[1] && next[3] == a[0]);
    } else {
        let j = last_not_below(a, i);
        let e = swapped(a, i, j);
        assert(e[0] == (if i == 0 { a[j] } else { a[0] }));
        assert(e[1] == (if i == 1 { a[j] } else if j == 1 { a[i] } else { a[1] }));
        assert(e[2] == (if i == 2 { a[j] } else if j == 2 { a[i] } else { a[2] }));
        assert(e[3] == (if j == 3 { a[i] } else { a[3] }));
        if i == 2 {
            assert(next[0] == e[0] && next[1] == e[1] && next[2] == e[2] && next[3] == e[3]);
        } else if i == 1 {
            assert(next[0] == e[0] && next[1] == e[1] && next[2] == e[3] && next[3] == e[2]);
        } else {
            assert(next[0] == e[0] && next[1] == e[3] && next[2] == e[2] && next[3] == e[1]);
        }
    }
}

} // verus!
