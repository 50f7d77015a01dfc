use vstd::prelude::*;
use crate::cube_ops::coords::{CornerPermSymCoord, UDEdgePermRawCoord};
use crate::cube_ops::corner_perm_combo_coord::CornerPermComboCoord;
use crate::cube_ops::cube_sym::DominoSymmetry;

verus! {

/// Number of entries of the phase 2 pruning table: corner permutation classes times U/D
/// edge permutations.
pub const TABLE_ENTRY_COUNT: usize = 2768 * 40320;

/// The part of a phase 2 state that the pruning table is indexed by.
#[derive(Copy, Clone, PartialEq, Eq, Hash, Debug)]
pub struct PartialPhase2 {
    pub corner_perm_combo_coord: CornerPermComboCoord,
    pub ud_edge_perm_raw_coord: UDEdgePermRawCoord,
}

impl PartialPhase2 {
    /// The state at `index`: the corner class is the quotient by 40320 (cut to 16 bits),
    /// the U/D edge permutation the remainder, with no symmetry applied.
    pub fn from_index(index: usize) -> (r: Self)
        ensures
            r.corner_perm_combo_coord.sym_coord.0 == (index / 40320) as u16,
            r.corner_perm_combo_coord.domino_conjugation.0 == 0,
            r.ud_edge_perm_raw_coord.0 == index % 40320,
    {
        let a = index / 40320;
        let b = index % 40320;
        Self {
            corner_perm_combo_coord: CornerPermComboCoord {
                sym_coord: CornerPermSymCoord(a as u16),
                domino_conjugation: DominoSymmetry::identity(),
            },
            ud_edge_perm_raw_coord: UDEdgePermRawCoord(b as u16),
        }
    }

    /// The table index of a state carrying no symmetry: corner class times 40320 plus the
    /// U/D edge permutation.
    pub fn into_index(self) -> (r: usize)
        requires
            self.corner_perm_combo_coord.domino_conjugation.0 == 0,
        ensures
            r == self.corner_perm_combo_coord.sym_coord.0 as int * 40320
                + self.ud_edge_perm_raw_coord.0 as int,
    {
        let a = self.corner_perm_combo_coord.sym_coord.0;
        let b = self.ud_edge_perm_raw_coord.0;
        (a as usize) * 40320 + (b as usize)
    }
}

/// Indexing a state without symmetry and reading the index back give the state again, for
/// U/D edge coordinates below 40320; reading an index below 65536 * 40320 and indexing the
/// state gives the index again.
pub proof fn law_index_round_trip(p: PartialPhase2, index: usize)
    requires
        p.corner_perm_combo_coord.domino_conjugation.0 == 0,
        p.ud_edge_perm_raw_coord.0 < 40320,
        index < 65536 * 40320,
    ensures
        ({
            let i = p.corner_perm_combo_coord.sym_coord.0 as int * 40320
                + p.ud_edge_perm_raw_coord.0 as int;
            &&& i / 40320 == p.corner_perm_combo_coord.sym_coord.0
            &&& i % 40320 == p.ud_edge_perm_raw_coord.0
        }),
        (index / 40320) as u16 as int * 40320 + index % 40320 == index,
{
    let a = p.corner_perm_combo_coord.sym_coord.0 as int;
    let b = p.ud_edge_perm_raw_coord.0 as int;
    vstd::arithmetic::div_mod::lemma_fundamental_div_mod_converse(a * 40320 + b, 40320, a, b);
    vstd::arithmetic::div_mod::lemma_fundamental_div_mod(index as int, 40320);
    assert(index / 40320 < 65536) by {
        vstd::arithmetic::div_mod::lemma_div_is_ordered(index as int, 65536int * 40320, 40320);
    }
}

/// In the working table, entry `0` marks an unvisited state and entry `d + 1` a state first
/// reached at distance `d`. One of `neighbors` was reached at distance `level`.
pub open spec fn has_neighbor_at(table: Seq<u8>, neighbors: Seq<usize>, level: u8) -> bool {
    exists|k: int| 0 <= k < neighbors.len() && table[#[trigger] neighbors[k] as int] == level + 1
}

/// What one breadth-first step makes of entry `v`: an unvisited state with a neighbour at
/// distance `level` is reached at distance `level + 1`; every other entry stays.
pub open spec fn entry_after_step(
    table: Seq<u8>,
    adjacent: Seq<Vec<usize>>,
    level: u8,
    v: int,
) -> u8 {
    if table[v] == 0 && has_neighbor_at(table, adjacent[v]@, level) {
        (level + 2) as u8
    } else {
        table[v]
    }
}

/// One bottom-up breadth-first step over the working table: every unvisited state with a
/// neighbour (in `adjacent`) reached at distance `level` is marked as reached at distance
/// `level + 1`. Returns the newly reached states in increasing order.
pub fn bottom_up_level_step(table: &mut Vec<u8>, level: u8, adjacent: &Vec<Vec<usize>>) -> (next: Vec<usize>)
    requires
        level < 254,
        adjacent@.len() == old(table)@.len(),
        forall|v: int, k: int|
            0 <= v < adjacent@.len() && 0 <= k < adjacent@[v]@.len() ==> #[trigger] adjacent@[v]@[k]
                < old(table)@.len(),
    ensures
        final(table)@.len() == old(table)@.len(),
        forall|v: int|
            0 <= v < old(table)@.len() ==> #[trigger] final(table)@[v] == entry_after_step(
                old(table)@,
                adjacent@,
                level,
                v,
            ),
        forall|a: int, b: int| 0 <= a < b < next@.len() ==> next@[a] < next@[b],
        forall|k: int|
            0 <= k < next@.len() ==> #[trigger] next@[k] < old(table)@.len() && old(table)@[next@[k] as int] == 0
                && final(table)@[next@[k] as int] == level + 2,
        forall|v: int|
            0 <= v < old(table)@.len() && old(table)@[v] == 0 && final(table)@[v] == level + 2
                ==> next@.contains(v as usize),
{
    let ghost start = table@;
    let n = table.len();
    let mut next: Vec<usize> = Vec::new();
    let mut v: usize = 0;
    while v < n
        invariant
            n == start.len(),
            table@.len() == n,
            v <= n,
            level < 254,
            adjacent@.len() == n,
            forall|u: int, k: int|
                0 <= u < adjacent@.len() && 0 <= k < adjacent@[u]@.len() ==> #[trigger] adjacent@[u]@[k] < n,
            forall|u: int| 0 <= u < v ==> #[trigger] table@[u] == entry_after_step(start, adjacent@, level, u),
            forall|u: int| v <= u < n ==> #[trigger] table@[u] == start[u],
            forall|a: int, b: int| 0 <= a < b < next@.len() ==> next@[a] < next@[b],
            forall|k: int|
                0 <= k < next@.len() ==> #[trigger] next@[k] < v && start[next@[k] as int] == 0
                    && table@[next@[k] as int] == level + 2,
            forall|u: int|
                0 <= u < v && start[u] == 0 && table@[u] == level + 2 ==> next@.contains(u as usize),
        decreases n - v,
    {
        let ghost next_before = next@;
        if table[v] == 0 {
            let neighbors = &adjacent[v];
            let mut k: usize = 0;
            let mut found = false;
            while k < neighbors.len()
                invariant
                    table@.len() == n,
                    v < n,
                    level < 254,
                    neighbors@ == adjacent@[v as int]@,
                    forall|j: int| 0 <= j < neighbors@.len() ==> #[trigger] neighbors@[j] < n,
                    forall|u: int| 0 <= u < v ==> #[trigger] table@[u] == entry_after_step(start, adjacent@, level, u),
                    forall|u: int| v <= u < n ==> #[trigger] table@[u] == start[u],
                    k <= neighbors@.len(),
                    found <==> exists|j: int| 0 <= j < k && start[#[trigger] neighbors@[j] as int] == level + 1,
                decreases neighbors@.len() - k,
            {
                let nbr = neighbors[k];
                proof {
                    let x = nbr as int;
                    if x < v {
                        assert(table@[x] == entry_after_step(start, adjacent@, level, x));
                    } else {
                        assert(table@[x] == start[x]);
                    }
                    assert((table@[x] == level + 1) == (start[x] == level + 1));
                }
                if table[nbr] == level + 1 {
                    found = true;
                    proof {
                        assert(start[neighbors@[k as int] as int] == level + 1);
                    }
                }
                k += 1;
            }
            proof {
                assert(found == has_neighbor_at(start, adjacent@[v as int]@, level));
            }
            if found {
                table.set(v, level + 2);
                next.push(v);
                proof {
                    assert(next@[next@.len() - 1] == v);
                }
            }
        }
        proof {
            assert forall|u: int|
                0 <= u < v + 1 && start[u] == 0 && table@[u] == level + 2 implies next@.contains(
                u as usize,
            ) by {
                if u == v {
                    assert(next@[next@.len() - 1] == v);
                } else {
                    assert(next_before.contains(u as usize));
                    let j = choose|j: int| 0 <= j < next_before.len() && next_before[j] == u as usize;
                    assert(next@[j] == u as usize);
                }
            }
        }
        v += 1;
    }
    next
}

/// The 4-bit table value of a state first reached at distance `distance`: distances are
/// clamped to `3..=18` and stored less 3.
pub open spec fn packed_distance(distance: u8) -> u8 {
    if distance < 3 {
        0
    } else if distance > 18 {
        15
    } else {
        (distance - 3) as u8
    }
}

/// Entry `i` of a table of 4-bit values, two to a byte, the lower half first.
pub open spec fn nibble(bytes: Seq<u8>, i: int) -> u8 {
    if i % 2 == 0 {
        bytes[i / 2] & 15
    } else {
        bytes[i / 2] >> 4
    }
}

/// The packed value is the distance less 3 throughout `3..=18`, never more than the distance
/// less 3 (so read back plus 3 it never over-estimates a distance of 3 or more), and it grows
/// with the distance.
pub proof fn law_packed_distance_lower_bound(d: u8, e: u8)
    ensures
        3 <= d <= 18 ==> packed_distance(d) + 3 == d,
        d >= 3 ==> packed_distance(d) + 3 <= d,
        packed_distance(d) <= 15,
        d <= e ==> packed_distance(d) <= packed_distance(e),
{
}

/// The clamped 4-bit value of a distance.
pub fn pack_distance(distance: u8) -> (r: u8)
    ensures
        r == packed_distance(distance),
        r < 16,
        3 <= distance <= 18 ==> r + 3 == distance,
        distance < 3 ==> r == 0,
        distance > 18 ==> r == 15,
{
    let clamped = if distance < 3 {
        3
    } else if distance > 18 {
        18
    } else {
        distance
    };
    clamped - 3
}

proof fn lemma_two_nibbles(lo: u8, hi: u8)
    requires
        lo < 16,
        hi < 16,
    ensures
        (lo | (hi << 4u8)) & 15 == lo,
        (lo | (hi << 4u8)) >> 4u8 == hi,
{
    assert((lo | (hi << 4u8)) & 15 == lo) by (bit_vector)
        requires
            lo < 16,
            hi < 16,
    ;
    assert((lo | (hi << 4u8)) >> 4u8 == hi) by (bit_vector)
        requires
            lo < 16,
            hi < 16,
    ;
}

/// The pruning table of a finished working table: each state's distance (its entry less
/// one) clamped and packed into 4 bits, two states to a byte.
pub fn pack_distances(working: &Vec<u8>) -> (bytes: Vec<u8>)
    requires
        forall|i: int| 0 <= i < working@.len() ==> #[trigger] working@[i] != 0,
    ensures
        bytes@.len() == (working@.len() + 1) / 2,
        forall|i: int|
            0 <= i < working@.len() ==> #[trigger] nibble(bytes@, i) == packed_distance(
                (working@[i] - 1) as u8,
            ),
{
    let n = working.len();
    let half = n / 2 + n % 2;
    let mut bytes: Vec<u8> = Vec::new();
    let mut j: usize = 0;
    while j < half
        invariant
            n == working@.len(),
            half == (n + 1) / 2,
            j <= half,
            bytes@.len() == j,
            forall|i: int| 0 <= i < n ==> #[trigger] working@[i] != 0,
            forall|i: int|
                0 <= i < 2 * j && i < n ==> #[trigger] nibble(bytes@, i) == packed_distance(
                    (working@[i] - 1) as u8,
                ),
        decreases half - j,
    {
        let lo = pack_distance(working[2 * j] - 1);
        let hi = if 2 * j + 1 < n {
            pack_distance(working[2 * j + 1] - 1)
        } else {
            0
        };
        proof {
            lemma_two_nibbles(lo, hi);
        }
        let ghost before = bytes@;
        let byte = lo | (hi << 4u8);
        bytes.push(byte);
        proof {
            assert forall|i: int|
                0 <= i < 2 * (j + 1) && i < n implies #[trigger] nibble(bytes@, i) == packed_distance(
                (working@[i] - 1) as u8,
            ) by {
                if i == 2 * j {
                    assert(i / 2 == j && i % 2 == 0);
                    assert(bytes@[j as int] == byte);
                } else if i == 2 * j + 1 {
                    assert(i / 2 == j && i % 2 == 1);
                    assert(bytes@[j as int] == byte);
                } else {
                    assert(i / 2 < j);
                    assert(bytes@[i / 2] == before[i / 2]);
                    assert(nibble(before, i) == packed_distance((working@[i] - 1) as u8));
                }
            }
        }
        j += 1;
    }
    bytes
}

/// Every unreached state's neighbours are unreached or at distance `level`.
pub open spec fn unreached_border(table: Seq<u8>, adjacent: Seq<Vec<usize>>, level: u8) -> bool {
    forall|v: int, k: int|
        0 <= v < table.len() && table[v] == 0 && 0 <= k < adjacent[v]@.len() ==> {
            let e = table[#[trigger] adjacent[v]@[k] as int];
            e == 0 || e == level + 1
        }
}

/// Every reached state but the root has a neighbour reached one step before it.
pub open spec fn reached_by_step(table: Seq<u8>, adjacent: Seq<Vec<usize>>, root: int) -> bool {
    forall|v: int|
        0 <= v < table.len() && v != root && #[trigger] table[v] != 0 ==> table[v] >= 2
            && has_neighbor_at(table, adjacent[v]@, (table[v] - 2) as u8)
}

/// No reached state has a reached neighbour more than one step nearer the root.
pub open spec fn no_shortcut(table: Seq<u8>, adjacent: Seq<Vec<usize>>) -> bool {
    forall|v: int, k: int|
        0 <= v < table.len() && table[v] >= 2 && 0 <= k < adjacent[v]@.len() ==> {
            let e = table[#[trigger] adjacent[v]@[k] as int];
            e == 0 || e + 1 >= table[v]
        }
}

/// Breadth-first distances from `root` over `adjacent`, bottom-up, as the working table: entry
/// `d + 1` for a state first reached after `d` steps, `0` for a state never reached. The
/// search stops when a level adds no state, or after 253 levels, the most an entry holds.
pub fn bottom_up_distances(adjacent: &Vec<Vec<usize>>, root: usize) -> (table: Vec<u8>)
    requires
        root < adjacent@.len(),
        forall|v: int, k: int|
            0 <= v < adjacent@.len() && 0 <= k < adjacent@[v]@.len() ==> #[trigger] adjacent@[v]@[k]
                < adjacent@.len(),
    ensures
        table@.len() == adjacent@.len(),
        table@[root as int] == 1,
        reached_by_step(table@, adjacent@, root as int),
        no_shortcut(table@, adjacent@),
        forall|v: int, k: int|
            0 <= v < table@.len() && table@[v] == 0 && 0 <= k < adjacent@[v]@.len() ==> {
                let e = table@[#[trigger] adjacent@[v]@[k] as int];
                e == 0 || e == 254
            },
{
    let n = adjacent.len();
    let mut table: Vec<u8> = Vec::new();
    let mut i: usize = 0;
    while i < n
        invariant
            i <= n,
            table@.len() == i,
            forall|u: int| 0 <= u < i ==> #[trigger] table@[u] == 0,
        decreases n - i,
    {
        table.push(0);
        i += 1;
    }
    table.set(root, 1);
    let mut frontier: Vec<usize> = Vec::new();
    frontier.push(root);
    let mut level: u8 = 0;
    proof {
        assert(frontier@[0] == root);
    }
    while frontier.len() > 0 && level < 253
        invariant
            n == adjacent@.len(),
            table@.len() == n,
            root < n,
            level <= 253,
            forall|v: int, k: int|
                0 <= v < adjacent@.len() && 0 <= k < adjacent@[v]@.len() ==> #[trigger] adjacent@[v]@[k] < n,
            table@[root as int] == 1,
            forall|u: int| 0 <= u < n ==> #[trigger] table@[u] <= level + 1,
            forall|u: int| 0 <= u < n && #[trigger] table@[u] == level + 1 ==> frontier@.contains(u as usize),
            unreached_border(table@, adjacent@, level),
            reached_by_step(table@, adjacent@, root as int),
            no_shortcut(table@, adjacent@),
        decreases 253 - level,
    {
        let ghost before = table@;
        let next = bottom_up_level_step(&mut table, level, adjacent);
        proof {
            lemma_step_keeps_search(before, table@, adjacent@, level, root as int);
        }
        frontier = next;
        level += 1;
    }
    proof {
        if frontier@.len() == 0 {
            assert forall|v: int, k: int|
                0 <= v < table@.len() && table@[v] == 0 && 0 <= k < adjacent@[v]@.len() implies {
                let e = table@[#[trigger] adjacent@[v]@[k] as int];
                e == 0 || e == 254
            } by {
                let u = adjacent@[v]@[k] as int;
                if table@[u] == level + 1 {
                    assert(frontier@.contains(u as usize));
                }
            }
        }
    }
    table
}

proof fn lemma_step_keeps_search(
    before: Seq<u8>,
    after: Seq<u8>,
    adjacent: Seq<Vec<usize>>,
    level: u8,
    root: int,
)
    requires
        level < 253,
        before.len() == adjacent.len(),
        after.len() == before.len(),
        0 <= root < before.len(),
        forall|v: int, k: int|
            0 <= v < adjacent.len() && 0 <= k < adjacent[v]@.len() ==> #[trigger] adjacent[v]@[k]
                < adjacent.len(),
        forall|v: int| 0 <= v < before.len() ==> #[trigger] after[v] == entry_after_step(before, adjacent, level, v),
        before[root] == 1,
        forall|u: int| 0 <= u < before.len() ==> #[trigger] before[u] <= level + 1,
        unreached_border(before, adjacent, level),
        reached_by_step(before, adjacent, root),
        no_shortcut(before, adjacent),
    ensures
        after[root] == 1,
        forall|u: int| 0 <= u < after.len() ==> #[trigger] after[u] <= level + 2,
        forall|u: int| 0 <= u < after.len() && after[u] == level + 2 ==> before[u] == 0,
        unreached_border(after, adjacent, (level + 1) as u8),
        reached_by_step(after, adjacent, root),
        no_shortcut(after, adjacent),
{
    assert(after[root] == 1) by {
        assert(after[root] == entry_after_step(before, adjacent, level, root));
    }
    assert forall|u: int| 0 <= u < after.len() implies #[trigger] after[u] <= level + 2 by {
        assert(after[u] == entry_after_step(before, adjacent, level, u));
    }
    assert forall|u: int| 0 <= u < after.len() && after[u] == level + 2 implies before[u] == 0 by {
        assert(after[u] == entry_after_step(before, adjacent, level, u));
    }
    assert forall|v: int, k: int|
        0 <= v < after.len() && after[v] == 0 && 0 <= k < adjacent[v]@.len() implies {
            let e = after[#[trigger] adjacent[v]@[k] as int];
            e == 0 || e == level + 2
        } by {
        let u = adjacent[v]@[k] as int;
        assert(after[v] == entry_after_step(before, adjacent, level, v));
        assert(after[u] == entry_after_step(before, adjacent, level, u));
        assert(before[v] == 0);
        if before[u] == level + 1 {
            assert(has_neighbor_at(before, adjacent[v]@, level));
        }
    }
    assert forall|v: int|
        0 <= v < after.len() && v != root && #[trigger] after[v] != 0 implies after[v] >= 2
            && has_neighbor_at(after, adjacent[v]@, (after[v] - 2) as u8) by {
        assert(after[v] == entry_after_step(before, adjacent, level, v));
        if before[v] == 0 {
            assert(has_neighbor_at(before, adjacent[v]@, level));
            let k = choose|k: int|
                0 <= k < adjacent[v]@.len() && before[#[trigger] adjacent[v]@[k] as int] == level + 1;
            let u = adjacent[v]@[k] as int;
            assert(after[u] == entry_after_step(before, adjacent, level, u));
            assert(after[adjacent[v]@[k] as int] == level + 1);
        } else {
            assert(before[v] != 0);
            let d = (before[v] - 2) as u8;
            assert(has_neighbor_at(before, adjacent[v]@, d));
            let k = choose|k: int|
                0 <= k < adjacent[v]@.len() && before[#[trigger] adjacent[v]@[k] as int] == d + 1;
            let u = adjacent[v]@[k] as int;
            assert(after[u] == entry_after_step(before, adjacent, level, u));
            assert(after[adjacent[v]@[k] as int] == d + 1);
        }
    }
    assert forall|v: int, k: int|
        0 <= v < after.len() && after[v] >= 2 && 0 <= k < adjacent[v]@.len() implies {
            let e = after[#[trigger] adjacent[v]@[k] as int];
            e == 0 || e + 1 >= after[v]
        } by {
        let u = adjacent[v]@[k] as int;
        assert(after[v] == entry_after_step(before, adjacent, level, v));
        assert(after[u] == entry_after_step(before, adjacent, level, u));
        if before[v] == 0 {
            let e = before[adjacent[v]@[k] as int];
            assert(e == 0 || e == level + 1);
        } else {
            let e = before[adjacent[v]@[k] as int];
            assert(e == 0 || e + 1 >= before[v]);
        }
    }
}

} // verus!
