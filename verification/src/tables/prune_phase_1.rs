use vstd::prelude::*;
use crate::cube_ops::phase_1_repr::Phase1InitRepr;

verus! {

/// Entry `i` of a table of 2-bit values, four to a byte, the lowest bits first. In the
/// working table `0` marks an unreached state and `d % 3 + 1` a state first reached at
/// distance `d`.
pub open spec fn entry(bytes: Seq<u8>, i: int) -> u8 {
    (bytes[i / 4] >> ((2 * (i % 4)) as u8)) & 3u8
}

/// The entry a state first reached at distance `val` gets.
pub open spec fn mark(val: u8) -> u8 {
    (val % 3 + 1) as u8
}

/// The marks of consecutive distances follow the cycle 1, 2, 3: each is the distance modulo 3
/// plus one, so a mark less one is the distance modulo 3, and the mark after `d` is the next
/// one in the cycle.
pub proof fn law_mark_cycle(d: u8)
    ensures
        1 <= mark(d) <= 3,
        mark(d) - 1 == d % 3,
        d < 255 ==> mark((d + 1) as u8) == mark(d) % 3 + 1,
{
}

proof fn lemma_set_slot(b: u8, s: u8, t: u8, bits: u8)
    requires
        s < 8,
        t < 8,
        s % 2 == 0,
        t % 2 == 0,
        bits < 4,
        (b >> s) & 3u8 == 0,
    ensures
        ((b | (bits << s)) >> s) & 3u8 == bits,
        s != t ==> ((b | (bits << s)) >> t) & 3u8 == (b >> t) & 3u8,
{
    assert(((b | (bits << s)) >> s) & 3u8 == bits) by (bit_vector)
        requires
            s < 8,
            s % 2 == 0,
            bits < 4,
            (b >> s) & 3u8 == 0,
    ;
    assert(s != t ==> ((b | (bits << s)) >> t) & 3u8 == (b >> t) & 3u8) by (bit_vector)
        requires
            s < 8,
            t < 8,
            s % 2 == 0,
            t % 2 == 0,
            bits < 4,
    ;
}

/// Whether entry `i` of the working table marks a reached state.
pub fn visited_index(table: &Vec<u8>, i: usize) -> (r: bool)
    requires
        i / 4 < table@.len(),
    ensures
        r == (entry(table@, i as int) != 0),
{
    let shift = (2 * (i % 4)) as u8;
    (table[i / 4] >> shift) & 3u8 != 0
}

/// Marks entry `i` as reached at distance `val` if it is still unreached; returns whether
/// it was.
pub fn write_index(table: &mut Vec<u8>, i: usize, val: u8) -> (r: bool)
    requires
        i / 4 < old(table)@.len(),
    ensures
        final(table)@.len() == old(table)@.len(),
        r == (entry(old(table)@, i as int) == 0),
        r ==> entry(final(table)@, i as int) == val % 3 + 1,
        entry(final(table)@, i as int) == if r {
            mark(val)
        } else {
            entry(old(table)@, i as int)
        },
        forall|j: int|
            0 <= j < 4 * old(table)@.len() && j != i ==> #[trigger] entry(final(table)@, j) == entry(
                old(table)@,
                j,
            ),
{
    let byte_index = i / 4;
    let shift = (2 * (i % 4)) as u8;
    let byte = table[byte_index];
    if (byte >> shift) & 3u8 != 0 {
        return false;
    }
    let bits = val % 3 + 1;
    let ghost before = table@;
    table.set(byte_index, byte | (bits << shift));
    proof {
        assert forall|j: int|
            0 <= j < 4 * before.len() && j != i implies #[trigger] entry(table@, j) == entry(before, j) by {
            if j / 4 == i / 4 {
                let t = (2 * (j % 4)) as u8;
                lemma_set_slot(byte, shift, t, bits);
            }
        }
        lemma_set_slot(byte, shift, shift, bits);
    }
    true
}

/// `i` is one of the first `kk` neighbours of frontier state `f`, or a neighbour of a frontier
/// state before `f`.
pub open spec fn listed_before(
    frontier: Seq<usize>,
    adjacent: Seq<Vec<usize>>,
    f: int,
    kk: int,
    i: int,
) -> bool {
    exists|a: int, k: int|
        0 <= a <= f && a < frontier.len() && 0 <= k < adjacent[frontier[a] as int]@.len() && (a < f
            || k < kk) && #[trigger] adjacent[frontier[a] as int]@[k] == i
}

/// `i` is a neighbour of a frontier state.
pub open spec fn frontier_neighbor(frontier: Seq<usize>, adjacent: Seq<Vec<usize>>, i: int) -> bool {
    listed_before(frontier, adjacent, frontier.len() as int, 0, i)
}

/// One top-down breadth-first step over the working table: every unreached neighbour (in
/// `adjacent`) of a state of `frontier` is marked as reached at distance `level + 1`.
/// Returns the newly reached states, each once.
pub fn top_down_level_step(
    table: &mut Vec<u8>,
    level: u8,
    frontier: &Vec<usize>,
    adjacent: &Vec<Vec<usize>>,
) -> (next: Vec<usize>)
    requires
        level < 255,
        forall|a: int| 0 <= a < frontier@.len() ==> #[trigger] frontier@[a] < adjacent@.len(),
        forall|v: int, k: int|
            0 <= v < adjacent@.len() && 0 <= k < adjacent@[v]@.len() ==> #[trigger] adjacent@[v]@[k] / 4
                < old(table)@.len(),
    ensures
        final(table)@.len() == old(table)@.len(),
        forall|i: int|
            0 <= i < 4 * old(table)@.len() ==> #[trigger] entry(final(table)@, i) == if entry(old(table)@, i)
                == 0 && frontier_neighbor(frontier@, adjacent@, i) {
                mark((level + 1) as u8)
            } else {
                entry(old(table)@, i)
            },
        forall|a: int, b: int| 0 <= a < b < next@.len() ==> next@[a] != next@[b],
        forall|k: int|
            0 <= k < next@.len() ==> entry(old(table)@, #[trigger] next@[k] as int) == 0
                && frontier_neighbor(frontier@, adjacent@, next@[k] as int),
        forall|i: int|
            0 <= i < 4 * old(table)@.len() && entry(old(table)@, i) == 0 && frontier_neighbor(
                frontier@,
                adjacent@,
                i,
            ) ==> next@.contains(i as usize),
{
    let ghost start = table@;
    let ghost w = mark((level + 1) as u8);
    let mut next: Vec<usize> = Vec::new();
    let mut f: usize = 0;
    while f < frontier.len()
        invariant
            table@.len() == start.len(),
            f <= frontier@.len(),
            level < 255,
            w == mark((level + 1) as u8),
            forall|a: int| 0 <= a < frontier@.len() ==> #[trigger] frontier@[a] < adjacent@.len(),
            forall|v: int, k: int|
                0 <= v < adjacent@.len() && 0 <= k < adjacent@[v]@.len() ==> #[trigger] adjacent@[v]@[k] / 4
                    < start.len(),
            forall|i: int|
                0 <= i < 4 * start.len() ==> #[trigger] entry(table@, i) == if entry(start, i) == 0
                    && listed_before(frontier@, adjacent@, f as int, 0, i) {
                    w
                } else {
                    entry(start, i)
                },
            forall|a: int, b: int| 0 <= a < b < next@.len() ==> next@[a] != next@[b],
            forall|k: int|
                0 <= k < next@.len() ==> entry(start, #[trigger] next@[k] as int) == 0 && listed_before(
                    frontier@,
                    adjacent@,
                    f as int,
                    0,
                    next@[k] as int,
                ),
            forall|i: int|
                0 <= i < 4 * start.len() && entry(start, i) == 0 && listed_before(
                    frontier@,
                    adjacent@,
                    f as int,
                    0,
                    i,
                ) ==> next@.contains(i as usize),
        decreases frontier@.len() - f,
    {
        let v = frontier[f];
        let neighbors = &adjacent[v];
        let mut kk: usize = 0;
        proof {
            assert forall|i: int|
                listed_before(frontier@, adjacent@, f as int, 0, i) == listed_before(
                    frontier@,
                    adjacent@,
                    f as int,
                    kk as int,
                    i,
                ) by {
                if listed_before(frontier@, adjacent@, f as int, 0, i) {
                    let (a, k) = choose|a: int, k: int|
                        0 <= a <= f && a < frontier@.len() && 0 <= k < adjacent@[frontier@[a] as int]@.len()
                            && (a < f || k < 0) && #[trigger] adjacent@[frontier@[a] as int]@[k] == i;
                    assert(adjacent@[frontier@[a] as int]@[k] == i);
                }
                if listed_before(frontier@, adjacent@, f as int, kk as int, i) {
                    let (a, k) = choose|a: int, k: int|
                        0 <= a <= f && a < frontier@.len() && 0 <= k < adjacent@[frontier@[a] as int]@.len()
                            && (a < f || k < kk) && #[trigger] adjacent@[frontier@[a] as int]@[k] == i;
                    assert(adjacent@[frontier@[a] as int]@[k] == i);
                }
            }
        }
        while kk < neighbors.len()
            invariant
                table@.len() == start.len(),
                f < frontier@.len(),
                v == frontier@[f as int],
                neighbors@ == adjacent@[v as int]@,
                kk <= neighbors@.len(),
                level < 255,
                w == mark((level + 1) as u8),
                forall|a: int| 0 <= a < frontier@.len() ==> #[trigger] frontier@[a] < adjacent@.len(),
                forall|u: int, k: int|
                    0 <= u < adjacent@.len() && 0 <= k < adjacent@[u]@.len() ==> #[trigger] adjacent@[u]@[k] / 4
                        < start.len(),
                forall|i: int|
                    0 <= i < 4 * start.len() ==> #[trigger] entry(table@, i) == if entry(start, i) == 0
                        && listed_before(frontier@, adjacent@, f as int, kk as int, i) {
                        w
                    } else {
                        entry(start, i)
                    },
                forall|a: int, b: int| 0 <= a < b < next@.len() ==> next@[a] != next@[b],
                forall|k: int|
                    0 <= k < next@.len() ==> entry(start, #[trigger] next@[k] as int) == 0
                        && listed_before(frontier@, adjacent@, f as int, kk as int, next@[k] as int),
                forall|i: int|
                    0 <= i < 4 * start.len() && entry(start, i) == 0 && listed_before(
                        frontier@,
                        adjacent@,
                        f as int,
                        kk as int,
                        i,
                    ) ==> next@.contains(i as usize),
            decreases neighbors@.len() - kk,
        {
            let nbr = neighbors[kk];
            let ghost before = table@;
            let ghost next_before = next@;
            proof {
                assert(adjacent@[v as int]@[kk as int] == nbr);
            }
            let written = write_index(table, nbr, level + 1);
            if written {
                next.push(nbr);
            }
            proof {
                let x = nbr as int;
                assert(adjacent@[frontier@[f as int] as int]@[kk as int] == x);
                assert forall|i: int|
                    listed_before(frontier@, adjacent@, f as int, (kk + 1) as int, i) == (listed_before(
                        frontier@,
                        adjacent@,
                        f as int,
                        kk as int,
                        i,
                    ) || i == x) by {
                    if listed_before(frontier@, adjacent@, f as int, (kk + 1) as int, i) {
                        let (a, k) = choose|a: int, k: int|
                            0 <= a <= f && a < frontier@.len() && 0 <= k < adjacent@[frontier@[a] as int]@.len()
                                && (a < f || k < kk + 1) && #[trigger] adjacent@[frontier@[a] as int]@[k] == i;
                        assert(adjacent@[frontier@[a] as int]@[k] == i);
                    }
                    if listed_before(frontier@, adjacent@, f as int, kk as int, i) {
                        let (a, k) = choose|a: int, k: int|
                            0 <= a <= f && a < frontier@.len() && 0 <= k < adjacent@[frontier@[a] as int]@.len()
                                && (a < f || k < kk) && #[trigger] adjacent@[frontier@[a] as int]@[k] == i;
                        assert(adjacent@[frontier@[a] as int]@[k] == i);
                    }
                }
                assert(x / 4 < start.len());
                assert(0 <= x < 4 * start.len());
                assert(entry(before, x) == if entry(start, x) == 0 && listed_before(
                    frontier@,
                    adjacent@,
                    f as int,
                    kk as int,
                    x,
                ) {
                    w
                } else {
                    entry(start, x)
                });
                assert(w != 0);
                if written {
                    assert(entry(start, x) == 0);
                    assert(!listed_before(frontier@, adjacent@, f as int, kk as int, x));
                    assert forall|k: int| 0 <= k < next_before.len() implies next_before[k] != nbr by {
                        assert(listed_before(frontier@, adjacent@, f as int, kk as int, next_before[k] as int));
                    }
                    assert(next@[next@.len() - 1] == nbr);
                }
                assert forall|i: int|
                    0 <= i < 4 * start.len() && entry(start, i) == 0 && listed_before(
                        frontier@,
                        adjacent@,
                        f as int,
                        (kk + 1) as int,
                        i,
                    ) implies next@.contains(i as usize) by {
                    if i == x && !listed_before(frontier@, adjacent@, f as int, kk as int, i) {
                        assert(written);
                        assert(next@[next@.len() - 1] == nbr);
                    } else {
                        assert(next_before.contains(i as usize));
                        let j = choose|j: int| 0 <= j < next_before.len() && next_before[j] == i as usize;
                        assert(next@[j] == i as usize);
                    }
                }
                assert forall|i: int| 0 <= i < 4 * start.len() implies #[trigger] entry(table@, i) == if entry(
                    start,
                    i,
                ) == 0 && listed_before(frontier@, adjacent@, f as int, (kk + 1) as int, i) {
                    w
                } else {
                    entry(start, i)
                } by {
                    if i != x {
                        assert(entry(table@, i) == entry(before, i));
                        assert(entry(before, i) == if entry(start, i) == 0 && listed_before(
                            frontier@,
                            adjacent@,
                            f as int,
                            kk as int,
                            i,
                        ) {
                            w
                        } else {
                            entry(start, i)
                        });
                    }
                }
            }
            kk += 1;
        }
        proof {
            assert forall|i: int|
                listed_before(frontier@, adjacent@, f as int, kk as int, i) == listed_before(
                    frontier@,
                    adjacent@,
                    (f + 1) as int,
                    0,
                    i,
                ) by {
                if listed_before(frontier@, adjacent@, f as int, kk as int, i) {
                    let (a, k) = choose|a: int, k: int|
                        0 <= a <= f && a < frontier@.len() && 0 <= k < adjacent@[frontier@[a] as int]@.len()
                            && (a < f || k < kk) && #[trigger] adjacent@[frontier@[a] as int]@[k] == i;
                    assert(adjacent@[frontier@[a] as int]@[k] == i);
                }
                if listed_before(frontier@, adjacent@, (f + 1) as int, 0, i) {
                    let (a, k) = choose|a: int, k: int|
                        0 <= a <= f + 1 && a < frontier@.len() && 0 <= k < adjacent@[frontier@[a] as int]@.len()
                            && (a < f + 1 || k < 0) && #[trigger] adjacent@[frontier@[a] as int]@[k] == i;
                    assert(adjacent@[frontier@[a] as int]@[k] == i);
                }
            }
        }
        f += 1;
    }
    next
}

/// The phase 1 pruning table: the distance of each state modulo 3, in 2-bit entries.
pub struct PrunePhase1Table(pub Vec<u8>);

impl PrunePhase1Table {
    /// The distance modulo 3 of the state `coords`.
    pub fn get_value(&self, coords: Phase1InitRepr) -> (r: u8)
        requires
            coords.into_index_spec() / 4 < self.0@.len(),
            entry(self.0@, coords.into_index_spec()) != 0,
        ensures
            r == entry(self.0@, coords.into_index_spec()) - 1,
    {
        let i = coords.into_index();
        let shift = (2 * (i % 4)) as u8;
        ((self.0[i / 4] >> shift) & 3u8) - 1
    }
}

/// `v` is a neighbour of a state at most `d` steps from `root`.
pub open spec fn step_from(adjacent: Seq<Vec<usize>>, root: int, v: int, d: nat) -> bool
    decreases d, 1nat,
{
    exists|u: int, k: int|
        #![trigger adjacent[u]@[k]]
        0 <= u < adjacent.len() && 0 <= k < adjacent[u]@.len() && adjacent[u]@[k] == v && within(
            adjacent,
            root,
            u,
            d,
        )
}

/// `v` is at most `d` steps from `root`, a step going from a state `u` to one of its
/// neighbours `adjacent[u]`.
pub open spec fn within(adjacent: Seq<Vec<usize>>, root: int, v: int, d: nat) -> bool
    decreases d, 0nat,
{
    if d == 0 {
        v == root
    } else {
        within(adjacent, root, v, (d - 1) as nat) || step_from(adjacent, root, v, (d - 1) as nat)
    }
}

/// `v` is exactly `d` steps from `root`: its breadth-first distance is `d`.
pub open spec fn at_distance(adjacent: Seq<Vec<usize>>, root: int, v: int, d: nat) -> bool {
    within(adjacent, root, v, d) && (d == 0 || !within(adjacent, root, v, (d - 1) as nat))
}

proof fn lemma_within_monotone(adjacent: Seq<Vec<usize>>, root: int, v: int, d: nat, e: nat)
    requires
        d <= e,
        within(adjacent, root, v, d),
    ensures
        within(adjacent, root, v, e),
    decreases e,
{
    if d < e {
        lemma_within_monotone(adjacent, root, v, d, (e - 1) as nat);
    }
}

/// A state within `d + 1` steps is within `d` steps or a neighbour of a state exactly `d`
/// steps away, and conversely.
proof fn lemma_within_step(adjacent: Seq<Vec<usize>>, root: int, v: int, d: nat)
    ensures
        within(adjacent, root, v, d + 1) == (within(adjacent, root, v, d) || exists|u: int, k: int|
            #![trigger adjacent[u]@[k], at_distance(adjacent, root, u, d)]
            0 <= u < adjacent.len() && 0 <= k < adjacent[u]@.len() && adjacent[u]@[k] == v
                && at_distance(adjacent, root, u, d)),
{
    assert(within(adjacent, root, v, d + 1) == (within(adjacent, root, v, d) || step_from(
        adjacent,
        root,
        v,
        d,
    )));
    if step_from(adjacent, root, v, d) && !within(adjacent, root, v, d) {
        let (u, k) = choose|u: int, k: int|
            #![trigger adjacent[u]@[k]]
            0 <= u < adjacent.len() && 0 <= k < adjacent[u]@.len() && adjacent[u]@[k] == v
                && within(adjacent, root, u, d);
        if d > 0 && within(adjacent, root, u, (d - 1) as nat) {
            assert(adjacent[u]@[k] == v && within(adjacent, root, u, (d - 1) as nat));
            assert(step_from(adjacent, root, v, (d - 1) as nat));
            assert(within(adjacent, root, v, d));
        }
        assert(at_distance(adjacent, root, u, d));
    }
    if exists|u: int, k: int|
        #![trigger adjacent[u]@[k], at_distance(adjacent, root, u, d)]
        0 <= u < adjacent.len() && 0 <= k < adjacent[u]@.len() && adjacent[u]@[k] == v
            && at_distance(adjacent, root, u, d) {
        let (u, k) = choose|u: int, k: int|
            #![trigger adjacent[u]@[k], at_distance(adjacent, root, u, d)]
            0 <= u < adjacent.len() && 0 <= k < adjacent[u]@.len() && adjacent[u]@[k] == v
                && at_distance(adjacent, root, u, d);
        assert(adjacent[u]@[k] == v && within(adjacent, root, u, d));
        assert(step_from(adjacent, root, v, d));
    }
}

/// When no state is exactly `d` steps away, no state is further away than `d` steps.
proof fn lemma_within_stable(adjacent: Seq<Vec<usize>>, root: int, v: int, d: nat, e: nat)
    requires
        forall|u: int| 0 <= u < adjacent.len() ==> !#[trigger] at_distance(adjacent, root, u, d),
        within(adjacent, root, v, e),
    ensures
        within(adjacent, root, v, d),
    decreases e,
{
    if e <= d {
        lemma_within_monotone(adjacent, root, v, e, d);
    } else {
        let e1 = (e - 1) as nat;
        assert(within(adjacent, root, v, e) == (within(adjacent, root, v, e1) || step_from(
            adjacent,
            root,
            v,
            e1,
        )));
        if within(adjacent, root, v, e1) {
            lemma_within_stable(adjacent, root, v, d, e1);
        } else {
            let (u, k) = choose|u: int, k: int|
                #![trigger adjacent[u]@[k]]
                0 <= u < adjacent.len() && 0 <= k < adjacent[u]@.len() && adjacent[u]@[k] == v
                    && within(adjacent, root, u, e1);
            lemma_within_stable(adjacent, root, u, d, e1);
            assert(!at_distance(adjacent, root, u, d));
            assert(d > 0 && within(adjacent, root, u, (d - 1) as nat));
            assert(adjacent[u]@[k] == v && within(adjacent, root, u, (d - 1) as nat));
            assert(step_from(adjacent, root, v, (d - 1) as nat));
            assert(within(adjacent, root, v, d));
        }
    }
}

/// Breadth-first distances modulo 3 from `root` over `adjacent`, top-down, in 2-bit entries:
/// a state exactly `d` steps from `root` gets `d % 3 + 1`, a state further than the levels
/// searched gets `0`. Returns the table and the number of levels searched; the search stops
/// when a level adds no state, and then every entry of an unreachable state is `0`, or after
/// 254 levels.
pub fn top_down_distances(adjacent: &Vec<Vec<usize>>, root: usize) -> (r: (Vec<u8>, u8))
    requires
        root < adjacent@.len(),
        forall|v: int, k: int|
            0 <= v < adjacent@.len() && 0 <= k < adjacent@[v]@.len() ==> #[trigger] adjacent@[v]@[k]
                < adjacent@.len(),
    ensures
        r.0@.len() == adjacent@.len() / 4 + 1,
        r.1 <= 254,
        forall|v: int, d: nat|
            0 <= v < adjacent@.len() && d <= r.1 && #[trigger] at_distance(adjacent@, root as int, v, d)
                ==> entry(r.0@, v) == mark(d as u8) && entry(r.0@, v) == d % 3 + 1,
        forall|v: int|
            0 <= v < adjacent@.len() && !within(adjacent@, root as int, v, r.1 as nat) ==> #[trigger] entry(
                r.0@,
                v,
            ) == 0,
        r.1 < 254 ==> forall|v: int, d: nat|
            0 <= v < adjacent@.len() && #[trigger] within(adjacent@, root as int, v, d) ==> within(
                adjacent@,
                root as int,
                v,
                r.1 as nat,
            ),
{
    let len = adjacent.len();
    let n = len / 4 + 1;
    let mut table: Vec<u8> = Vec::new();
    let mut i: usize = 0;
    while i < n
        invariant
            i <= n,
            table@.len() == i,
            forall|u: int| 0 <= u < i ==> #[trigger] table@[u] == 0,
        decreases n - i,
    {
        table.push(0);
        i += 1;
    }
    proof {
        assert forall|u: int| 0 <= u < 4 * n implies #[trigger] entry(table@, u) == 0 by {
            let b = table@[u / 4];
            let s = (2 * (u % 4)) as u8;
            assert(b == 0);
            assert((0u8 >> s) & 3u8 == 0) by (bit_vector);
        }
    }
    write_index(&mut table, root, 0);
    let mut frontier: Vec<usize> = Vec::new();
    frontier.push(root);
    let mut level: u8 = 0;
    let ghost adj = adjacent@;
    let ghost rt = root as int;
    proof {
        assert(frontier@[0] == root);
        assert(mark(0) == 1);
        assert forall|v: int| 0 <= v < len implies (#[trigger] entry(table@, v) != 0) == within(adj, rt, v, 0) by {}
        assert forall|v: int| 0 <= v < len && #[trigger] at_distance(adj, rt, v, 0) implies frontier@.contains(
            v as usize,
        ) by {
            assert(frontier@[0] == v as usize);
        }
    }
    while frontier.len() > 0 && level < 254
        invariant
            table@.len() == n,
            n == adjacent@.len() / 4 + 1,
            len == adjacent@.len(),
            adj == adjacent@,
            rt == root as int,
            root < adjacent@.len(),
            level <= 254,
            forall|v: int, k: int|
                0 <= v < adjacent@.len() && 0 <= k < adjacent@[v]@.len() ==> #[trigger] adjacent@[v]@[k]
                    < adjacent@.len(),
            forall|a: int|
                0 <= a < frontier@.len() ==> #[trigger] frontier@[a] < len && at_distance(
                    adj,
                    rt,
                    frontier@[a] as int,
                    level as nat,
                ),
            forall|v: int|
                0 <= v < len && #[trigger] at_distance(adj, rt, v, level as nat) ==> frontier@.contains(
                    v as usize,
                ),
            forall|v: int| 0 <= v < len ==> (#[trigger] entry(table@, v) != 0) == within(adj, rt, v, level as nat),
            forall|v: int, d: nat|
                0 <= v < len && d <= level && #[trigger] at_distance(adj, rt, v, d) ==> entry(table@, v)
                    == mark(d as u8),
        decreases 254 - level,
    {
        let ghost before = table@;
        let ghost old_frontier = frontier@;
        let ghost l = level as nat;
        proof {
            assert forall|v: int, k: int|
                0 <= v < adjacent@.len() && 0 <= k < adjacent@[v]@.len() implies #[trigger] adjacent@[v]@[k]
                    / 4 < table@.len() by {
                assert(adjacent@[v]@[k] < adjacent@.len());
            }
        }
        let next = top_down_level_step(&mut table, level, &frontier, adjacent);
        proof {
            assert forall|v: int| 0 <= v < len implies within(adj, rt, v, l + 1) == (within(adj, rt, v, l)
                || frontier_neighbor(old_frontier, adj, v)) by {
                lemma_within_step(adj, rt, v, l);
                if frontier_neighbor(old_frontier, adj, v) {
                    let (a, k) = choose|a: int, k: int|
                        0 <= a <= old_frontier.len() && a < old_frontier.len() && 0 <= k
                            < adj[old_frontier[a] as int]@.len() && (a < old_frontier.len() || k < 0)
                            && #[trigger] adj[old_frontier[a] as int]@[k] == v;
                    let u = old_frontier[a] as int;
                    assert(at_distance(adj, rt, u, l));
                    assert(adj[u]@[k] == v);
                }
                if !within(adj, rt, v, l) && within(adj, rt, v, l + 1) {
                    let (u, k) = choose|u: int, k: int|
                        #![trigger adj[u]@[k], at_distance(adj, rt, u, l)]
                        0 <= u < adj.len() && 0 <= k < adj[u]@.len() && adj[u]@[k] == v
                            && at_distance(adj, rt, u, l);
                    assert(old_frontier.contains(u as usize));
                    let a = choose|a: int| 0 <= a < old_frontier.len() && old_frontier[a] == u as usize;
                    assert(old_frontier[a] as int == u);
                    assert(adj[old_frontier[a] as int]@[k] == v);
                    assert(listed_before(old_frontier, adj, old_frontier.len() as int, 0, v));
                }
            }
            assert forall|v: int| 0 <= v < len implies (#[trigger] entry(table@, v) != 0) == within(
                adj,
                rt,
                v,
                l + 1,
            ) by {
                assert(v < 4 * before.len());
                assert(mark((level + 1) as u8) != 0);
            }
            assert forall|v: int, d: nat|
                0 <= v < len && d <= l + 1 && #[trigger] at_distance(adj, rt, v, d) implies entry(table@, v)
                    == mark(d as u8) by {
                assert(v < 4 * before.len());
                if d <= l {
                    lemma_within_monotone(adj, rt, v, d, l);
                    assert(entry(before, v) != 0);
                } else {
                    assert(!within(adj, rt, v, l));
                    assert(entry(before, v) == 0);
                }
            }
            assert forall|a: int|
                0 <= a < next@.len() implies #[trigger] next@[a] < len && at_distance(
                adj,
                rt,
                next@[a] as int,
                l + 1,
            ) by {
                let x = next@[a] as int;
                let (f, k) = choose|f: int, k: int|
                    0 <= f <= old_frontier.len() && f < old_frontier.len() && 0 <= k
                        < adj[old_frontier[f] as int]@.len() && (f < old_frontier.len() || k < 0)
                        && #[trigger] adj[old_frontier[f] as int]@[k] == x;
                assert(adj[old_frontier[f] as int]@[k] < len);
                assert(x < 4 * before.len());
                assert(entry(before, x) == 0);
            }
            assert forall|v: int|
                0 <= v < len && #[trigger] at_distance(adj, rt, v, l + 1) implies next@.contains(v as usize) by {
                assert(v < 4 * before.len());
                assert(entry(before, v) == 0);
            }
        }
        frontier = next;
        level += 1;
    }
    proof {
        if level < 254 {
            assert(frontier@.len() == 0);
            assert forall|u: int| 0 <= u < adj.len() implies !#[trigger] at_distance(adj, rt, u, level as nat) by {
                if at_distance(adj, rt, u, level as nat) {
                    assert(frontier@.contains(u as usize));
                }
            }
            assert forall|v: int, d: nat|
                0 <= v < adj.len() && #[trigger] within(adj, rt, v, d) implies within(adj, rt, v, level as nat) by {
                lemma_within_stable(adj, rt, v, level as nat, d);
            }
        }
    }
    (table, level)
}
} // verus!
