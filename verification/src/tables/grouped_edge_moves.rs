use vstd::prelude::*;

verus! {

/// Entries of the restricted move table: 495 groupings times 18 face turns and 15
/// non-trivial domino symmetries.
pub const RESTRICTED_ENTRY_COUNT: usize = 495 * 33;

/// Position, counted in 16-bit words, of the U/D edge entry `i` of the restricted move table.
/// Entries come in pairs of three words: the first entry's word, a word holding both E-slice
/// bytes, then the second entry's word.
pub fn restriction_table_index_ud(i: usize) -> (r: usize)
    requires
        i < RESTRICTED_ENTRY_COUNT,
    ensures
        r == 3 * (i as int / 2) + 2 * (i as int % 2),
{
    proof {
        assert(i >> 1 == i / 2 && i & 1 == i % 2) by (bit_vector);
    }
    3 * (i >> 1) + 2 * (i & 1)
}

/// Position, counted in bytes, of the E-slice entry `i` of the restricted move table: the
/// two bytes between a pair's U/D words, the first entry's byte second.
pub fn restriction_table_index_e(i: usize) -> (r: usize)
    requires
        i < RESTRICTED_ENTRY_COUNT,
    ensures
        r == 3 * i + if i % 2 == 0 {
            2int
        } else {
            0int
        },
{
    proof {
        assert(((!i) & 1) << 1 == if i % 2 == 0 { 2usize } else { 0usize }) by (bit_vector);
    }
    3 * i + (((!i) & 1) << 1)
}

/// The restricted move table lays out its entries without overlap: the two bytes of each U/D
/// entry and the byte of each E-slice entry are all distinct, and those of entry `i` lie in the
/// six bytes of its pair.
pub proof fn law_restricted_layout_disjoint(i: int, j: int)
    requires
        0 <= i < RESTRICTED_ENTRY_COUNT,
        0 <= j < RESTRICTED_ENTRY_COUNT,
    ensures
        ({
            let ud_i = 2 * (3 * (i / 2) + 2 * (i % 2));
            let ud_j = 2 * (3 * (j / 2) + 2 * (j % 2));
            let e_i = 3 * i + if i % 2 == 0 { 2int } else { 0int };
            let e_j = 3 * j + if j % 2 == 0 { 2int } else { 0int };
            &&& e_i != ud_j && e_i != ud_j + 1
            &&& i != j ==> ud_i != ud_j && ud_i != ud_j + 1 && ud_i + 1 != ud_j && e_i != e_j
            &&& 6 * (i / 2) <= ud_i && ud_i + 1 < 6 * (i / 2) + 6
            &&& 6 * (i / 2) <= e_i < 6 * (i / 2) + 6
        }),
{
}

/// Whether two columns hold the same entries.
fn same_column(a: &Vec<u16>, b: &Vec<u16>) -> (r: bool)
    ensures
        r == (a@ == b@),
{
    if a.len() != b.len() {
        return false;
    }
    let mut i: usize = 0;
    while i < a.len()
        invariant
            a@.len() == b@.len(),
            i <= a@.len(),
            forall|k: int| 0 <= k < i ==> a@[k] == b@[k],
        decreases a@.len() - i,
    {
        if a[i] != b[i] {
            return false;
        }
        i += 1;
    }
    assert(a@ =~= b@);
    true
}

fn copy_column(a: &Vec<u16>) -> (r: Vec<u16>)
    ensures
        r@ == a@,
{
    let mut r: Vec<u16> = Vec::new();
    let mut i: usize = 0;
    while i < a.len()
        invariant
            i <= a@.len(),
            r@ == a@.take(i as int),
        decreases a@.len() - i,
    {
        r.push(a[i]);
        i += 1;
        assert(r@ =~= a@.take(i as int));
    }
    assert(a@.take(a@.len() as int) =~= a@);
    r
}

/// Every id is 0 or one more than an earlier id: ids are handed out in order.
pub open spec fn ids_in_order(ids: Seq<usize>) -> bool {
    forall|k: int|
        0 <= k < ids.len() ==> #[trigger] ids[k] == 0 || exists|k2: int|
            0 <= k2 < k && ids[k2] + 1 == ids[k]
}

/// Every id below `n` occurs.
pub open spec fn ids_cover(ids: Seq<usize>, n: int) -> bool {
    forall|j: int| 0 <= j < n ==> #[trigger] id_used(ids, j)
}

pub open spec fn id_used(ids: Seq<usize>, j: int) -> bool {
    exists|k: int| 0 <= k < ids.len() && ids[k] == j
}

proof fn lemma_push_id(ids: Seq<usize>, n: int, j: usize)
    requires
        ids_in_order(ids),
        ids_cover(ids, n),
        0 <= j <= n,
    ensures
        ids_in_order(ids.push(j)),
        ids_cover(ids.push(j), if j == n { n + 1 } else { n }),
{
    let p = ids.push(j);
    assert forall|k: int| 0 <= k < p.len() implies #[trigger] p[k] == 0 || exists|k2: int|
        0 <= k2 < k && p[k2] + 1 == p[k] by {
        if k < ids.len() {
            assert(p[k] == ids[k]);
            if ids[k] != 0 {
                let k2 = choose|k2: int| 0 <= k2 < k && ids[k2] + 1 == ids[k];
                assert(p[k2] == ids[k2]);
            }
        } else if j != 0 {
            assert(id_used(ids, j - 1));
            let k2 = choose|k2: int| 0 <= k2 < ids.len() && ids[k2] == j - 1;
            assert(p[k2] == ids[k2]);
        }
    }
    let m = if j == n { n + 1 } else { n };
    assert forall|jj: int| 0 <= jj < m implies #[trigger] id_used(p, jj) by {
        if jj == j {
            assert(p[ids.len() as int] == j);
        } else {
            assert(id_used(ids, jj));
            let k = choose|k: int| 0 <= k < ids.len() && ids[k] == jj;
            assert(p[k] == ids[k]);
        }
    }
}

/// The distinct move-table columns, in the order they first occur, and for each column the
/// number of its distinct column: the first new column gets 0, each later new one the next
/// number.
pub fn unique_columns(cols: &Vec<Vec<u16>>) -> (r: (Vec<Vec<u16>>, Vec<usize>))
    ensures
        r.1@.len() == cols@.len(),
        forall|i: int|
            0 <= i < cols@.len() ==> #[trigger] r.1@[i] < r.0@.len() && r.0@[r.1@[i] as int]@
                == cols@[i]@,
        forall|a: int, b: int| 0 <= a < b < r.0@.len() ==> r.0@[a]@ != r.0@[b]@,
        ids_in_order(r.1@),
        ids_cover(r.1@, r.0@.len() as int),
{
    let mut unique: Vec<Vec<u16>> = Vec::new();
    let mut ids: Vec<usize> = Vec::new();
    let mut i: usize = 0;
    while i < cols.len()
        invariant
            i <= cols@.len(),
            ids@.len() == i,
            unique@.len() <= i,
            forall|k: int|
                0 <= k < i ==> #[trigger] ids@[k] < unique@.len() && unique@[ids@[k] as int]@
                    == cols@[k]@,
            forall|a: int, b: int| 0 <= a < b < unique@.len() ==> unique@[a]@ != unique@[b]@,
            ids_in_order(ids@),
            ids_cover(ids@, unique@.len() as int),
        decreases cols@.len() - i,
    {
        let col = &cols[i];
        let mut j: usize = 0;
        let mut found = false;
        while j < unique.len()
            invariant_except_break
                !found,
            invariant
                j <= unique@.len(),
                i < cols@.len(),
                col@ == cols@[i as int]@,
                forall|a: int| 0 <= a < j ==> unique@[a]@ != col@,
            ensures
                found ==> j < unique@.len() && unique@[j as int]@ == col@,
                !found ==> forall|a: int| 0 <= a < unique@.len() ==> unique@[a]@ != col@,
            decreases unique@.len() - j,
        {
            if same_column(&unique[j], col) {
                found = true;
                break;
            }
            j += 1;
        }
        let ghost ids_before = ids@;
        let ghost unique_before = unique@;
        if found {
            proof {
                lemma_push_id(ids_before, unique_before.len() as int, j);
            }
            ids.push(j);
            proof {
                assert forall|k: int| 0 <= k < i + 1 implies #[trigger] ids@[k] < unique@.len()
                    && unique@[ids@[k] as int]@ == cols@[k]@ by {
                    if k < i {
                        assert(ids@[k] == ids_before[k]);
                    }
                }
            }
        } else {
            let m = unique.len();
            proof {
                lemma_push_id(ids_before, unique_before.len() as int, m);
            }
            let copy = copy_column(col);
            unique.push(copy);
            ids.push(m);
            proof {
                assert(unique@[m as int]@ == cols@[i as int]@);
                assert forall|k: int| 0 <= k < i + 1 implies #[trigger] ids@[k] < unique@.len()
                    && unique@[ids@[k] as int]@ == cols@[k]@ by {
                    if k < i {
                        assert(ids@[k] == ids_before[k]);
                        assert(unique@[ids@[k] as int] == unique_before[ids_before[k] as int]);
                    }
                }
                assert forall|a: int, b: int| 0 <= a < b < unique@.len() implies unique@[a]@
                    != unique@[b]@ by {
                    assert(unique@[a] == unique_before[a]);
                    if b < m {
                        assert(unique@[b] == unique_before[b]);
                    }
                }
            }
        }
        i += 1;
    }
    (unique, ids)
}
} // verus!
