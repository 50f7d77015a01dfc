use vstd::prelude::*;
use crate::permutation_math::grouping::{combo_greedy, combo_rank, count_true, EdgeCombination};
use crate::permutation_math::lehmer_rank::{factorial, lehmer_rank, lemma_swap_front, swap_front};
use crate::permutation_math::permutation::{is_odd_seq, is_permutation, Permutation};

verus! {

/// The parity code of an arrangement: its Lehmer rank with the lowest bit replaced by its
/// parity.
pub open spec fn parity_code(s: Seq<u8>, n: int) -> int {
    2 * (lehmer_rank(s, n) / 2) + if is_odd_seq(s) {
        1int
    } else {
        0int
    }
}

/// Exchanging the first two slots of a permutation leaves a permutation.
proof fn lemma_swap_front_permutation(s: Seq<u8>)
    requires
        is_permutation(s),
        s.len() >= 2,
    ensures
        is_permutation(swap_front(s)),
        s[0] != s[1],
{
    let q = swap_front(s);
    assert forall|i: int, j: int| 0 <= i < s.len() && 0 <= j < s.len() && i != j implies #[trigger] q[i] != #[trigger] q[j] by {
        let si = if i == 0 { 1 } else if i == 1 { 0 } else { i };
        let sj = if j == 0 { 1 } else if j == 1 { 0 } else { j };
        assert(q[i] == s[si]);
        assert(q[j] == s[sj]);
    }
    assert forall|i: int| 0 <= i < s.len() implies (#[trigger] q[i] as int) < s.len() by {
        let si = if i == 0 { 1 } else if i == 1 { 0 } else { i };
        assert(q[i] == s[si]);
    }
}

/// The Lehmer rank of an arrangement of `0..12` (any array: each slot counts the earlier
/// slots holding a larger value, weighted by the factorial of its index).
pub fn permutation_coord_12(perm: &[u8; 12]) -> (r: u32)
    ensures
        r == lehmer_rank(perm@, 12),
        r < factorial(12),
{
    Permutation(*perm).const_into_coord()
}

/// The arrangement of `0..12` of Lehmer rank `coord`.
pub fn permutation_coord_12_inverse(coord: u32) -> (r: [u8; 12])
    requires
        coord < factorial(12),
    ensures
        is_permutation(r@),
        lehmer_rank(r@, 12) == coord,
{
    Permutation::<12>::const_from_coord(coord).0
}

/// The rank with its lowest bit replaced by the parity of the arrangement: even arrangements
/// get even codes, odd ones odd codes.
pub fn permutation_coord_12_parity(perm: &[u8; 12]) -> (r: u32)
    ensures
        r == parity_code(perm@, 12),
{
    let mut r = permutation_coord_12(perm);
    let odd = is_odd(perm);
    proof {
        let x = r;
        assert(x & 1 == 1 <==> x % 2 == 1) by (bit_vector);
        assert(x % 2 == 0 ==> x ^ 1 == x + 1) by (bit_vector);
        assert(x % 2 == 1 ==> x ^ 1 == x - 1) by (bit_vector);
    }
    if (r & 1 == 1) != odd {
        r ^= 1;
    }
    r
}

/// The arrangement whose parity code is `code`: of the two arrangements of rank `code` and
/// `code ^ 1` (which differ by exchanging the first two slots), the one whose parity matches
/// the lowest bit of `code`.
pub fn permutation_coord_12_parity_inverse(code: u32) -> (r: [u8; 12])
    requires
        code < factorial(12),
    ensures
        is_permutation(r@),
        lehmer_rank(r@, 12) / 2 == code / 2,
        is_odd_seq(r@) == (code % 2 == 1),
        parity_code(r@, 12) == code,
{
    let mut p = permutation_coord_12_inverse(code);
    proof {
        let x = code;
        assert(x & 1 == 1 <==> x % 2 == 1) by (bit_vector);
    }
    if is_odd(&p) != (code & 1 == 1) {
        // the arrangement of rank `code ^ 1`
        let ghost before = p@;
        proof {
            lemma_swap_front_permutation(p@);
            lemma_swap_front(p@, 12);
        }
        let first = p[0];
        p[0] = p[1];
        p[1] = first;
        proof {
            assert(p@ =~= swap_front(before));
        }
    }
    p
}

/// The Lehmer rank of an arrangement of `0..8` (any array: each slot counts the earlier
/// slots holding a larger value, weighted by the factorial of its index).
pub fn permutation_coord_8(perm: &[u8; 8]) -> (r: u16)
    ensures
        r == lehmer_rank(perm@, 8),
        r < factorial(8),
{
    Permutation(*perm).const_into_coord()
}

/// The arrangement of `0..8` of Lehmer rank `coord`.
pub fn permutation_coord_8_inverse(coord: u16) -> (r: [u8; 8])
    requires
        coord < factorial(8),
    ensures
        is_permutation(r@),
        lehmer_rank(r@, 8) == coord,
{
    Permutation::<8>::const_from_coord(coord).0
}

/// The rank with its lowest bit replaced by the parity of the arrangement: even arrangements
/// get even codes, odd ones odd codes.
pub fn permutation_coord_8_parity(perm: &[u8; 8]) -> (r: u16)
    ensures
        r == parity_code(perm@, 8),
{
    let mut r = permutation_coord_8(perm);
    let odd = is_odd(perm);
    proof {
        let x = r;
        assert(x & 1 == 1 <==> x % 2 == 1) by (bit_vector);
        assert(x % 2 == 0 ==> x ^ 1 == x + 1) by (bit_vector);
        assert(x % 2 == 1 ==> x ^ 1 == x - 1) by (bit_vector);
    }
    if (r & 1 == 1) != odd {
        r ^= 1;
    }
    r
}

/// The arrangement whose parity code is `code`: of the two arrangements of rank `code` and
/// `code ^ 1` (which differ by exchanging the first two slots), the one whose parity matches
/// the lowest bit of `code`.
pub fn permutation_coord_8_parity_inverse(code: u16) -> (r: [u8; 8])
    requires
        code < factorial(8),
    ensures
        is_permutation(r@),
        lehmer_rank(r@, 8) / 2 == code / 2,
        is_odd_seq(r@) == (code % 2 == 1),
        parity_code(r@, 8) == code,
{
    let mut p = permutation_coord_8_inverse(code);
    proof {
        let x = code;
        assert(x & 1 == 1 <==> x % 2 == 1) by (bit_vector);
    }
    if is_odd(&p) != (code & 1 == 1) {
        // the arrangement of rank `code ^ 1`
        let ghost before = p@;
        proof {
            lemma_swap_front_permutation(p@);
            lemma_swap_front(p@, 8);
        }
        let first = p[0];
        p[0] = p[1];
        p[1] = first;
        proof {
            assert(p@ =~= swap_front(before));
        }
    }
    p
}

/// The Lehmer rank of an arrangement of `0..4` (any array: each slot counts the earlier
/// slots holding a larger value, weighted by the factorial of its index).
pub fn permutation_coord_4(perm: &[u8; 4]) -> (r: u8)
    ensures
        r == lehmer_rank(perm@, 4),
        r < factorial(4),
{
    Permutation(*perm).const_into_coord()
}

/// The arrangement of `0..4` of Lehmer rank `coord`.
pub fn permutation_coord_4_inverse(coord: u8) -> (r: [u8; 4])
    requires
        coord < factorial(4),
    ensures
        is_permutation(r@),
        lehmer_rank(r@, 4) == coord,
{
    Permutation::<4>::const_from_coord(coord).0
}

/// The rank with its lowest bit replaced by the parity of the arrangement: even arrangements
/// get even codes, odd ones odd codes.
pub fn permutation_coord_4_parity(perm: &[u8; 4]) -> (r: u8)
    ensures
        r == parity_code(perm@, 4),
{
    let mut r = permutation_coord_4(perm);
    let odd = is_odd(perm);
    proof {
        let x = r;
        assert(x & 1 == 1 <==> x % 2 == 1) by (bit_vector);
        assert(x % 2 == 0 ==> x ^ 1 == x + 1) by (bit_vector);
        assert(x % 2 == 1 ==> x ^ 1 == x - 1) by (bit_vector);
    }
    if (r & 1 == 1) != odd {
        r ^= 1;
    }
    r
}

/// The arrangement whose parity code is `code`: of the two arrangements of rank `code` and
/// `code ^ 1` (which differ by exchanging the first two slots), the one whose parity matches
/// the lowest bit of `code`.
pub fn permutation_coord_4_parity_inverse(code: u8) -> (r: [u8; 4])
    requires
        code < factorial(4),
    ensures
        is_permutation(r@),
        lehmer_rank(r@, 4) / 2 == code / 2,
        is_odd_seq(r@) == (code % 2 == 1),
        parity_code(r@, 4) == code,
{
    let mut p = permutation_coord_4_inverse(code);
    proof {
        let x = code;
        assert(x & 1 == 1 <==> x % 2 == 1) by (bit_vector);
    }
    if is_odd(&p) != (code & 1 == 1) {
        // the arrangement of rank `code ^ 1`
        let ghost before = p@;
        proof {
            lemma_swap_front_permutation(p@);
            lemma_swap_front(p@, 4);
        }
        let first = p[0];
        p[0] = p[1];
        p[1] = first;
        proof {
            assert(p@ =~= swap_front(before));
        }
    }
    p
}

/// The rank of the grouping that marks the E-slice slots.
pub fn edge_grouping(items: &[bool; 12]) -> (r: u16)
    ensures
        r == combo_rank(items@, 12, 3),
        count_true(items@) == 4 ==> r < 495,
        count_true(items@) == 4 ==> combo_greedy(r as int, 11, 3) == items@,
{
    EdgeCombination(*items).into_coord()
}

/// The grouping of rank `coord`.
pub fn edge_grouping_inverse(coord: u16) -> (r: [bool; 12])
    requires
        coord < 495,
    ensures
        r@ == combo_greedy(coord as int, 11, 3),
        count_true(r@) == 4,
        combo_rank(r@, 12, 3) == coord,
{
    EdgeCombination::from_coord(coord).0
}

/// Whether the arrangement has an odd number of inversions.
pub fn is_odd<const N: usize>(perm: &[u8; N]) -> (r: bool)
    ensures
        r == is_odd_seq(perm@),
{
    Permutation(*perm).is_odd()
}

/// Every value lies in `1..=s.len()` and no value occurs twice: `s` is a permutation of
/// `1..=s.len()`.
pub open spec fn is_permutation_from_one(s: Seq<u8>) -> bool {
    &&& forall|i: int| 0 <= i < s.len() ==> 1 <= #[trigger] s[i] <= s.len()
    &&& forall|i: int, j: int| 0 <= i < s.len() && 0 <= j < s.len() && i != j ==> #[trigger] s[i] != #[trigger] s[j]
}

/// Returns `true` if `arr` is a permutation of `1..=N`
/// (no duplicates, no out-of-range), else `false`.
pub fn is_perm<const N: usize>(arr: &[u8; N]) -> (r: bool)
    ensures
        r == is_permutation_from_one(arr@),
{
    let mut seen: Vec<bool> = Vec::new();
    let mut k: usize = 0;
    while k < N
        invariant
            k <= N,
            seen@.len() == k,
            forall|m: int| 0 <= m < k ==> !seen@[m],
        decreases N - k,
    {
        seen.push(false);
        k += 1;
    }
    let mut i: usize = 0;
    while i < N
        invariant
            i <= N,
            seen@.len() == N,
            arr@.len() == N,
            forall|j: int| 0 <= j < i ==> 1 <= #[trigger] arr@[j] <= N,
            forall|j: int, l: int| 0 <= j < i && 0 <= l < i && j != l ==> #[trigger] arr@[j] != #[trigger] arr@[l],
            forall|m: int| 0 <= m < N ==> (#[trigger] seen@[m] <==> exists|j: int| 0 <= j < i && arr@[j] == m + 1),
        decreases N - i,
    {
        let v = arr[i] as usize;
        if v == 0 || v > N {
            return false;
        }
        if seen[v - 1] {
            proof {
                let j = choose|j: int| 0 <= j < i && arr@[j] == v;
                assert(arr@[j] == arr@[i as int]);
            }
            return false;
        }
        proof {
            assert forall|j: int| 0 <= j < i implies #[trigger] arr@[j] != arr@[i as int] by {
                if arr@[j] == arr@[i as int] {
                    assert(seen@[v - 1]);
                }
            }
        }
        seen.set(v - 1, true);
        proof {
            assert forall|m: int| 0 <= m < N implies (#[trigger] seen@[m] <==> exists|j: int| 0 <= j < i + 1 && arr@[j] == m + 1) by {
                if m == v - 1 {
                    assert(arr@[i as int] == m + 1);
                } else {
                    if exists|j: int| 0 <= j < i + 1 && arr@[j] == m + 1 {
                        let j = choose|j: int| 0 <= j < i + 1 && arr@[j] == m + 1;
                        assert(j != i);
                    }
                }
            }
        }
        i += 1;
    }
    true
}

/// Twelve values below 16, packed two to a byte, low nibble first.
#[derive(Clone, Copy, PartialEq, Eq, Debug)]
pub struct Perm12Slots(pub [u8; 6]);

/// The nibbles of the packed bytes `s`: slot `2 i` is the low nibble of byte `i`, slot
/// `2 i + 1` its high nibble.
pub open spec fn unpacked_nibbles(s: Seq<u8>) -> Seq<u8> {
    Seq::new(
        12,
        |k: int|
            if k % 2 == 0 {
                s[k / 2] % 16
            } else {
                s[k / 2] / 16
            },
    )
}

impl Perm12Slots {
    /// The packed bytes `0x01, 0x23, .., 0xAB`: since the low nibble comes first, slot `k`
    /// holds `k + 1` for even `k` and `k - 1` for odd `k`.
    pub fn sorted() -> (r: Self)
        ensures
            r.0@ == seq![0x01u8, 0x23u8, 0x45u8, 0x67u8, 0x89u8, 0xABu8],
            forall|k: int|
                0 <= k < 12 ==> unpacked_nibbles(r.0@)[k] == if k % 2 == 0 {
                    k + 1
                } else {
                    k - 1
                },
    {
        let r = Perm12Slots([0b0000_0001, 0b0010_0011, 0b0100_0101, 0b0110_0111, 0b1000_1001, 0b1010_1011]);
        assert(r.0@ =~= seq![0x01u8, 0x23u8, 0x45u8, 0x67u8, 0x89u8, 0xABu8]);
        assert forall|k: int|
            0 <= k < 12 implies unpacked_nibbles(r.0@)[k] == if k % 2 == 0 {
                k + 1
            } else {
                k - 1
            } by {
            let i = k / 2;
            assert(0 <= i < 6);
            assert(r.0@[i] == 16 * (2 * i) + 2 * i + 1);
        }
        r
    }

    /// Unpack 6 bytes into 12 nibbles.
    pub fn unpack12(self) -> (r: [u8; 12])
        ensures
            r@ == unpacked_nibbles(self.0@),
    {
        let mut out = [0u8; 12];
        let mut i: usize = 0;
        while i < 6
            invariant
                i <= 6,
                forall|k: int| 0 <= k < 2 * i ==> out@[k] == unpacked_nibbles(self.0@)[k],
            decreases 6 - i,
        {
            let byte = self.0[i];
            proof {
                assert(byte & 0x0Fu8 == byte % 16) by (bit_vector);
                assert((byte >> 4u8) & 0x0Fu8 == byte / 16) by (bit_vector);
            }
            out[2 * i] = byte & 0x0F;
            out[2 * i + 1] = (byte >> 4) & 0x0F;
            i += 1;
        }
        assert(out@ =~= unpacked_nibbles(self.0@));
        out
    }

    /// Pack 12 nibbles into 6 bytes; only the low four bits of each value are kept.
    pub fn pack12(nibs: [u8; 12]) -> (r: Self)
        ensures
            forall|i: int| 0 <= i < 6 ==> r.0@[i] == nibs@[2 * i] % 16 + (nibs@[2 * i + 1] % 16) * 16,
            forall|k: int| 0 <= k < 12 ==> unpacked_nibbles(r.0@)[k] == nibs@[k] % 16,
    {
        let mut out = [0u8; 6];
        let mut i: usize = 0;
        while i < 6
            invariant
                i <= 6,
                forall|k: int| 0 <= k < i ==> out@[k] == nibs@[2 * k] % 16 + (nibs@[2 * k + 1] % 16) * 16,
            decreases 6 - i,
        {
            let lo = nibs[2 * i] & 0x0F;
            let hi = nibs[2 * i + 1] & 0x0F;
            proof {
                let a = nibs[2 * i];
                let b = nibs[2 * i + 1];
                assert((a & 0x0Fu8) | ((b & 0x0Fu8) << 4u8) == a % 16 + (b % 16) * 16) by (bit_vector);
            }
            out[i] = lo | (hi << 4);
            i += 1;
        }
        proof {
            assert forall|k: int| 0 <= k < 12 implies unpacked_nibbles(out@)[k] == nibs@[k] % 16 by {
                let i = k / 2;
                let lo = nibs@[2 * i] % 16;
                let hi = nibs@[2 * i + 1] % 16;
                assert(out@[i] == lo + hi * 16);
                assert((lo + hi * 16) % 16 == lo && (lo + hi * 16) / 16 == hi) by (nonlinear_arith)
                    requires
                        0 <= lo < 16,
                        0 <= hi < 16,
                ;
            }
        }
        Self(out)
    }

    /// Slot `i` of the result holds slot `other[i]` of `self`.
    pub fn then_apply(self, other: Self) -> (r: Self)
        requires
            forall|k: int| 0 <= k < 12 ==> unpacked_nibbles(other.0@)[k] < 12,
        ensures
            forall|k: int| 0 <= k < 12 ==> unpacked_nibbles(r.0@)[k] == unpacked_nibbles(self.0@)[unpacked_nibbles(other.0@)[k] as int],
    {
        let a = self.unpack12();
        let b = other.unpack12();
        let mut c = [0u8; 12];
        let mut i: usize = 0;
        while i < 12
            invariant
                i <= 12,
                a@ == unpacked_nibbles(self.0@),
                b@ == unpacked_nibbles(other.0@),
                forall|k: int| 0 <= k < 12 ==> b@[k] < 12,
                forall|k: int| 0 <= k < i ==> c@[k] == a@[b@[k] as int],
            decreases 12 - i,
        {
            c[i] = a[b[i] as usize];
            i += 1;
        }
        proof {
            assert forall|k: int| 0 <= k < 12 implies c@[k] < 16 by {
                assert(a@[b@[k] as int] == unpacked_nibbles(self.0@)[b@[k] as int]);
            }
        }
        Self::pack12(c)
    }

    /// Slot `v` of the result names the last slot of `self` that holds `v`, or 0 if none does.
    pub fn inverse(self) -> (r: Self)
        requires
            forall|k: int| 0 <= k < 12 ==> unpacked_nibbles(self.0@)[k] < 12,
        ensures
            forall|v: int| 0 <= v < 12 ==> unpacked_nibbles(r.0@)[v] == last_slot_holding(unpacked_nibbles(self.0@), v, 12),
            is_permutation(unpacked_nibbles(self.0@)) ==> forall|k: int| 0 <= k < 12 ==> unpacked_nibbles(r.0@)[#[trigger] unpacked_nibbles(self.0@)[k] as int] == k,
    {
        let p = self.unpack12();
        let mut inv = [0u8; 12];
        let mut i: usize = 0;
        while i < 12
            invariant
                i <= 12,
                p@ == unpacked_nibbles(self.0@),
                forall|k: int| 0 <= k < 12 ==> p@[k] < 12,
                forall|v: int| 0 <= v < 12 ==> inv@[v] == last_slot_holding(p@, v, i as int),
            decreases 12 - i,
        {
            let v = p[i] as usize;
            inv[v] = i as u8;
            i += 1;
        }
        proof {
            assert forall|k: int| 0 <= k < 12 implies #[trigger] inv@[k] < 16 by {
                lemma_last_slot_range(p@, k, 12);
            }
            if is_permutation(p@) {
                assert forall|k: int| 0 <= k < 12 implies inv@[#[trigger] p@[k] as int] == k by {
                    lemma_last_slot_of_permutation(p@, k, 12);
                }
            }
        }
        Self::pack12(inv)
    }
}

/// The last of the first `n` slots of `s` that holds `v`, or 0 if none does.
pub open spec fn last_slot_holding(s: Seq<u8>, v: int, n: int) -> int
    decreases n,
{
    if n <= 0 {
        0
    } else if s[n - 1] == v {
        n - 1
    } else {
        last_slot_holding(s, v, n - 1)
    }
}

proof fn lemma_last_slot_range(s: Seq<u8>, v: int, n: int)
    requires
        n >= 0,
    ensures
        0 <= last_slot_holding(s, v, n) < if n > 0 { n } else { 1 },
    decreases n,
{
    if n > 0 {
        lemma_last_slot_range(s, v, n - 1);
    }
}

/// In a permutation, the slot holding `s[k]` is `k`.
proof fn lemma_last_slot_of_permutation(s: Seq<u8>, k: int, n: int)
    requires
        is_permutation(s),
        0 <= k < n <= s.len(),
    ensures
        last_slot_holding(s, s[k] as int, n) == k,
    decreases n,
{
    if n - 1 != k {
        assert(s[n - 1] != s[k]);
        lemma_last_slot_of_permutation(s, k, n - 1);
    }
}

/// Eight values below 8, packed three bits each.
pub struct Perm8Slots(pub [u8; 3]);

/// Four values below 4, packed two bits each.
pub struct Perm4Slots(pub u8);

} // verus!
