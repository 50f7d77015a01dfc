use vstd::prelude::*;
use vstd::arithmetic::power::pow;
use rand::rngs::StdRng;
use rand::seq::SliceRandom;
use rand::Rng;
use rand_chacha::ChaCha8Rng;
use crate::cube_ops::partial_reprs::corner_orient::CornerOrient;
use crate::cube_ops::partial_reprs::edge_orient::EdgeOrient;
use crate::digits::{
    digit_sum, digits_below, lemma_digit_sum_bound, lemma_digit_sum_prefix, lemma_lsd_bound,
    lemma_lsd_prefix, lemma_lsd_split, lemma_lsd_unique, lemma_pow_values, lsd_value,
};
use crate::moves::{move_index, Move};
use crate::permutation_coord::{is_odd, permutation_coord_12_inverse, permutation_coord_8_inverse};
use crate::permutation_math::lehmer_rank::{factorial, lehmer_rank, lemma_factorial_values};
use crate::permutation_math::permutation::{identity_seq, is_odd_seq, is_permutation, Permutation};
use crate::repr_cubie::{state_valid, ReprCube};

verus! {

#[verifier::external_type_specification]
#[verifier::external_body]
pub struct ExChaCha8Rng(ChaCha8Rng);

#[verifier::external_type_specification]
#[verifier::external_body]
pub struct ExStdRng(StdRng);

/// `rand::seq::SliceRandom::shuffle` on the whole array. rand's implementation (a
/// Fisher-Yates shuffle) only exchanges elements, so the array keeps the same elements;
/// their order depends on the generator's state and is not stated, nor is the state it
/// leaves behind.
#[verifier::external_body]
fn shuffle_array<const N: usize>(arr: &mut [u8; N], rng: &mut StdRng)
    ensures
        final(arr)@.to_multiset() == old(arr)@.to_multiset(),
{
    arr.as_mut_slice().shuffle(rng);
}

/// A sequence with the same elements as the identity arrangement is a permutation.
proof fn lemma_same_elements_permutation(s: Seq<u8>, n: nat)
    requires
        n <= 256,
        s.to_multiset() == identity_seq(n).to_multiset(),
    ensures
        is_permutation(s),
        s.len() == n,
{
    broadcast use vstd::seq_lib::group_to_multiset_ensures;

    let id = identity_seq(n);
    assert(id.no_duplicates()) by {
        assert forall|i: int, j: int| 0 <= i < id.len() && 0 <= j < id.len() && i != j implies id[i] != id[j] by {
            assert(id[i] == i as u8 && id[j] == j as u8);
        }
    }
    id.lemma_multiset_has_no_duplicates();
    s.lemma_multiset_has_no_duplicates_conv();
    assert(s.len() == s.to_multiset().len());
    assert(id.len() == id.to_multiset().len());
    assert forall|i: int| 0 <= i < s.len() implies (#[trigger] s[i] as int) < s.len() by {
        assert(s.contains(s[i]));
        assert(s.to_multiset().count(s[i]) > 0);
        assert(id.contains(s[i]));
        let k = choose|k: int| 0 <= k < id.len() && id[k] == s[i];
        assert(id[k] == k as u8);
    }
}

impl<const N: usize> Permutation<N> {
    /// A permutation drawn from the generator: the identity, shuffled.
    pub fn random(rng: &mut StdRng) -> (r: Self)
        requires
            N <= 256,
        ensures
            r.valid(),
    {
        let mut arr = Self::identity().0;
        shuffle_array(&mut arr, rng);
        proof {
            lemma_same_elements_permutation(arr@, N as nat);
        }
        Permutation(arr)
    }
}

/// `rand::Rng::random_range` on `0..n`: rand documents a value in the range, and a panic
/// when the range is empty. Which value comes out depends on the generator's state, so
/// nothing more is stated of it, nor of the state it leaves behind.
#[verifier::external_body]
fn random_below(rng: &mut ChaCha8Rng, n: u32) -> (r: u32)
    requires
        n > 0,
    ensures
        r < n,
{
    rng.random_range(0..n)
}

/// Number of face turns: the range a random turn is drawn from.
pub fn face_turn_count() -> (n: u32)
    ensures
        n == 18,
{
    18
}

/// Number of arrangements of the 12 edges: the range an edge permutation rank is drawn from.
pub fn edge_perm_count() -> (n: u32)
    ensures
        n == factorial(12),
{
    proof {
        lemma_factorial_values();
    }
    479_001_600
}

/// Number of arrangements of the 8 corners: the range a corner permutation rank is drawn from.
pub fn corner_perm_count() -> (n: u32)
    ensures
        n == factorial(8),
{
    proof {
        lemma_factorial_values();
    }
    40320
}

/// Number of flip patterns of the first 11 edges: the range an edge flip code is drawn from.
pub fn edge_flip_count() -> (n: u32)
    ensures
        n == pow(2, 11),
{
    proof {
        lemma_pow_values();
    }
    2048
}

/// Number of twist patterns of the first 7 corners: the range a corner twist code is drawn
/// from.
pub fn corner_twist_count() -> (n: u32)
    ensures
        n == pow(3, 7),
{
    proof {
        lemma_pow_values();
    }
    2187
}

impl Move {
    /// A face turn drawn uniformly from the generator.
    pub fn random(rng: &mut ChaCha8Rng) -> (r: Move)
        ensures
            move_index(r) < 18,
    {
        let x = random_below(rng, face_turn_count());
        Move::from_u8(x as u8)
    }
}

/// When `v` splits as `l + p * q` with `0 <= l < p`, `l` is `v % p`.
proof fn lemma_mod_of_split(v: int, l: int, p: int, q: int)
    requires
        p > 0,
        0 <= l < p,
        q >= 0,
        v == l + p * q,
    ensures
        l == v % p,
{
    assert(p * q == q * p) by (nonlinear_arith);
    vstd::arithmetic::div_mod::lemma_fundamental_div_mod_converse(v, p, q, l);
}

impl ReprCube {
    /// The cube with the given permutations, the edge flips of `edge_code` (bit `i` for edge
    /// `i`, the last edge making the flips even) and the corner twists of `corner_code`
    /// (base-3 digit `i` for corner `i`, the last corner making the sum a multiple of 3).
    pub fn from_draws(
        edge_perm: Permutation<12>,
        corner_perm: Permutation<8>,
        edge_code: u16,
        corner_code: u16,
    ) -> (r: Self)
        requires
            edge_code < 2048,
            corner_code < 2187,
        ensures
            r.edge_perm == edge_perm,
            r.corner_perm == corner_perm,
            digits_below(r@.edge_orient, 2, 12),
            lsd_value(r@.edge_orient, 2, 11) == edge_code,
            digit_sum(r@.edge_orient, 12) % 2 == 0,
            digits_below(r@.corner_orient, 3, 8),
            lsd_value(r@.corner_orient, 3, 7) == corner_code,
            digit_sum(r@.corner_orient, 8) % 3 == 0,
            is_odd_seq(edge_perm.0@) == is_odd_seq(corner_perm.0@) ==> state_valid(r@),
    {
        let mut edge_orient = [0u8; 12];
        let mut rest = edge_code;
        let mut sum: u8 = 0;
        let mut i: usize = 0;
        proof {
            reveal(pow);
            lemma_pow_values();
        }
        while i < 11
            invariant
                i <= 11,
                digits_below(edge_orient@, 2, i as int),
                edge_code == lsd_value(edge_orient@, 2, i as int) + pow(2, i as nat) * rest,
                sum == digit_sum(edge_orient@, i as int),
            decreases 11 - i,
        {
            let val = rest % 2;
            let ghost before = edge_orient@;
            edge_orient[i] = val as u8;
            proof {
                lemma_lsd_prefix(before, edge_orient@, 2, i as int);
                lemma_digit_sum_prefix(before, edge_orient@, i as int);
                lemma_lsd_split(edge_orient@, 2, i as int, edge_code as int, rest as int);
                lemma_digit_sum_bound(edge_orient@, 2, i as int);
                let x = rest;
                assert(x >> 1 == x / 2) by (bit_vector);
            }
            sum += val as u8;
            rest >>= 1;
            i += 1;
        }
        proof {
            lemma_digit_sum_bound(edge_orient@, 2, 11);
        }
        let ghost eleven = edge_orient@;
        edge_orient[11] = (12 - sum) % 2;
        proof {
            lemma_lsd_prefix(eleven, edge_orient@, 2, 11);
            lemma_digit_sum_prefix(eleven, edge_orient@, 11);
            lemma_lsd_bound(edge_orient@, 2, 11);
            lemma_mod_of_split(edge_code as int, lsd_value(edge_orient@, 2, 11), 2048, rest as int);
            assert(digit_sum(edge_orient@, 12) == digit_sum(edge_orient@, 11) + edge_orient@[11]);
        }

        let mut corner_orient = [0u8; 8];
        let mut rest = corner_code;
        let mut sum: u8 = 0;
        let mut i: usize = 0;
        while i < 7
            invariant
                i <= 7,
                digits_below(corner_orient@, 3, i as int),
                corner_code == lsd_value(corner_orient@, 3, i as int) + pow(3, i as nat) * rest,
                sum == digit_sum(corner_orient@, i as int),
            decreases 7 - i,
        {
            let val = rest % 3;
            let ghost before = corner_orient@;
            corner_orient[i] = val as u8;
            proof {
                lemma_lsd_prefix(before, corner_orient@, 3, i as int);
                lemma_digit_sum_prefix(before, corner_orient@, i as int);
                lemma_lsd_split(corner_orient@, 3, i as int, corner_code as int, rest as int);
                lemma_digit_sum_bound(corner_orient@, 3, i as int);
            }
            sum += val as u8;
            rest /= 3;
            i += 1;
        }
        proof {
            lemma_digit_sum_bound(corner_orient@, 3, 7);
        }
        let ghost seven = corner_orient@;
        corner_orient[7] = (18 - sum) % 3;
        proof {
            lemma_lsd_prefix(seven, corner_orient@, 3, 7);
            lemma_digit_sum_prefix(seven, corner_orient@, 7);
            lemma_lsd_bound(corner_orient@, 3, 7);
            lemma_mod_of_split(corner_code as int, lsd_value(corner_orient@, 3, 7), 2187, rest as int);
            assert(digit_sum(corner_orient@, 8) == digit_sum(corner_orient@, 7) + corner_orient@[7]);
        }
        ReprCube {
            corner_perm,
            edge_perm,
            corner_orient: CornerOrient(corner_orient),
            edge_orient: EdgeOrient(edge_orient),
        }
    }

    /// The edge permutation of Lehmer rank `edge_code` and the corner permutation of rank
    /// `corner_code`, kept when their parities agree (the permutations of a cube that face
    /// turns can reach).
    pub fn permutations_from_draws(edge_code: u32, corner_code: u16) -> (r: Option<(Permutation<12>, Permutation<8>)>)
        requires
            edge_code < factorial(12),
            corner_code < factorial(8),
        ensures
            match r {
                Some((e, c)) => {
                    &&& e.valid()
                    &&& c.valid()
                    &&& lehmer_rank(e.0@, 12) == edge_code
                    &&& lehmer_rank(c.0@, 8) == corner_code
                    &&& is_odd_seq(e.0@) == is_odd_seq(c.0@)
                },
                None => exists|e: Seq<u8>, c: Seq<u8>|
                    {
                        &&& e.len() == 12
                        &&& c.len() == 8
                        &&& is_permutation(e)
                        &&& is_permutation(c)
                        &&& lehmer_rank(e, 12) == edge_code
                        &&& lehmer_rank(c, 8) == corner_code
                        &&& is_odd_seq(e) != is_odd_seq(c)
                    },
            },
    {
        let edge_perm = permutation_coord_12_inverse(edge_code);
        let corner_perm = permutation_coord_8_inverse(corner_code);
        if is_odd(&edge_perm) == is_odd(&corner_perm) {
            Some((Permutation(edge_perm), Permutation(corner_perm)))
        } else {
            assert(edge_perm@.len() == 12 && corner_perm@.len() == 8);
            None
        }
    }

    /// One draw of an edge and a corner permutation, kept when their parities agree (the
    /// permutations of a cube that face turns can reach).
    pub fn sample_permutations(rng: &mut ChaCha8Rng) -> (r: Option<(Permutation<12>, Permutation<8>)>)
        ensures
            r matches Some((e, c)) ==> e.valid() && c.valid() && is_odd_seq(e.0@) == is_odd_seq(c.0@),
    {
        proof {
            lemma_factorial_values();
        }
        let edge_code = random_below(rng, edge_perm_count());
        let corner_code = random_below(rng, corner_perm_count()) as u16;
        Self::permutations_from_draws(edge_code, corner_code)
    }

    /// Up to `attempts` draws of the two permutations until their parities agree, then the
    /// flips and twists: a cube that face turns can reach, or `None` when every attempt drew
    /// permutations of different parity.
    pub fn random_valid(rng: &mut ChaCha8Rng, attempts: u32) -> (r: Option<Self>)
        ensures
            attempts == 0 ==> r is None,
            r matches Some(c) ==> state_valid(c@) && c.corner_perm.valid() && c.edge_perm.valid(),
    {
        let mut i: u32 = 0;
        while i < attempts
            invariant
                i <= attempts,
            decreases attempts - i,
        {
            match Self::sample_permutations(rng) {
                Some((edge_perm, corner_perm)) => {
                    let (cube, _, _) = Self::sample_orientations(rng, edge_perm, corner_perm);
                    return Some(cube);
                },
                None => {},
            }
            i += 1;
        }
        None
    }

    /// The cube with the given permutations and edge flips and corner twists drawn uniformly
    /// from the generator, with the two codes drawn: the flips of the first 11 edges and the
    /// twists of the first 7 corners, lowest digit first, are the digits of the codes.
    pub fn sample_orientations(
        rng: &mut ChaCha8Rng,
        edge_perm: Permutation<12>,
        corner_perm: Permutation<8>,
    ) -> (r: (Self, u16, u16))
        ensures
            r.0.edge_perm == edge_perm,
            r.0.corner_perm == corner_perm,
            r.1 < 2048,
            r.2 < 2187,
            digits_below(r.0@.edge_orient, 2, 12),
            lsd_value(r.0@.edge_orient, 2, 11) == r.1,
            digit_sum(r.0@.edge_orient, 12) % 2 == 0,
            digits_below(r.0@.corner_orient, 3, 8),
            lsd_value(r.0@.corner_orient, 3, 7) == r.2,
            digit_sum(r.0@.corner_orient, 8) % 3 == 0,
            is_odd_seq(edge_perm.0@) == is_odd_seq(corner_perm.0@) ==> state_valid(r.0@),
    {
        proof {
            lemma_pow_values();
        }
        let edge_code = random_below(rng, edge_flip_count()) as u16;
        let corner_code = random_below(rng, corner_twist_count()) as u16;
        (Self::from_draws(edge_perm, corner_perm, edge_code, corner_code), edge_code, corner_code)
    }
}

/// The corner twists of a cube are fixed by the code of their first seven, and every twist
/// pattern whose sum is a multiple of 3 has a code below 3^7: so the twists that
/// `sample_orientations` and `from_draws` give for a code are the only pattern with that code,
/// and every valid pattern comes from one of the codes drawn.
pub proof fn law_twists_from_code(s: Seq<u8>, t: Seq<u8>)
    requires
        s.len() == 8,
        t.len() == 8,
        digits_below(s, 3, 8),
        digits_below(t, 3, 8),
        digit_sum(s, 8) % 3 == 0,
        digit_sum(t, 8) % 3 == 0,
        lsd_value(s, 3, 7) == lsd_value(t, 3, 7),
    ensures
        s == t,
        0 <= lsd_value(s, 3, 7) < 2187,
{
    lemma_pow_values();
    lemma_lsd_bound(s, 3, 7);
    lemma_lsd_unique(s, t, 3, 7);
    lemma_digit_sum_prefix(s, t, 7);
    let a = s[7] as int;
    let c = t[7] as int;
    assert(a == c) by {
        assert(digit_sum(s, 8) == digit_sum(s, 7) + a);
        assert(digit_sum(t, 8) == digit_sum(t, 7) + c);
    }
    assert(s =~= t);
}

/// The edge flips of a cube are fixed by the code of their first eleven, and every flip
/// pattern with an even sum has a code below 2^11.
pub proof fn law_flips_from_code(s: Seq<u8>, t: Seq<u8>)
    requires
        s.len() == 12,
        t.len() == 12,
        digits_below(s, 2, 12),
        digits_below(t, 2, 12),
        digit_sum(s, 12) % 2 == 0,
        digit_sum(t, 12) % 2 == 0,
        lsd_value(s, 2, 11) == lsd_value(t, 2, 11),
    ensures
        s == t,
        0 <= lsd_value(s, 2, 11) < 2048,
{
    lemma_pow_values();
    lemma_lsd_bound(s, 2, 11);
    lemma_lsd_unique(s, t, 2, 11);
    lemma_digit_sum_prefix(s, t, 11);
    let a = s[11] as int;
    let c = t[11] as int;
    assert(a == c) by {
        assert(digit_sum(s, 12) == digit_sum(s, 11) + a);
        assert(digit_sum(t, 12) == digit_sum(t, 11) + c);
    }
    assert(s =~= t);
}

} // verus!
