use vstd::prelude::*;
use vstd::arithmetic::power::pow;
use crate::cube_ops::coords::EdgeOrientRawCoord;
use crate::digits::{digit_sum, digits_below, horner, lemma_digit_sum_bound, lemma_digit_sum_prepend, lemma_digit_sum_prefix, lemma_horner_bound, lemma_horner_monotone, lemma_horner_prefix, lemma_horner_prepend, lemma_horner_unique, lemma_pow_positive, lemma_pow_step, lemma_pow_values};
use super::edge_perm::EdgePerm;

verus! {

/// The twist of each of the 12 edges, in `0..2`.
#[derive(Clone, Copy, PartialEq, Eq, Hash, Debug)]
pub struct EdgeOrient(pub [u8; 12]);

impl EdgeOrient {
    /// The twists add up to a multiple of 2.
    pub open spec fn valid(self) -> bool {
        digit_sum(self.0@, 12) % 2 == 0
    }

    pub fn solved() -> (r: Self)
        ensures
            forall|i: int| 0 <= i < 12 ==> r.0@[i] == 0,
    {
        Self([0; 12])
    }

    fn is_valid(array: [u8; 12]) -> (r: bool)
        requires
            digit_sum(array@, 12) <= 255,
        ensures
            r == (digit_sum(array@, 12) % 2 == 0),
    {
        let mut s: u8 = 0;
        let mut i: usize = 0;
        while i < 12
            invariant
                i <= 12,
                s == digit_sum(array@, i as int),
                digit_sum(array@, 12) <= 255,
            decreases 12 - i,
        {
            proof {
                lemma_digit_sum_monotone(array@, i + 1, 12);
            }
            s += array[i];
            i += 1;
        }
        s % 2 == 0
    }

    pub fn const_from_array(array: [u8; 12]) -> (r: Self)
        requires
            digit_sum(array@, 12) <= 255,
            digit_sum(array@, 12) % 2 == 0,
        ensures
            r.0 == array,
    {
        match Self::try_from_array(array) {
            Ok(x) => x,
            Err(_) => {
                proof {
                    assert(false);
                }
                Self(array)
            },
        }
    }

    /// Accepts the array exactly when its twists add up to a multiple of 2.
    pub fn try_from_array(array: [u8; 12]) -> (r: Result<Self, [u8; 12]>)
        requires
            digit_sum(array@, 12) <= 255,
        ensures
            match r {
                Ok(x) => digit_sum(array@, 12) % 2 == 0 && x.0 == array,
                Err(a) => digit_sum(array@, 12) % 2 != 0 && a == array,
            },
    {
        if Self::is_valid(array) {
            Ok(Self(array))
        } else {
            Err(array)
        }
    }

    /// Move the twists along `perm`: slot `i` takes the twist of slot `perm[i]`.
    pub fn permute(self, perm: EdgePerm) -> (r: Self)
        requires
            perm.0.valid(),
        ensures
            forall|i: int| 0 <= i < 12 ==> r.0@[i] == self.0@[perm.0.0@[i] as int],
    {
        let mut out = self;
        perm.0.apply_to(&mut out.0);
        out
    }

    /// Add the twists of `correct`, slot by slot, modulo 2.
    pub fn correct(self, correct: Self) -> (r: Self)
        requires
            forall|i: int| 0 <= i < 12 ==> self.0@[i] + correct.0@[i] <= 255,
        ensures
            forall|i: int| 0 <= i < 12 ==> r.0@[i] == (self.0@[i] + correct.0@[i]) % 2,
    {
        let mut out = self;
        let mut i: usize = 0;
        while i < 12
            invariant
                i <= 12,
                forall|k: int| 0 <= k < 12 ==> self.0@[k] + correct.0@[k] <= 255,
                forall|k: int| 0 <= k < i ==> out.0@[k] == (self.0@[k] + correct.0@[k]) % 2,
                forall|k: int| i <= k < 12 ==> out.0@[k] == self.0@[k],
            decreases 12 - i,
        {
            out.0[i] = (out.0[i] + correct.0[i]) % 2;
            i += 1;
        }
        out
    }

    /// The orientation whose first 11 twists are the base-2 digits of `coord` (most
    /// significant first, read modulo 2^11); the last twist makes the total a multiple
    /// of 2.
    pub fn from_coord(coord: EdgeOrientRawCoord) -> (r: Self)
        ensures
            digits_below(r.0@, 2, 12),
            horner(r.0@, 2, 11) == coord.0 as int % pow(2, 11),
            r.0@[11] as int == (2 - digit_sum(r.0@, 11) % 2) % 2,
            r.valid(),
    {
        let mut c: u16 = coord.0;
        let mut out = [0u8; 12];
        let mut sum: u16 = 0;
        let mut i: usize = 11;
        proof {
            reveal(pow);
        }
        while i > 0
            invariant
                i <= 11,
                coord.0 as int == c * pow(2, (11 - i) as nat) + horner(out@.subrange(i as int, 11), 2, 11 - i),
                sum as int == digit_sum(out@.subrange(i as int, 11), 11 - i),
                digits_below(out@.subrange(i as int, 11), 2, 11 - i),
                forall|k: int| 0 <= k < i ==> out@[k] == 0,
            decreases i,
        {
            i -= 1;
            let value = (c % 2) as u8;
            let ghost old_sub = out@.subrange(i + 1, 11);
            proof {
                lemma_digit_sum_bound(old_sub, 2, 11 - i - 1);
            }
            out[i] = value;
            sum += value as u16;
            proof {
                let sub = out@.subrange(i as int, 11);
                assert(sub =~= seq![value] + old_sub);
                lemma_horner_prepend(value, old_sub, 2, 11 - i - 1);
                lemma_digit_sum_prepend(value, old_sub, 11 - i - 1);
                lemma_pow_step(2, (11 - i - 1) as nat);
                let p = pow(2, (11 - i - 1) as nat);
                let q = c / 2;
                assert(c == 2 * q + value);
                assert(c * p == q * (2 * p) + value * p) by (nonlinear_arith)
                    requires
                        c == 2 * q + value,
                ;
            }
            c /= 2;
        }
        let ghost sub = out@.subrange(0, 11);
        proof {
            lemma_horner_bound(sub, 2, 11);
            lemma_pow_positive(2, 11);
            vstd::arithmetic::div_mod::lemma_fundamental_div_mod_converse(
                coord.0 as int,
                pow(2, 11),
                c as int,
                horner(sub, 2, 11),
            );
            lemma_digit_sum_bound(sub, 2, 11);
        }
        out[11] = ((2 - (sum % 2)) % 2) as u8;
        proof {
            assert(sub =~= out@.subrange(0, 11));
            lemma_horner_prefix(sub, out@, 2, 11);
            lemma_digit_sum_prefix(sub, out@, 11);
            assert(digits_below(out@, 2, 12)) by {
                assert forall|k: int| 0 <= k < 12 implies (#[trigger] out@[k] as int) < 2 by {
                    if k < 11 {
                        assert(out@[k] == sub[k]);
                    }
                }
            }
        }
        Self(out)
    }

    /// The base-2 value of the first 11 twists, most significant first.
    pub fn into_coord(self) -> (r: EdgeOrientRawCoord)
        requires
            horner(self.0@, 2, 11) <= u16::MAX,
        ensures
            r.0 as int == horner(self.0@, 2, 11),
    {
        let mut total: u16 = 0;
        let mut i: usize = 0;
        while i < 11
            invariant
                i <= 11,
                total as int == horner(self.0@, 2, i as int),
                horner(self.0@, 2, 11) <= u16::MAX,
            decreases 11 - i,
        {
            proof {
                lemma_horner_monotone(self.0@, 2, i + 1, 11);
            }
            total = total * 2 + self.0[i] as u16;
            i += 1;
        }
        EdgeOrientRawCoord(total)
    }

    /// `self` and `other` agree on every slot after the first.
    pub fn const_eq(self, other: Self) -> (r: bool)
        ensures
            r <==> forall|i: int| 1 <= i < 12 ==> self.0@[i] == other.0@[i],
    {
        let mut i: usize = 1;
        while i < 12
            invariant
                1 <= i <= 12,
                forall|k: int| 1 <= k < i ==> self.0@[k] == other.0@[k],
            decreases 12 - i,
        {
            if self.0[i] != other.0[i] {
                return false;
            }
            i += 1;
        }
        true
    }
}

/// Reading back the coordinate of a valid orientation gives that orientation: the
/// coordinate is below 2^11, and any valid orientation whose first 11 flips have the value
/// of `x`'s coordinate modulo 2^11, as `from_coord` returns, is `x`.
pub proof fn law_from_coord_undoes_into_coord(x: EdgeOrient, y: EdgeOrient)
    requires
        digits_below(x.0@, 2, 12),
        x.valid(),
        digits_below(y.0@, 2, 12),
        y.valid(),
        horner(y.0@, 2, 11) == horner(x.0@, 2, 11) % pow(2, 11),
    ensures
        horner(x.0@, 2, 11) < pow(2, 11),
        pow(2, 11) == 2048,
        y.0@ == x.0@,
{
    lemma_pow_values();
    lemma_horner_bound(x.0@, 2, 11);
    vstd::arithmetic::div_mod::lemma_small_mod(horner(x.0@, 2, 11) as nat, 2048);
    lemma_horner_unique(x.0@, y.0@, 2, 11);
    lemma_digit_sum_prefix(x.0@, y.0@, 11);
    let s = digit_sum(x.0@, 11);
    let a = x.0@[11] as int;
    let b = y.0@[11] as int;
    assert(a == b) by {
        assert((s + a) % 2 == 0 && (s + b) % 2 == 0 && 0 <= a < 2 && 0 <= b < 2);
    }
    assert(x.0@ =~= y.0@);
}

proof fn lemma_digit_sum_monotone(s: Seq<u8>, m: int, n: int)
    requires
        0 <= m <= n,
    ensures
        digit_sum(s, m) <= digit_sum(s, n),
    decreases n,
{
    if m < n {
        lemma_digit_sum_monotone(s, m, n - 1);
    }
}

} // verus!
