use vstd::prelude::*;
use vstd::arithmetic::power::pow;
use crate::cube_ops::coords::CornerOrientRawCoord;
use crate::digits::{digit_sum, digits_below, horner, lemma_digit_sum_bound, lemma_digit_sum_prepend, lemma_digit_sum_prefix, lemma_horner_bound, lemma_horner_monotone, lemma_horner_prefix, lemma_horner_prepend, lemma_horner_unique, lemma_pow_positive, lemma_pow_step, lemma_pow_values};
use super::corner_perm::CornerPerm;

verus! {

/// The twist of each of the 8 corners, in `0..3`.
#[derive(Clone, Copy, PartialEq, Eq, Hash, Debug)]
pub struct CornerOrient(pub [u8; 8]);

impl CornerOrient {
    /// The twists add up to a multiple of 3.
    pub open spec fn valid(self) -> bool {
        digit_sum(self.0@, 8) % 3 == 0
    }

    pub fn solved() -> (r: Self)
        ensures
            forall|i: int| 0 <= i < 8 ==> r.0@[i] == 0,
    {
        Self([0; 8])
    }

    fn is_valid(array: [u8; 8]) -> (r: bool)
        requires
            digit_sum(array@, 8) <= 255,
        ensures
            r == (digit_sum(array@, 8) % 3 == 0),
    {
        let mut s: u8 = 0;
        let mut i: usize = 0;
        while i < 8
            invariant
                i <= 8,
                s == digit_sum(array@, i as int),
                digit_sum(array@, 8) <= 255,
            decreases 8 - i,
        {
            proof {
                lemma_digit_sum_monotone(array@, i + 1, 8);
            }
            s += array[i];
            i += 1;
        }
        s % 3 == 0
    }

    pub fn const_from_array(array: [u8; 8]) -> (r: Self)
        requires
            digit_sum(array@, 8) <= 255,
            digit_sum(array@, 8) % 3 == 0,
        ensures
            r.0 == array,
    {
        match Self::try_from_array(array) {
            Ok(x) => x,
            Err(_) => {
                proof {
                    assert(false);
                }
                Self(array)
            },
        }
    }

    /// Accepts the array exactly when its twists add up to a multiple of 3.
    pub fn try_from_array(array: [u8; 8]) -> (r: Result<Self, [u8; 8]>)
        requires
            digit_sum(array@, 8) <= 255,
        ensures
            match r {
                Ok(x) => digit_sum(array@, 8) % 3 == 0 && x.0 == array,
                Err(a) => digit_sum(array@, 8) % 3 != 0 && a == array,
            },
    {
        if Self::is_valid(array) {
            Ok(Self(array))
        } else {
            Err(array)
        }
    }

    /// Move the twists along `perm`: slot `i` takes the twist of slot `perm[i]`.
    pub fn permute(self, perm: CornerPerm) -> (r: Self)
        requires
            perm.0.valid(),
        ensures
            forall|i: int| 0 <= i < 8 ==> r.0@[i] == self.0@[perm.0.0@[i] as int],
    {
        let mut out = self;
        perm.0.apply_to(&mut out.0);
        out
    }

    /// Add the twists of `correct`, slot by slot, modulo 3.
    pub fn correct(self, correct: Self) -> (r: Self)
        requires
            forall|i: int| 0 <= i < 8 ==> self.0@[i] + correct.0@[i] <= 255,
        ensures
            forall|i: int| 0 <= i < 8 ==> r.0@[i] == (self.0@[i] + correct.0@[i]) % 3,
    {
        let mut out = self;
        let mut i: usize = 0;
        while i < 8
            invariant
                i <= 8,
                forall|k: int| 0 <= k < 8 ==> self.0@[k] + correct.0@[k] <= 255,
                forall|k: int| 0 <= k < i ==> out.0@[k] == (self.0@[k] + correct.0@[k]) % 3,
                forall|k: int| i <= k < 8 ==> out.0@[k] == self.0@[k],
            decreases 8 - i,
        {
            out.0[i] = (out.0[i] + correct.0[i]) % 3;
            i += 1;
        }
        out
    }

    /// Subtract the twists of `correct`, slot by slot, modulo 3.
    pub fn uncorrect(self, correct: Self) -> (r: Self)
        requires
            forall|i: int| 0 <= i < 8 ==> correct.0@[i] <= 3 + #[trigger] self.0@[i] <= 255,
        ensures
            forall|i: int| 0 <= i < 8 ==> r.0@[i] == (3 + self.0@[i] - correct.0@[i]) % 3,
    {
        let mut out = self;
        let mut i: usize = 0;
        while i < 8
            invariant
                i <= 8,
                forall|k: int| 0 <= k < 8 ==> correct.0@[k] <= 3 + #[trigger] self.0@[k] <= 255,
                forall|k: int| 0 <= k < i ==> out.0@[k] == (3 + self.0@[k] - correct.0@[k]) % 3,
                forall|k: int| i <= k < 8 ==> out.0@[k] == self.0@[k],
            decreases 8 - i,
        {
            out.0[i] = (3 + out.0[i] - correct.0[i]) % 3;
            i += 1;
        }
        out
    }

    /// The twists seen in a mirror: each twist `t` becomes `(3 - t) % 3`.
    pub fn mirror(self) -> (r: Self)
        requires
            forall|i: int| 0 <= i < 8 ==> self.0@[i] <= 3,
        ensures
            forall|i: int| 0 <= i < 8 ==> r.0@[i] == (3 - self.0@[i]) % 3,
    {
        let mut out = self;
        let mut i: usize = 0;
        while i < 8
            invariant
                i <= 8,
                forall|k: int| 0 <= k < 8 ==> self.0@[k] <= 3,
                forall|k: int| 0 <= k < i ==> out.0@[k] == (3 - self.0@[k]) % 3,
                forall|k: int| i <= k < 8 ==> out.0@[k] == self.0@[k],
            decreases 8 - i,
        {
            out.0[i] = (3 - out.0[i]) % 3;
            i += 1;
        }
        out
    }

    /// The orientation whose first 7 twists are the base-3 digits of `coord` (most
    /// significant first, read modulo 3^7); the last twist makes the total a multiple
    /// of 3.
    pub fn from_coord(coord: CornerOrientRawCoord) -> (r: Self)
        ensures
            digits_below(r.0@, 3, 8),
            horner(r.0@, 3, 7) == coord.0 as int % pow(3, 7),
            r.0@[7] as int == (3 - digit_sum(r.0@, 7) % 3) % 3,
            r.valid(),
    {
        let mut c: u16 = coord.0;
        let mut out = [0u8; 8];
        let mut sum: u16 = 0;
        let mut i: usize = 7;
        proof {
            reveal(pow);
        }
        while i > 0
            invariant
                i <= 7,
                coord.0 as int == c * pow(3, (7 - i) as nat) + horner(out@.subrange(i as int, 7), 3, 7 - i),
                sum as int == digit_sum(out@.subrange(i as int, 7), 7 - i),
                digits_below(out@.subrange(i as int, 7), 3, 7 - i),
                forall|k: int| 0 <= k < i ==> out@[k] == 0,
            decreases i,
        {
            i -= 1;
            let value = (c % 3) as u8;
            let ghost old_sub = out@.subrange(i + 1, 7);
            proof {
                lemma_digit_sum_bound(old_sub, 3, 7 - i - 1);
            }
            out[i] = value;
            sum += value as u16;
            proof {
                let sub = out@.subrange(i as int, 7);
                assert(sub =~= seq![value] + old_sub);
                lemma_horner_prepend(value, old_sub, 3, 7 - i - 1);
                lemma_digit_sum_prepend(value, old_sub, 7 - i - 1);
                lemma_pow_step(3, (7 - i - 1) as nat);
                let p = pow(3, (7 - i - 1) as nat);
                let q = c / 3;
                assert(c == 3 * q + value);
                assert(c * p == q * (3 * p) + value * p) by (nonlinear_arith)
                    requires
                        c == 3 * q + value,
                ;
            }
            c /= 3;
        }
        let ghost sub = out@.subrange(0, 7);
        proof {
            lemma_horner_bound(sub, 3, 7);
            lemma_pow_positive(3, 7);
            vstd::arithmetic::div_mod::lemma_fundamental_div_mod_converse(
                coord.0 as int,
                pow(3, 7),
                c as int,
                horner(sub, 3, 7),
            );
            lemma_digit_sum_bound(sub, 3, 7);
        }
        out[7] = ((3 - (sum % 3)) % 3) as u8;
        proof {
            assert(sub =~= out@.subrange(0, 7));
            lemma_horner_prefix(sub, out@, 3, 7);
            lemma_digit_sum_prefix(sub, out@, 7);
            assert(digits_below(out@, 3, 8)) by {
                assert forall|k: int| 0 <= k < 8 implies (#[trigger] out@[k] as int) < 3 by {
                    if k < 7 {
                        assert(out@[k] == sub[k]);
                    }
                }
            }
        }
        Self(out)
    }

    /// The base-3 value of the first 7 twists, most significant first.
    pub fn into_coord(self) -> (r: CornerOrientRawCoord)
        requires
            horner(self.0@, 3, 7) <= u16::MAX,
        ensures
            r.0 as int == horner(self.0@, 3, 7),
    {
        let mut total: u16 = 0;
        let mut i: usize = 0;
        while i < 7
            invariant
                i <= 7,
                total as int == horner(self.0@, 3, i as int),
                horner(self.0@, 3, 7) <= u16::MAX,
            decreases 7 - i,
        {
            proof {
                lemma_horner_monotone(self.0@, 3, i + 1, 7);
            }
            total = total * 3 + self.0[i] as u16;
            i += 1;
        }
        CornerOrientRawCoord(total)
    }

    /// `self` and `other` agree on every slot after the first.
    pub fn const_eq(self, other: Self) -> (r: bool)
        ensures
            r <==> forall|i: int| 1 <= i < 8 ==> self.0@[i] == other.0@[i],
    {
        let mut i: usize = 1;
        while i < 8
            invariant
                1 <= i <= 8,
                forall|k: int| 1 <= k < i ==> self.0@[k] == other.0@[k],
            decreases 8 - i,
        {
            if self.0[i] != other.0[i] {
                return false;
            }
            i += 1;
        }
        true
    }
}

/// Reading back the coordinate of a valid orientation gives that orientation: the
/// coordinate is below 3^7, and any valid orientation whose first 7 twists have the value
/// of `x`'s coordinate modulo 3^7, as `from_coord` returns, is `x`.
pub proof fn law_from_coord_undoes_into_coord(x: CornerOrient, y: CornerOrient)
    requires
        digits_below(x.0@, 3, 8),
        x.valid(),
        digits_below(y.0@, 3, 8),
        y.valid(),
        horner(y.0@, 3, 7) == horner(x.0@, 3, 7) % pow(3, 7),
    ensures
        horner(x.0@, 3, 7) < pow(3, 7),
        pow(3, 7) == 2187,
        y.0@ == x.0@,
{
    lemma_pow_values();
    lemma_horner_bound(x.0@, 3, 7);
    vstd::arithmetic::div_mod::lemma_small_mod(horner(x.0@, 3, 7) as nat, 2187);
    lemma_horner_unique(x.0@, y.0@, 3, 7);
    lemma_digit_sum_prefix(x.0@, y.0@, 7);
    let s = digit_sum(x.0@, 7);
    let a = x.0@[7] as int;
    let b = y.0@[7] as int;
    assert(a == b) by {
        assert((s + a) % 3 == 0 && (s + b) % 3 == 0 && 0 <= a < 3 && 0 <= b < 3);
    }
    assert(x.0@ =~= y.0@);
}

proof fn lemma_digit_sum_monotone(s: Seq<u8>, m: int, n: int)
    requires
        0 <= m <= n,
    ensures
        digit_sum(s, m) <= digit_sum(s, n),
    decreases n,
{
    if m < n {
        lemma_digit_sum_monotone(s, m, n - 1);
    }
}

} // verus!
