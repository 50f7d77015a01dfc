use vstd::prelude::*;
use vstd::arithmetic::power::pow;

verus! {

/// The value of the first `n` digits of `s` in base `b`, most significant digit first.
pub open spec fn horner(s: Seq<u8>, b: int, n: int) -> int
    decreases n,
{
    if n <= 0 {
        0
    } else {
        horner(s, b, n - 1) * b + s[n - 1]
    }
}

/// The first `n` entries of `s` are digits of base `b`.
pub open spec fn digits_below(s: Seq<u8>, b: int, n: int) -> bool {
    forall|i: int| 0 <= i < n ==> (#[trigger] s[i] as int) < b
}

/// Sum of the first `n` entries.
pub open spec fn digit_sum(s: Seq<u8>, n: int) -> int
    decreases n,
{
    if n <= 0 {
        0
    } else {
        digit_sum(s, n - 1) + s[n - 1]
    }
}

pub proof fn lemma_pow_step(b: int, e: nat)
    ensures
        pow(b, e + 1) == b * pow(b, e),
{
    reveal(pow);
}

pub proof fn lemma_pow_values()
    ensures
        pow(2, 11) == 2048,
        pow(3, 7) == 2187,
{
    reveal_with_fuel(pow, 12);
}

pub proof fn lemma_pow_positive(b: int, e: nat)
    requires
        b >= 1,
    ensures
        pow(b, e) >= 1,
    decreases e,
{
    reveal(pow);
    if e > 0 {
        lemma_pow_positive(b, (e - 1) as nat);
        assert(b * pow(b, (e - 1) as nat) >= 1) by (nonlinear_arith)
            requires
                b >= 1,
                pow(b, (e - 1) as nat) >= 1,
        ;
    }
}

/// Digits of base `b` make a value below `b^n`.
pub proof fn lemma_horner_bound(s: Seq<u8>, b: int, n: int)
    requires
        b >= 1,
        0 <= n <= s.len(),
        digits_below(s, b, n),
    ensures
        0 <= horner(s, b, n) < pow(b, n as nat),
    decreases n,
{
    reveal(pow);
    if n > 0 {
        lemma_horner_bound(s, b, n - 1);
        let h = horner(s, b, n - 1);
        let p = pow(b, (n - 1) as nat);
        let d = s[n - 1] as int;
        assert(0 <= h * b + d < b * p) by (nonlinear_arith)
            requires
                0 <= h < p,
                0 <= d < b,
        ;
    }
}

pub proof fn lemma_horner_nonneg(s: Seq<u8>, b: int, n: int)
    requires
        b >= 1,
    ensures
        horner(s, b, n) >= 0,
    decreases n,
{
    if n > 0 {
        lemma_horner_nonneg(s, b, n - 1);
        let h = horner(s, b, n - 1);
        assert(h * b >= 0) by (nonlinear_arith)
            requires
                h >= 0,
                b >= 1,
        ;
    }
}

/// Horner values are nondecreasing in the number of digits read.
pub proof fn lemma_horner_monotone(s: Seq<u8>, b: int, m: int, n: int)
    requires
        b >= 1,
        0 <= m <= n,
    ensures
        horner(s, b, m) <= horner(s, b, n),
        horner(s, b, m) >= 0,
    decreases n,
{
    lemma_horner_nonneg(s, b, m);
    if m < n {
        lemma_horner_monotone(s, b, m, n - 1);
        let h = horner(s, b, n - 1);
        assert(h <= h * b) by (nonlinear_arith)
            requires
                h >= 0,
                b >= 1,
        ;
    }
}

/// Reading one more leading digit `d` adds `d * b^len` to the value.
pub proof fn lemma_horner_prepend(d: u8, t: Seq<u8>, b: int, n: int)
    requires
        0 <= n <= t.len(),
    ensures
        horner(seq![d] + t, b, n + 1) == d * pow(b, n as nat) + horner(t, b, n),
    decreases n,
{
    reveal(pow);
    let s = seq![d] + t;
    if n == 0 {
        assert(s[0] == d);
        assert(horner(s, b, 0) == 0);
    } else {
        lemma_horner_prepend(d, t, b, n - 1);
        assert(s[n] == t[n - 1]);
        let p = pow(b, (n - 1) as nat);
        let h = horner(t, b, n - 1);
        assert((d * p + h) * b + t[n - 1] == d * (b * p) + (h * b + t[n - 1])) by (nonlinear_arith);
    }
}

/// Digits of base `b` are determined by their Horner value.
pub proof fn lemma_horner_unique(s: Seq<u8>, t: Seq<u8>, b: int, n: int)
    requires
        b >= 1,
        0 <= n <= s.len(),
        n <= t.len(),
        digits_below(s, b, n),
        digits_below(t, b, n),
        horner(s, b, n) == horner(t, b, n),
    ensures
        forall|i: int| 0 <= i < n ==> s[i] == t[i],
    decreases n,
{
    if n > 0 {
        lemma_horner_nonneg(s, b, n - 1);
        lemma_horner_nonneg(t, b, n - 1);
        let hs = horner(s, b, n - 1);
        let ht = horner(t, b, n - 1);
        let ds = s[n - 1] as int;
        let dt = t[n - 1] as int;
        vstd::arithmetic::div_mod::lemma_fundamental_div_mod_converse(hs * b + ds, b, hs, ds);
        vstd::arithmetic::div_mod::lemma_fundamental_div_mod_converse(ht * b + dt, b, ht, dt);
        assert(hs * b == b * hs && ht * b == b * ht) by (nonlinear_arith);
        lemma_horner_unique(s, t, b, n - 1);
    }
}

/// Horner values only read the digits they cover.
pub proof fn lemma_horner_prefix(s: Seq<u8>, t: Seq<u8>, b: int, n: int)
    requires
        0 <= n <= s.len(),
        n <= t.len(),
        forall|i: int| 0 <= i < n ==> s[i] == t[i],
    ensures
        horner(s, b, n) == horner(t, b, n),
    decreases n,
{
    if n > 0 {
        lemma_horner_prefix(s, t, b, n - 1);
    }
}

pub proof fn lemma_digit_sum_prefix(s: Seq<u8>, t: Seq<u8>, n: int)
    requires
        0 <= n <= s.len(),
        n <= t.len(),
        forall|i: int| 0 <= i < n ==> s[i] == t[i],
    ensures
        digit_sum(s, n) == digit_sum(t, n),
    decreases n,
{
    if n > 0 {
        lemma_digit_sum_prefix(s, t, n - 1);
    }
}

/// Reading one more leading digit into a digit sum adds the digit.
pub proof fn lemma_digit_sum_prepend(d: u8, t: Seq<u8>, k: int)
    requires
        0 <= k <= t.len(),
    ensures
        digit_sum(seq![d] + t, k + 1) == d + digit_sum(t, k),
    decreases k,
{
    let s = seq![d] + t;
    if k > 0 {
        lemma_digit_sum_prepend(d, t, k - 1);
        assert(s[k] == t[k - 1]);
        assert(digit_sum(s, k + 1) == digit_sum(s, k) + s[k]);
        assert(digit_sum(t, k) == digit_sum(t, k - 1) + t[k - 1]);
    } else {
        assert(s[0] == d);
        assert(digit_sum(s, 1) == digit_sum(s, 0) + s[0]);
    }
}

pub proof fn lemma_digit_sum_bound(s: Seq<u8>, b: int, n: int)
    requires
        b >= 1,
        0 <= n <= s.len(),
        digits_below(s, b, n),
    ensures
        0 <= digit_sum(s, n) <= n * (b - 1),
    decreases n,
{
    if n > 0 {
        lemma_digit_sum_bound(s, b, n - 1);
        assert((s[n - 1] as int) < b);
        assert((n - 1) * (b - 1) + (b - 1) == n * (b - 1)) by (nonlinear_arith);
    } else {
        assert(n * (b - 1) == 0) by (nonlinear_arith)
            requires
                n == 0,
        ;
    }
}

/// The value of the first `n` digits of `s` in base `b`, least significant digit first.
pub open spec fn lsd_value(s: Seq<u8>, b: int, n: int) -> int
    decreases n,
{
    if n <= 0 {
        0
    } else {
        lsd_value(s, b, n - 1) + s[n - 1] * pow(b, (n - 1) as nat)
    }
}

/// One step of reading digits from the most significant end: the value read so far, scaled
/// by the weight of the digits still below it, plus those digits, is the whole value.
pub proof fn lemma_lsd_step(s: Seq<u8>, b: int, i: int, sum: int)
    requires
        1 <= i,
        b >= 1,
    ensures
        (sum * b + s[i - 1]) * pow(b, (i - 1) as nat) + lsd_value(s, b, i - 1) == sum * pow(b, i as nat)
            + lsd_value(s, b, i),
{
    lemma_pow_step(b, (i - 1) as nat);
    let p = pow(b, (i - 1) as nat);
    assert((sum * b + s[i - 1]) * p == sum * (b * p) + s[i - 1] * p) by (nonlinear_arith);
}

/// Values of digits in range stay below the base to the number of digits.
pub proof fn lemma_lsd_bound(s: Seq<u8>, b: int, n: int)
    requires
        b >= 1,
        0 <= n <= s.len(),
        digits_below(s, b, n),
    ensures
        0 <= lsd_value(s, b, n) < pow(b, n as nat),
    decreases n,
{
    reveal(pow);
    if n > 0 {
        lemma_lsd_bound(s, b, n - 1);
        lemma_pow_step(b, (n - 1) as nat);
        lemma_pow_positive(b, (n - 1) as nat);
        let p = pow(b, (n - 1) as nat);
        let d = s[n - 1] as int;
        let v = lsd_value(s, b, n - 1);
        assert(v + d * p < b * p) by (nonlinear_arith)
            requires
                0 <= v < p,
                0 <= d < b,
        ;
        assert(d * p >= 0) by (nonlinear_arith)
            requires
                d >= 0,
                p >= 1,
        ;
    }
}

/// Splitting `v` into its lowest `i` digits and the rest.
pub proof fn lemma_lsd_split(s: Seq<u8>, b: int, i: int, v: int, rest: int)
    requires
        b >= 2,
        0 <= i,
        v >= 0,
        v == lsd_value(s, b, i) + pow(b, i as nat) * rest,
        rest >= 0,
        s[i] == rest % b,
    ensures
        v == lsd_value(s, b, i + 1) + pow(b, (i + 1) as nat) * (rest / b),
{
    lemma_pow_step(b, i as nat);
    let p = pow(b, i as nat);
    assert(rest == b * (rest / b) + rest % b) by (nonlinear_arith)
        requires
            b >= 2,
    ;
    assert(p * rest == (rest % b) * p + (b * p) * (rest / b)) by (nonlinear_arith)
        requires
            rest == b * (rest / b) + rest % b,
    ;
}

/// The value of the first `n` digits depends on those digits alone.
pub proof fn lemma_lsd_prefix(s: Seq<u8>, t: Seq<u8>, b: int, n: int)
    requires
        0 <= n <= s.len(),
        n <= t.len(),
        forall|i: int| 0 <= i < n ==> s[i] == t[i],
    ensures
        lsd_value(s, b, n) == lsd_value(t, b, n),
    decreases n,
{
    if n > 0 {
        lemma_lsd_prefix(s, t, b, n - 1);
    }
}

/// Digit values are never negative.
pub proof fn lemma_lsd_nonneg(s: Seq<u8>, b: int, n: int)
    requires
        b >= 1,
    ensures
        lsd_value(s, b, n) >= 0,
    decreases n,
{
    if n > 0 {
        lemma_lsd_nonneg(s, b, n - 1);
        lemma_pow_positive(b, (n - 1) as nat);
        let p = pow(b, (n - 1) as nat);
        let d = s[n - 1] as int;
        assert(d * p >= 0) by (nonlinear_arith)
            requires
                d >= 0,
                p >= 1,
        ;
    }
}

/// Digits of base `b`, least significant first, are determined by their value.
pub proof fn lemma_lsd_unique(s: Seq<u8>, t: Seq<u8>, b: int, n: int)
    requires
        b >= 1,
        0 <= n <= s.len(),
        n <= t.len(),
        digits_below(s, b, n),
        digits_below(t, b, n),
        lsd_value(s, b, n) == lsd_value(t, b, n),
    ensures
        forall|i: int| 0 <= i < n ==> s[i] == t[i],
    decreases n,
{
    if n > 0 {
        let p = pow(b, (n - 1) as nat);
        lemma_lsd_bound(s, b, n - 1);
        lemma_lsd_bound(t, b, n - 1);
        let ls = lsd_value(s, b, n - 1);
        let lt = lsd_value(t, b, n - 1);
        assert(s[n - 1] * p == p * s[n - 1] && t[n - 1] * p == p * t[n - 1]) by (nonlinear_arith);
        vstd::arithmetic::div_mod::lemma_fundamental_div_mod_converse(ls + p * s[n - 1], p, s[n - 1] as int, ls);
        vstd::arithmetic::div_mod::lemma_fundamental_div_mod_converse(lt + p * t[n - 1], p, t[n - 1] as int, lt);
        lemma_lsd_unique(s, t, b, n - 1);
    }
}

} // verus!
