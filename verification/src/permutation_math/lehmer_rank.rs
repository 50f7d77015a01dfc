use vstd::prelude::*;
use super::permutation::{count_greater, inversions, is_permutation, lehmer_digit, Permutation};

verus! {

pub open spec fn factorial(n: nat) -> nat
    decreases n,
{
    if n == 0 {
        1
    } else {
        n * factorial((n - 1) as nat)
    }
}

/// The coordinate of an arrangement: the Lehmer digit of slot `i` weighs `i!`.
pub open spec fn lehmer_rank(s: Seq<u8>, n: int) -> nat
    decreases n,
{
    if n <= 0 {
        0
    } else {
        lehmer_rank(s, n - 1) + lehmer_digit(s, n - 1) * factorial((n - 1) as nat)
    }
}

/// The first `n` slots of `s` hold strictly increasing values.
pub open spec fn sorted_prefix(s: Seq<u8>, n: int) -> bool {
    forall|a: int, b: int| 0 <= a < b < n ==> #[trigger] s[a] < #[trigger] s[b]
}

/// Slot `b` takes the element of slot `a`; slots `a..b` each take their right neighbour.
pub open spec fn rotate_left(s: Seq<u8>, a: int, b: int) -> Seq<u8> {
    Seq::new(
        s.len(),
        |i: int|
            if a <= i < b {
                s[i + 1]
            } else if i == b {
                s[a]
            } else {
                s[i]
            },
    )
}

pub const FACTORIALS_U64: [u64; 21] = [
    1,
    1,
    2,
    6,
    24,
    120,
    720,
    5040,
    40320,
    362880,
    3628800,
    39916800,
    479001600,
    6227020800,
    87178291200,
    1307674368000,
    20922789888000,
    355687428096000,
    6402373705728000,
    121645100408832000,
    2432902008176640000,
];

proof fn lemma_factorial_table()
    ensures
        forall|i: int| 0 <= i <= 20 ==> FACTORIALS_U64@[i] == factorial(i as nat),
{
    reveal_with_fuel(factorial, 21);
    assert(FACTORIALS_U64@[20] == factorial(20));
    assert(FACTORIALS_U64@[19] == factorial(19));
    assert(FACTORIALS_U64@[18] == factorial(18));
    assert(FACTORIALS_U64@[17] == factorial(17));
    assert(FACTORIALS_U64@[16] == factorial(16));
    assert(FACTORIALS_U64@[15] == factorial(15));
    assert(FACTORIALS_U64@[14] == factorial(14));
    assert(FACTORIALS_U64@[13] == factorial(13));
    assert(FACTORIALS_U64@[12] == factorial(12));
    assert(FACTORIALS_U64@[11] == factorial(11));
    assert(FACTORIALS_U64@[10] == factorial(10));
    assert(FACTORIALS_U64@[9] == factorial(9));
    assert(FACTORIALS_U64@[8] == factorial(8));
    assert(FACTORIALS_U64@[7] == factorial(7));
    assert(FACTORIALS_U64@[6] == factorial(6));
    assert(FACTORIALS_U64@[5] == factorial(5));
    assert(FACTORIALS_U64@[4] == factorial(4));
    assert(FACTORIALS_U64@[3] == factorial(3));
    assert(FACTORIALS_U64@[2] == factorial(2));
    assert(FACTORIALS_U64@[1] == factorial(1));
    assert(FACTORIALS_U64@[0] == factorial(0));
}

/// The factorials that the cube's coordinates use.
pub proof fn lemma_factorial_values()
    ensures
        factorial(4) == 24,
        factorial(8) == 40320,
        factorial(12) == 479001600,
{
    lemma_factorial_table();
}

proof fn lemma_factorial_positive(n: nat)
    ensures
        factorial(n) >= 1,
    decreases n,
{
    if n > 0 {
        lemma_factorial_positive((n - 1) as nat);
        assert(n * factorial((n - 1) as nat) >= 1) by (nonlinear_arith)
            requires
                n >= 1,
                factorial((n - 1) as nat) >= 1,
        ;
    }
}

proof fn lemma_factorial_monotone(m: nat, n: nat)
    requires
        m <= n,
    ensures
        factorial(m) <= factorial(n),
    decreases n,
{
    if m < n {
        lemma_factorial_monotone(m, (n - 1) as nat);
        lemma_factorial_positive((n - 1) as nat);
        assert(factorial((n - 1) as nat) <= n * factorial((n - 1) as nat)) by (nonlinear_arith)
            requires
                n >= 1,
        ;
    }
}

pub proof fn lemma_count_greater_len(s: Seq<u8>, v: u8)
    ensures
        count_greater(s, v) <= s.len(),
    decreases s.len(),
{
    if s.len() > 0 {
        lemma_count_greater_len(s.drop_last(), v);
    }
}

pub proof fn lemma_count_greater_append(x: Seq<u8>, y: Seq<u8>, v: u8)
    ensures
        count_greater(x + y, v) == count_greater(x, v) + count_greater(y, v),
    decreases y.len(),
{
    if y.len() == 0 {
        assert(x + y =~= x);
    } else {
        assert((x + y).drop_last() =~= x + y.drop_last());
        lemma_count_greater_append(x, y.drop_last(), v);
    }
}

pub proof fn lemma_count_greater_all(s: Seq<u8>, v: u8)
    requires
        forall|i: int| 0 <= i < s.len() ==> s[i] > v,
    ensures
        count_greater(s, v) == s.len(),
    decreases s.len(),
{
    if s.len() > 0 {
        lemma_count_greater_all(s.drop_last(), v);
    }
}

pub proof fn lemma_count_greater_none(s: Seq<u8>, v: u8)
    requires
        forall|i: int| 0 <= i < s.len() ==> s[i] <= v,
    ensures
        count_greater(s, v) == 0,
    decreases s.len(),
{
    if s.len() > 0 {
        lemma_count_greater_none(s.drop_last(), v);
    }
}

proof fn lemma_count_greater_prefix_monotone(s: Seq<u8>, j: int, i: int, v: u8)
    requires
        0 <= j <= i <= s.len(),
    ensures
        count_greater(s.take(j), v) <= count_greater(s.take(i), v),
    decreases i - j,
{
    if j < i {
        lemma_count_greater_prefix_monotone(s, j, i - 1, v);
        assert(s.take(i).drop_last() =~= s.take(i - 1));
    }
}

/// Each digit is at most its slot index, so a rank of `n` slots stays below `n!`.
pub proof fn lemma_rank_bound(s: Seq<u8>, n: int)
    requires
        0 <= n <= s.len(),
    ensures
        lehmer_rank(s, n) < factorial(n as nat),
    decreases n,
{
    if n > 0 {
        lemma_rank_bound(s, n - 1);
        lemma_count_greater_len(s.take(n - 1), s[n - 1]);
        let d = lehmer_digit(s, n - 1);
        let f = factorial((n - 1) as nat);
        let r = lehmer_rank(s, n - 1);
        assert(r + d * f < n * f) by (nonlinear_arith)
            requires
                r < f,
                d <= n - 1,
                n >= 1,
        ;
    }
}

/// Sorted slots carry no inversions.
proof fn lemma_sorted_digit_zero(s: Seq<u8>, i: int)
    requires
        0 <= i < s.len(),
        sorted_prefix(s, i + 1),
    ensures
        lehmer_digit(s, i) == 0,
{
    lemma_count_greater_none(s.take(i), s[i]);
}

/// Sorted slots have rank 0.
pub proof fn lemma_sorted_rank_zero(s: Seq<u8>, n: int)
    requires
        0 <= n <= s.len(),
        sorted_prefix(s, n),
    ensures
        lehmer_rank(s, n) == 0,
    decreases n,
{
    if n > 0 {
        lemma_sorted_rank_zero(s, n - 1);
        lemma_sorted_digit_zero(s, n - 1);
    }
}

/// Sorted slots carry no inversions.
pub proof fn lemma_sorted_inversions_zero(s: Seq<u8>, n: int)
    requires
        0 <= n <= s.len(),
        sorted_prefix(s, n),
    ensures
        inversions(s, n) == 0,
    decreases n,
{
    if n > 0 {
        lemma_sorted_inversions_zero(s, n - 1);
        lemma_sorted_digit_zero(s, n - 1);
    }
}

/// Ranks grow by the same amount over slots whose digits agree.
proof fn lemma_rank_same_digits(s: Seq<u8>, t: Seq<u8>, m: int, n: int)
    requires
        0 <= m <= n,
        forall|k: int| m <= k < n ==> lehmer_digit(s, k) == lehmer_digit(t, k),
    ensures
        lehmer_rank(s, n) - lehmer_rank(s, m) == lehmer_rank(t, n) - lehmer_rank(t, m),
    decreases n - m,
{
    if m < n {
        lemma_rank_same_digits(s, t, m, n - 1);
    }
}

/// What one rotation step of the decoder does to the digits.
proof fn lemma_rotation_digits(s: Seq<u8>, g: int, c: int)
    requires
        is_permutation(s),
        0 <= c <= g < s.len(),
        sorted_prefix(s, g + 1),
    ensures
        is_permutation(rotate_left(s, g - c, g)),
        sorted_prefix(rotate_left(s, g - c, g), g),
        lehmer_digit(rotate_left(s, g - c, g), g) == c,
        forall|k: int|
            g < k < s.len() ==> lehmer_digit(rotate_left(s, g - c, g), k) == lehmer_digit(s, k),
{
    let a = g - c;
    let r = rotate_left(s, a, g);
    let n = s.len() as int;
    assert forall|i: int, j: int| 0 <= i < n && 0 <= j < n && i != j implies #[trigger] r[i] != #[trigger] r[j] by {
        let si = if a <= i < g {
            i + 1
        } else if i == g {
            a
        } else {
            i
        };
        let sj = if a <= j < g {
            j + 1
        } else if j == g {
            a
        } else {
            j
        };
        assert(r[i] == s[si]);
        assert(r[j] == s[sj]);
        assert(si != sj);
    }
    assert forall|i: int| 0 <= i < n implies (#[trigger] r[i] as int) < n by {
        if a <= i < g {
            assert(r[i] == s[i + 1]);
        }
    }
    // the digit of slot g
    assert(r.take(g) =~= s.subrange(0, a) + s.subrange(a + 1, g + 1));
    lemma_count_greater_append(s.subrange(0, a), s.subrange(a + 1, g + 1), s[a]);
    lemma_count_greater_none(s.subrange(0, a), s[a]);
    lemma_count_greater_all(s.subrange(a + 1, g + 1), s[a]);
    assert(r[g] == s[a]);
    // later slots keep their digits
    assert forall|k: int| g < k < n implies lehmer_digit(r, k) == lehmer_digit(s, k) by {
        let p1 = s.subrange(0, a);
        let p2 = s.subrange(a, a + 1);
        let p3 = s.subrange(a + 1, g + 1);
        let p4 = s.subrange(g + 1, k);
        assert(s.take(k) =~= p1 + p2 + p3 + p4);
        assert(r.take(k) =~= p1 + p3 + p2 + p4);
        let v = s[k];
        assert(r[k] == v);
        lemma_count_greater_append(p1 + p2 + p3, p4, v);
        lemma_count_greater_append(p1 + p2, p3, v);
        lemma_count_greater_append(p1, p2, v);
        lemma_count_greater_append(p1 + p3 + p2, p4, v);
        lemma_count_greater_append(p1 + p3, p2, v);
        lemma_count_greater_append(p1, p3, v);
    }
}

/// `s` with its first two slots exchanged.
pub open spec fn swap_front(s: Seq<u8>) -> Seq<u8> {
    s.update(0, s[1]).update(1, s[0])
}

/// The factorial of every number from 2 on is even.
proof fn lemma_factorial_even(n: nat)
    requires
        n >= 2,
    ensures
        factorial(n) % 2 == 0,
    decreases n,
{
    reveal_with_fuel(factorial, 3);
    if n > 2 {
        lemma_factorial_even((n - 1) as nat);
        let f = factorial((n - 1) as nat);
        let t = f / 2;
        assert(n * f == 2 * (n * t)) by (nonlinear_arith)
            requires
                f == 2 * t,
        ;
    }
}

/// The rank of two or more slots is odd exactly when slot 0 holds more than slot 1.
pub proof fn lemma_rank_low_bit(s: Seq<u8>, n: int)
    requires
        2 <= n <= s.len(),
    ensures
        lehmer_rank(s, n) % 2 == lehmer_digit(s, 1),
        lehmer_digit(s, 1) <= 1,
    decreases n,
{
    lemma_count_greater_len(s.take(1), s[1]);
    if n == 2 {
        lemma_rank_two(s);
    } else {
        lemma_rank_low_bit(s, n - 1);
        lemma_factorial_even((n - 1) as nat);
        let f = factorial((n - 1) as nat);
        let d = lehmer_digit(s, n - 1);
        let t = f / 2;
        assert(d * f == 2 * (d * t)) by (nonlinear_arith)
            requires
                f == 2 * t,
        ;
    }
}

/// The rank of the first two slots is the digit of slot 1.
proof fn lemma_rank_two(s: Seq<u8>)
    requires
        2 <= s.len(),
    ensures
        lehmer_rank(s, 2) == lehmer_digit(s, 1),
        inversions(s, 2) == lehmer_digit(s, 1),
{
    reveal_with_fuel(lehmer_rank, 3);
    reveal_with_fuel(inversions, 3);
    reveal_with_fuel(factorial, 2);
    assert(s.take(0) =~= Seq::<u8>::empty());
    assert(lehmer_digit(s, 0) == 0);
    assert(factorial(1) == 1);
    assert(lehmer_rank(s, 1) == 0);
    assert(lehmer_rank(s, 2) == lehmer_rank(s, 1) + lehmer_digit(s, 1) * factorial(1));
    assert(lehmer_digit(s, 1) * factorial(1) == lehmer_digit(s, 1));
}

/// Exchanging the first two (distinct) slots flips the low bit of the rank, keeps the
/// rest of it, and flips the parity of the inversion count.
pub proof fn lemma_swap_front(s: Seq<u8>, n: int)
    requires
        2 <= n <= s.len(),
        s[0] != s[1],
    ensures
        lehmer_rank(swap_front(s), n) / 2 == lehmer_rank(s, n) / 2,
        lehmer_rank(swap_front(s), n) % 2 != lehmer_rank(s, n) % 2,
        inversions(swap_front(s), n) % 2 != inversions(s, n) % 2,
{
    let q = swap_front(s);
    // digits from slot 2 on agree
    assert forall|k: int| 2 <= k < n implies lehmer_digit(q, k) == lehmer_digit(s, k) by {
        let a = s.subrange(0, 1);
        let b = s.subrange(1, 2);
        let c = s.subrange(2, k);
        assert(s.take(k) =~= a + b + c);
        assert(q.take(k) =~= b + a + c);
        let v = s[k];
        assert(q[k] == v);
        lemma_count_greater_append(a + b, c, v);
        lemma_count_greater_append(a, b, v);
        lemma_count_greater_append(b + a, c, v);
        lemma_count_greater_append(b, a, v);
    }
    lemma_rank_same_digits(s, q, 2, n);
    lemma_inversions_same_digits(s, q, 2, n);
    lemma_rank_low_bit(s, n);
    lemma_rank_low_bit(q, n);
    lemma_rank_two(s);
    lemma_rank_two(q);
    reveal_with_fuel(count_greater, 2);
    assert(s.take(1).drop_last() =~= Seq::<u8>::empty());
    assert(q.take(1).drop_last() =~= Seq::<u8>::empty());
    assert(s.take(1) =~= seq![s[0]]);
    assert(q.take(1) =~= seq![s[1]]);
    let ds = lehmer_digit(s, 1);
    let dq = lehmer_digit(q, 1);
    assert(ds + dq == 1);
    let rs = lehmer_rank(s, n);
    let rq = lehmer_rank(q, n);
    assert(rq == rs - ds + dq);
    assert(rs == 2 * (rs / 2) + ds);
}

/// Inversion counts grow by the same amount over slots whose digits agree.
pub proof fn lemma_inversions_same_digits(s: Seq<u8>, t: Seq<u8>, m: int, n: int)
    requires
        0 <= m <= n,
        forall|k: int| m <= k < n ==> lehmer_digit(s, k) == lehmer_digit(t, k),
    ensures
        inversions(s, n) - inversions(s, m) == inversions(t, n) - inversions(t, m),
    decreases n - m,
{
    if m < n {
        lemma_inversions_same_digits(s, t, m, n - 1);
    }
}

/// Counts of larger elements agree when the comparisons agree slot by slot.
pub proof fn lemma_count_greater_same_order(x: Seq<u8>, v: u8, y: Seq<u8>, w: u8)
    requires
        x.len() == y.len(),
        forall|i: int| 0 <= i < x.len() ==> (x[i] > v) == (y[i] > w),
    ensures
        count_greater(x, v) == count_greater(y, w),
    decreases x.len(),
{
    if x.len() > 0 {
        lemma_count_greater_same_order(x.drop_last(), v, y.drop_last(), w);
    }
}

/// The rank of the first `n` slots depends only on how their values compare.
pub proof fn lemma_rank_same_order(s: Seq<u8>, t: Seq<u8>, n: int)
    requires
        0 <= n <= s.len(),
        n <= t.len(),
        forall|i: int, j: int| 0 <= i < n && 0 <= j < n ==> (#[trigger] s[i] > #[trigger] s[j]) == (t[i] > t[j]),
    ensures
        lehmer_rank(s, n) == lehmer_rank(t, n),
{
    assert forall|k: int| 0 <= k < n implies lehmer_digit(s, k) == lehmer_digit(t, k) by {
        assert forall|i: int| 0 <= i < s.take(k).len() implies (s.take(k)[i] > s[k]) == (t.take(k)[i] > t[k]) by {
            assert(s.take(k)[i] == s[i]);
            assert(t.take(k)[i] == t[i]);
            assert((s[i] > s[k]) == (t[i] > t[k]));
        }
        lemma_count_greater_same_order(s.take(k), s[k], t.take(k), t[k]);
    }
    lemma_rank_same_digits(s, t, 0, n);
}

/// The rank of the first `N` slots of `perm`: slot `i` contributes `i!` for every earlier
/// slot holding a larger value.
pub fn lehmer_encode<const N: usize>(perm: &[u8; N]) -> (r: u64)
    requires
        N <= 20,
    ensures
        r == lehmer_rank(perm@, N as int),
        r < factorial(N as nat),
{
    proof {
        lemma_factorial_table();
    }
    if N == 0 {
        proof {
            reveal_with_fuel(factorial, 1);
        }
        return 0;
    }
    let mut sum: u64 = 0;
    let mut i: usize = 1;
    proof {
        reveal_with_fuel(lehmer_rank, 2);
        assert(perm@.take(0) =~= Seq::<u8>::empty());
        reveal_with_fuel(factorial, 1);
    }
    while i < N
        invariant
            1 <= i <= N <= 20,
            perm@.len() == N,
            sum == lehmer_rank(perm@, i as int),
            forall|k: int| 0 <= k <= 20 ==> FACTORIALS_U64@[k] == factorial(k as nat),
        decreases N - i,
    {
        let mut j: usize = 0;
        proof {
            assert(perm@.take(0) =~= Seq::<u8>::empty());
        }
        while j < i
            invariant
                j <= i < N <= 20,
                perm@.len() == N,
                sum == lehmer_rank(perm@, i as int) + count_greater(perm@.take(j as int), perm@[i as int])
                    * factorial(i as nat),
                forall|k: int| 0 <= k <= 20 ==> FACTORIALS_U64@[k] == factorial(k as nat),
            decreases i - j,
        {
            proof {
                assert(perm@.take(j + 1).drop_last() =~= perm@.take(j as int));
                lemma_count_greater_prefix_monotone(perm@, j + 1, i as int, perm@[i as int]);
                lemma_rank_bound(perm@, i + 1);
                lemma_factorial_monotone((i + 1) as nat, 20);
                let c1 = count_greater(perm@.take(j + 1), perm@[i as int]);
                let ci = count_greater(perm@.take(i as int), perm@[i as int]);
                let f = factorial(i as nat);
                let c0 = count_greater(perm@.take(j as int), perm@[i as int]);
                assert(c1 * f <= ci * f) by (nonlinear_arith)
                    requires
                        c1 <= ci,
                ;
                assert((c0 + 1) * f == c0 * f + f) by (nonlinear_arith);
                lemma_factorial_table();
                assert(factorial(20) < 0x1_0000_0000_0000_0000);
            }
            if perm[j] > perm[i] {
                sum += FACTORIALS_U64[i];
            }
            j += 1;
        }
        i += 1;
    }
    proof {
        lemma_rank_bound(perm@, N as int);
    }
    sum
}

/// The arrangement of `0..N` whose rank is `coord`.
pub fn lehmer_decode<const N: usize>(coord: u64) -> (r: [u8; N])
    requires
        1 <= N <= 20,
        coord < factorial(N as nat),
    ensures
        is_permutation(r@),
        lehmer_rank(r@, N as int) == coord,
{
    proof {
        lemma_factorial_table();
    }
    let mut result = Permutation::<N>::identity().0;
    let mut rest = coord;
    let mut f: usize = N;
    proof {
        lemma_sorted_rank_zero(result@, N as int);
    }
    while f > 0
        invariant
            f <= N <= 20,
            result@.len() == N,
            is_permutation(result@),
            sorted_prefix(result@, f as int),
            rest < factorial(f as nat),
            coord == rest + lehmer_rank(result@, N as int),
            forall|k: int| 0 <= k <= 20 ==> FACTORIALS_U64@[k] == factorial(k as nat),
        decreases f,
    {
        f -= 1;
        let ghost start = rest;
        let mut c: usize = 0;
        proof {
            reveal_with_fuel(factorial, 2);
            lemma_factorial_positive(f as nat);
        }
        while FACTORIALS_U64[f] <= rest
            invariant
                f < N <= 20,
                start == rest + c * factorial(f as nat),
                start < (f + 1) * factorial(f as nat),
                factorial(f as nat) >= 1,
                forall|k: int| 0 <= k <= 20 ==> FACTORIALS_U64@[k] == factorial(k as nat),
            decreases rest,
        {
            proof {
                let fc = factorial(f as nat);
                assert((c + 1) * fc == c * fc + fc) by (nonlinear_arith);
                assert((c + 1) * fc <= start) by (nonlinear_arith)
                    requires
                        start == rest + c * fc,
                        fc <= rest,
                ;
                assert(c + 1 <= f) by (nonlinear_arith)
                    requires
                        (c + 1) * fc <= start,
                        start < (f + 1) * fc,
                        fc >= 1,
                ;
            }
            rest -= FACTORIALS_U64[f];
            c += 1;
        }
        proof {
            let fc = factorial(f as nat);
            assert(c <= f) by (nonlinear_arith)
                requires
                    start == rest + c * fc,
                    start < (f + 1) * fc,
                    fc >= 1,
            ;
        }
        let ghost before = result@;
        proof {
            lemma_rotation_digits(before, f as int, c as int);
            lemma_sorted_rank_zero(before, f + 1);
            lemma_sorted_rank_zero(rotate_left(before, f - c, f as int), f as int);
            lemma_rank_same_digits(rotate_left(before, f - c, f as int), before, f + 1, N as int);
        }
        if c != 0 {
            let a = f - c;
            let swap = result[a];
            let mut i = a;
            while i < f
                invariant
                    a <= i <= f < N,
                    result@.len() == N,
                    before.len() == N,
                    forall|t: int|
                        0 <= t < N ==> #[trigger] result@[t] == if a <= t < i {
                            before[t + 1]
                        } else {
                            before[t]
                        },
                decreases f - i,
            {
                result[i] = result[i + 1];
                i += 1;
            }
            result[f] = swap;
            assert(result@ =~= rotate_left(before, a as int, f as int));
        } else {
            assert(before =~= rotate_left(before, f as int, f as int));
        }
    }
    result
}

} // verus!

verus! {

/// A ranking of the permutations of `0..N` onto `0..N!`.
pub trait LehmerRank: Sized {
    type Code;

    /// The codes that name a permutation: those below `N!`.
    spec fn code_in_range(code: Self::Code) -> bool;

    fn into_coord(self) -> Self::Code;

    fn from_coord(code: Self::Code) -> Self
        requires
            Self::code_in_range(code),
    ;
}

impl Permutation<1> {
    /// The Lehmer rank of this arrangement.
    pub fn const_into_coord(self) -> (r: u8)
        ensures
            r == lehmer_rank(self.0@, 1),
            r < factorial(1),
    {
        proof {
            reveal_with_fuel(factorial, 2);
        }
        lehmer_encode(&self.0) as u8
    }

    /// The permutation whose Lehmer rank is `coord`.
    pub fn const_from_coord(coord: u8) -> (r: Self)
        requires
            coord < factorial(1),
        ensures
            r.valid(),
            lehmer_rank(r.0@, 1) == coord,
    {
        Permutation(lehmer_decode(coord as u64))
    }
}

impl LehmerRank for Permutation<1> {
    type Code = u8;

    open spec fn code_in_range(code: u8) -> bool {
        code < factorial(1)
    }

    fn into_coord(self) -> (r: u8)
        ensures
            r == lehmer_rank(self.0@, 1),
    {
        self.const_into_coord()
    }

    fn from_coord(code: u8) -> (r: Self)
        ensures
            r.valid(),
            lehmer_rank(r.0@, 1) == code,
    {
        Self::const_from_coord(code)
    }
}

impl Permutation<2> {
    /// The Lehmer rank of this arrangement.
    pub fn const_into_coord(self) -> (r: u8)
        ensures
            r == lehmer_rank(self.0@, 2),
            r < factorial(2),
    {
        proof {
            reveal_with_fuel(factorial, 3);
        }
        lehmer_encode(&self.0) as u8
    }

    /// The permutation whose Lehmer rank is `coord`.
    pub fn const_from_coord(coord: u8) -> (r: Self)
        requires
            coord < factorial(2),
        ensures
            r.valid(),
            lehmer_rank(r.0@, 2) == coord,
    {
        Permutation(lehmer_decode(coord as u64))
    }
}

impl LehmerRank for Permutation<2> {
    type Code = u8;

    open spec fn code_in_range(code: u8) -> bool {
        code < factorial(2)
    }

    fn into_coord(self) -> (r: u8)
        ensures
            r == lehmer_rank(self.0@, 2),
    {
        self.const_into_coord()
    }

    fn from_coord(code: u8) -> (r: Self)
        ensures
            r.valid(),
            lehmer_rank(r.0@, 2) == code,
    {
        Self::const_from_coord(code)
    }
}

impl Permutation<3> {
    /// The Lehmer rank of this arrangement.
    pub fn const_into_coord(self) -> (r: u8)
        ensures
            r == lehmer_rank(self.0@, 3),
            r < factorial(3),
    {
        proof {
            reveal_with_fuel(factorial, 4);
        }
        lehmer_encode(&self.0) as u8
    }

    /// The permutation whose Lehmer rank is `coord`.
    pub fn const_from_coord(coord: u8) -> (r: Self)
        requires
            coord < factorial(3),
        ensures
            r.valid(),
            lehmer_rank(r.0@, 3) == coord,
    {
        Permutation(lehmer_decode(coord as u64))
    }
}

impl LehmerRank for Permutation<3> {
    type Code = u8;

    open spec fn code_in_range(code: u8) -> bool {
        code < factorial(3)
    }

    fn into_coord(self) -> (r: u8)
        ensures
            r == lehmer_rank(self.0@, 3),
    {
        self.const_into_coord()
    }

    fn from_coord(code: u8) -> (r: Self)
        ensures
            r.valid(),
            lehmer_rank(r.0@, 3) == code,
    {
        Self::const_from_coord(code)
    }
}

impl Permutation<4> {
    /// The Lehmer rank of this arrangement.
    pub fn const_into_coord(self) -> (r: u8)
        ensures
            r == lehmer_rank(self.0@, 4),
            r < factorial(4),
    {
        proof {
            reveal_with_fuel(factorial, 5);
        }
        lehmer_encode(&self.0) as u8
    }

    /// The permutation whose Lehmer rank is `coord`.
    pub fn const_from_coord(coord: u8) -> (r: Self)
        requires
            coord < factorial(4),
        ensures
            r.valid(),
            lehmer_rank(r.0@, 4) == coord,
    {
        Permutation(lehmer_decode(coord as u64))
    }
}

impl LehmerRank for Permutation<4> {
    type Code = u8;

    open spec fn code_in_range(code: u8) -> bool {
        code < factorial(4)
    }

    fn into_coord(self) -> (r: u8)
        ensures
            r == lehmer_rank(self.0@, 4),
    {
        self.const_into_coord()
    }

    fn from_coord(code: u8) -> (r: Self)
        ensures
            r.valid(),
            lehmer_rank(r.0@, 4) == code,
    {
        Self::const_from_coord(code)
    }
}

impl Permutation<5> {
    /// The Lehmer rank of this arrangement.
    pub fn const_into_coord(self) -> (r: u8)
        ensures
            r == lehmer_rank(self.0@, 5),
            r < factorial(5),
    {
        proof {
            reveal_with_fuel(factorial, 6);
        }
        lehmer_encode(&self.0) as u8
    }

    /// The permutation whose Lehmer rank is `coord`.
    pub fn const_from_coord(coord: u8) -> (r: Self)
        requires
            coord < factorial(5),
        ensures
            r.valid(),
            lehmer_rank(r.0@, 5) == coord,
    {
        Permutation(lehmer_decode(coord as u64))
    }
}

impl LehmerRank for Permutation<5> {
    type Code = u8;

    open spec fn code_in_range(code: u8) -> bool {
        code < factorial(5)
    }

    fn into_coord(self) -> (r: u8)
        ensures
            r == lehmer_rank(self.0@, 5),
    {
        self.const_into_coord()
    }

    fn from_coord(code: u8) -> (r: Self)
        ensures
            r.valid(),
            lehmer_rank(r.0@, 5) == code,
    {
        Self::const_from_coord(code)
    }
}

impl Permutation<6> {
    /// The Lehmer rank of this arrangement.
    pub fn const_into_coord(self) -> (r: u16)
        ensures
            r == lehmer_rank(self.0@, 6),
            r < factorial(6),
    {
        proof {
            reveal_with_fuel(factorial, 7);
        }
        lehmer_encode(&self.0) as u16
    }

    /// The permutation whose Lehmer rank is `coord`.
    pub fn const_from_coord(coord: u16) -> (r: Self)
        requires
            coord < factorial(6),
        ensures
            r.valid(),
            lehmer_rank(r.0@, 6) == coord,
    {
        Permutation(lehmer_decode(coord as u64))
    }
}

impl LehmerRank for Permutation<6> {
    type Code = u16;

    open spec fn code_in_range(code: u16) -> bool {
        code < factorial(6)
    }

    fn into_coord(self) -> (r: u16)
        ensures
            r == lehmer_rank(self.0@, 6),
    {
        self.const_into_coord()
    }

    fn from_coord(code: u16) -> (r: Self)
        ensures
            r.valid(),
            lehmer_rank(r.0@, 6) == code,
    {
        Self::const_from_coord(code)
    }
}

impl Permutation<7> {
    /// The Lehmer rank of this arrangement.
    pub fn const_into_coord(self) -> (r: u16)
        ensures
            r == lehmer_rank(self.0@, 7),
            r < factorial(7),
    {
        proof {
            reveal_with_fuel(factorial, 8);
        }
        lehmer_encode(&self.0) as u16
    }

    /// The permutation whose Lehmer rank is `coord`.
    pub fn const_from_coord(coord: u16) -> (r: Self)
        requires
            coord < factorial(7),
        ensures
            r.valid(),
            lehmer_rank(r.0@, 7) == coord,
    {
        Permutation(lehmer_decode(coord as u64))
    }
}

impl LehmerRank for Permutation<7> {
    type Code = u16;

    open spec fn code_in_range(code: u16) -> bool {
        code < factorial(7)
    }

    fn into_coord(self) -> (r: u16)
        ensures
            r == lehmer_rank(self.0@, 7),
    {
        self.const_into_coord()
    }

    fn from_coord(code: u16) -> (r: Self)
        ensures
            r.valid(),
            lehmer_rank(r.0@, 7) == code,
    {
        Self::const_from_coord(code)
    }
}

impl Permutation<8> {
    /// The Lehmer rank of this arrangement.
    pub fn const_into_coord(self) -> (r: u16)
        ensures
            r == lehmer_rank(self.0@, 8),
            r < factorial(8),
    {
        proof {
            reveal_with_fuel(factorial, 9);
        }
        lehmer_encode(&self.0) as u16
    }

    /// The permutation whose Lehmer rank is `coord`.
    pub fn const_from_coord(coord: u16) -> (r: Self)
        requires
            coord < factorial(8),
        ensures
            r.valid(),
            lehmer_rank(r.0@, 8) == coord,
    {
        Permutation(lehmer_decode(coord as u64))
    }
}

impl LehmerRank for Permutation<8> {
    type Code = u16;

    open spec fn code_in_range(code: u16) -> bool {
        code < factorial(8)
    }

    fn into_coord(self) -> (r: u16)
        ensures
            r == lehmer_rank(self.0@, 8),
    {
        self.const_into_coord()
    }

    fn from_coord(code: u16) -> (r: Self)
        ensures
            r.valid(),
            lehmer_rank(r.0@, 8) == code,
    {
        Self::const_from_coord(code)
    }
}

impl Permutation<9> {
    /// The Lehmer rank of this arrangement.
    pub fn const_into_coord(self) -> (r: u32)
        ensures
            r == lehmer_rank(self.0@, 9),
            r < factorial(9),
    {
        proof {
            reveal_with_fuel(factorial, 10);
        }
        lehmer_encode(&self.0) as u32
    }

    /// The permutation whose Lehmer rank is `coord`.
    pub fn const_from_coord(coord: u32) -> (r: Self)
        requires
            coord < factorial(9),
        ensures
            r.valid(),
            lehmer_rank(r.0@, 9) == coord,
    {
        Permutation(lehmer_decode(coord as u64))
    }
}

impl LehmerRank for Permutation<9> {
    type Code = u32;

    open spec fn code_in_range(code: u32) -> bool {
        code < factorial(9)
    }

    fn into_coord(self) -> (r: u32)
        ensures
            r == lehmer_rank(self.0@, 9),
    {
        self.const_into_coord()
    }

    fn from_coord(code: u32) -> (r: Self)
        ensures
            r.valid(),
            lehmer_rank(r.0@, 9) == code,
    {
        Self::const_from_coord(code)
    }
}

impl Permutation<10> {
    /// The Lehmer rank of this arrangement.
    pub fn const_into_coord(self) -> (r: u32)
        ensures
            r == lehmer_rank(self.0@, 10),
            r < factorial(10),
    {
        proof {
            reveal_with_fuel(factorial, 11);
        }
        lehmer_encode(&self.0) as u32
    }

    /// The permutation whose Lehmer rank is `coord`.
    pub fn const_from_coord(coord: u32) -> (r: Self)
        requires
            coord < factorial(10),
        ensures
            r.valid(),
            lehmer_rank(r.0@, 10) == coord,
    {
        Permutation(lehmer_decode(coord as u64))
    }
}

impl LehmerRank for Permutation<10> {
    type Code = u32;

    open spec fn code_in_range(code: u32) -> bool {
        code < factorial(10)
    }

    fn into_coord(self) -> (r: u32)
        ensures
            r == lehmer_rank(self.0@, 10),
    {
        self.const_into_coord()
    }

    fn from_coord(code: u32) -> (r: Self)
        ensures
            r.valid(),
            lehmer_rank(r.0@, 10) == code,
    {
        Self::const_from_coord(code)
    }
}

impl Permutation<11> {
    /// The Lehmer rank of this arrangement.
    pub fn const_into_coord(self) -> (r: u32)
        ensures
            r == lehmer_rank(self.0@, 11),
            r < factorial(11),
    {
        proof {
            reveal_with_fuel(factorial, 12);
        }
        lehmer_encode(&self.0) as u32
    }

    /// The permutation whose Lehmer rank is `coord`.
    pub fn const_from_coord(coord: u32) -> (r: Self)
        requires
            coord < factorial(11),
        ensures
            r.valid(),
            lehmer_rank(r.0@, 11) == coord,
    {
        Permutation(lehmer_decode(coord as u64))
    }
}

impl LehmerRank for Permutation<11> {
    type Code = u32;

    open spec fn code_in_range(code: u32) -> bool {
        code < factorial(11)
    }

    fn into_coord(self) -> (r: u32)
        ensures
            r == lehmer_rank(self.0@, 11),
    {
        self.const_into_coord()
    }

    fn from_coord(code: u32) -> (r: Self)
        ensures
            r.valid(),
            lehmer_rank(r.0@, 11) == code,
    {
        Self::const_from_coord(code)
    }
}

impl Permutation<12> {
    /// The Lehmer rank of this arrangement.
    pub fn const_into_coord(self) -> (r: u32)
        ensures
            r == lehmer_rank(self.0@, 12),
            r < factorial(12),
    {
        proof {
            reveal_with_fuel(factorial, 13);
        }
        lehmer_encode(&self.0) as u32
    }

    /// The permutation whose Lehmer rank is `coord`.
    pub fn const_from_coord(coord: u32) -> (r: Self)
        requires
            coord < factorial(12),
        ensures
            r.valid(),
            lehmer_rank(r.0@, 12) == coord,
    {
        Permutation(lehmer_decode(coord as u64))
    }
}

impl LehmerRank for Permutation<12> {
    type Code = u32;

    open spec fn code_in_range(code: u32) -> bool {
        code < factorial(12)
    }

    fn into_coord(self) -> (r: u32)
        ensures
            r == lehmer_rank(self.0@, 12),
    {
        self.const_into_coord()
    }

    fn from_coord(code: u32) -> (r: Self)
        ensures
            r.valid(),
            lehmer_rank(r.0@, 12) == code,
    {
        Self::const_from_coord(code)
    }
}

impl Permutation<13> {
    /// The Lehmer rank of this arrangement.
    pub fn const_into_coord(self) -> (r: u64)
        ensures
            r == lehmer_rank(self.0@, 13),
            r < factorial(13),
    {
        proof {
            reveal_with_fuel(factorial, 14);
        }
        lehmer_encode(&self.0)
    }

    /// The permutation whose Lehmer rank is `coord`.
    pub fn const_from_coord(coord: u64) -> (r: Self)
        requires
            coord < factorial(13),
        ensures
            r.valid(),
            lehmer_rank(r.0@, 13) == coord,
    {
        Permutation(lehmer_decode(coord as u64))
    }
}

impl LehmerRank for Permutation<13> {
    type Code = u64;

    open spec fn code_in_range(code: u64) -> bool {
        code < factorial(13)
    }

    fn into_coord(self) -> (r: u64)
        ensures
            r == lehmer_rank(self.0@, 13),
    {
        self.const_into_coord()
    }

    fn from_coord(code: u64) -> (r: Self)
        ensures
            r.valid(),
            lehmer_rank(r.0@, 13) == code,
    {
        Self::const_from_coord(code)
    }
}

impl Permutation<14> {
    /// The Lehmer rank of this arrangement.
    pub fn const_into_coord(self) -> (r: u64)
        ensures
            r == lehmer_rank(self.0@, 14),
            r < factorial(14),
    {
        proof {
            reveal_with_fuel(factorial, 15);
        }
        lehmer_encode(&self.0)
    }

    /// The permutation whose Lehmer rank is `coord`.
    pub fn const_from_coord(coord: u64) -> (r: Self)
        requires
            coord < factorial(14),
        ensures
            r.valid(),
            lehmer_rank(r.0@, 14) == coord,
    {
        Permutation(lehmer_decode(coord as u64))
    }
}

impl LehmerRank for Permutation<14> {
    type Code = u64;

    open spec fn code_in_range(code: u64) -> bool {
        code < factorial(14)
    }

    fn into_coord(self) -> (r: u64)
        ensures
            r == lehmer_rank(self.0@, 14),
    {
        self.const_into_coord()
    }

    fn from_coord(code: u64) -> (r: Self)
        ensures
            r.valid(),
            lehmer_rank(r.0@, 14) == code,
    {
        Self::const_from_coord(code)
    }
}

impl Permutation<15> {
    /// The Lehmer rank of this arrangement.
    pub fn const_into_coord(self) -> (r: u64)
        ensures
            r == lehmer_rank(self.0@, 15),
            r < factorial(15),
    {
        proof {
            reveal_with_fuel(factorial, 16);
        }
        lehmer_encode(&self.0)
    }

    /// The permutation whose Lehmer rank is `coord`.
    pub fn const_from_coord(coord: u64) -> (r: Self)
        requires
            coord < factorial(15),
        ensures
            r.valid(),
            lehmer_rank(r.0@, 15) == coord,
    {
        Permutation(lehmer_decode(coord as u64))
    }
}

impl LehmerRank for Permutation<15> {
    type Code = u64;

    open spec fn code_in_range(code: u64) -> bool {
        code < factorial(15)
    }

    fn into_coord(self) -> (r: u64)
        ensures
            r == lehmer_rank(self.0@, 15),
    {
        self.const_into_coord()
    }

    fn from_coord(code: u64) -> (r: Self)
        ensures
            r.valid(),
            lehmer_rank(r.0@, 15) == code,
    {
        Self::const_from_coord(code)
    }
}

impl Permutation<16> {
    /// The Lehmer rank of this arrangement.
    pub fn const_into_coord(self) -> (r: u64)
        ensures
            r == lehmer_rank(self.0@, 16),
            r < factorial(16),
    {
        proof {
            reveal_with_fuel(factorial, 17);
        }
        lehmer_encode(&self.0)
    }

    /// The permutation whose Lehmer rank is `coord`.
    pub fn const_from_coord(coord: u64) -> (r: Self)
        requires
            coord < factorial(16),
        ensures
            r.valid(),
            lehmer_rank(r.0@, 16) == coord,
    {
        Permutation(lehmer_decode(coord as u64))
    }
}

impl LehmerRank for Permutation<16> {
    type Code = u64;

    open spec fn code_in_range(code: u64) -> bool {
        code < factorial(16)
    }

    fn into_coord(self) -> (r: u64)
        ensures
            r == lehmer_rank(self.0@, 16),
    {
        self.const_into_coord()
    }

    fn from_coord(code: u64) -> (r: Self)
        ensures
            r.valid(),
            lehmer_rank(r.0@, 16) == code,
    {
        Self::const_from_coord(code)
    }
}

impl Permutation<17> {
    /// The Lehmer rank of this arrangement.
    pub fn const_into_coord(self) -> (r: u64)
        ensures
            r == lehmer_rank(self.0@, 17),
            r < factorial(17),
    {
        proof {
            reveal_with_fuel(factorial, 18);
        }
        lehmer_encode(&self.0)
    }

    /// The permutation whose Lehmer rank is `coord`.
    pub fn const_from_coord(coord: u64) -> (r: Self)
        requires
            coord < factorial(17),
        ensures
            r.valid(),
            lehmer_rank(r.0@, 17) == coord,
    {
        Permutation(lehmer_decode(coord as u64))
    }
}

impl LehmerRank for Permutation<17> {
    type Code = u64;

    open spec fn code_in_range(code: u64) -> bool {
        code < factorial(17)
    }

    fn into_coord(self) -> (r: u64)
        ensures
            r == lehmer_rank(self.0@, 17),
    {
        self.const_into_coord()
    }

    fn from_coord(code: u64) -> (r: Self)
        ensures
            r.valid(),
            lehmer_rank(r.0@, 17) == code,
    {
        Self::const_from_coord(code)
    }
}

impl Permutation<18> {
    /// The Lehmer rank of this arrangement.
    pub fn const_into_coord(self) -> (r: u64)
        ensures
            r == lehmer_rank(self.0@, 18),
            r < factorial(18),
    {
        proof {
            reveal_with_fuel(factorial, 19);
        }
        lehmer_encode(&self.0)
    }

    /// The permutation whose Lehmer rank is `coord`.
    pub fn const_from_coord(coord: u64) -> (r: Self)
        requires
            coord < factorial(18),
        ensures
            r.valid(),
            lehmer_rank(r.0@, 18) == coord,
    {
        Permutation(lehmer_decode(coord as u64))
    }
}

impl LehmerRank for Permutation<18> {
    type Code = u64;

    open spec fn code_in_range(code: u64) -> bool {
        code < factorial(18)
    }

    fn into_coord(self) -> (r: u64)
        ensures
            r == lehmer_rank(self.0@, 18),
    {
        self.const_into_coord()
    }

    fn from_coord(code: u64) -> (r: Self)
        ensures
            r.valid(),
            lehmer_rank(r.0@, 18) == code,
    {
        Self::const_from_coord(code)
    }
}

impl Permutation<19> {
    /// The Lehmer rank of this arrangement.
    pub fn const_into_coord(self) -> (r: u64)
        ensures
            r == lehmer_rank(self.0@, 19),
            r < factorial(19),
    {
        proof {
            reveal_with_fuel(factorial, 20);
        }
        lehmer_encode(&self.0)
    }

    /// The permutation whose Lehmer rank is `coord`.
    pub fn const_from_coord(coord: u64) -> (r: Self)
        requires
            coord < factorial(19),
        ensures
            r.valid(),
            lehmer_rank(r.0@, 19) == coord,
    {
        Permutation(lehmer_decode(coord as u64))
    }
}

impl LehmerRank for Permutation<19> {
    type Code = u64;

    open spec fn code_in_range(code: u64) -> bool {
        code < factorial(19)
    }

    fn into_coord(self) -> (r: u64)
        ensures
            r == lehmer_rank(self.0@, 19),
    {
        self.const_into_coord()
    }

    fn from_coord(code: u64) -> (r: Self)
        ensures
            r.valid(),
            lehmer_rank(r.0@, 19) == code,
    {
        Self::const_from_coord(code)
    }
}

impl Permutation<20> {
    /// The Lehmer rank of this arrangement.
    pub fn const_into_coord(self) -> (r: u64)
        ensures
            r == lehmer_rank(self.0@, 20),
            r < factorial(20),
    {
        proof {
            reveal_with_fuel(factorial, 21);
        }
        lehmer_encode(&self.0)
    }

    /// The permutation whose Lehmer rank is `coord`.
    pub fn const_from_coord(coord: u64) -> (r: Self)
        requires
            coord < factorial(20),
        ensures
            r.valid(),
            lehmer_rank(r.0@, 20) == coord,
    {
        Permutation(lehmer_decode(coord as u64))
    }
}

impl LehmerRank for Permutation<20> {
    type Code = u64;

    open spec fn code_in_range(code: u64) -> bool {
        code < factorial(20)
    }

    fn into_coord(self) -> (r: u64)
        ensures
            r == lehmer_rank(self.0@, 20),
    {
        self.const_into_coord()
    }

    fn from_coord(code: u64) -> (r: Self)
        ensures
            r.valid(),
            lehmer_rank(r.0@, 20) == code,
    {
        Self::const_from_coord(code)
    }
}

} // verus!
