use vstd::prelude::*;
use vstd::set_lib::{lemma_int_range, lemma_map_size, lemma_subset_equality, set_int_range};

verus! {

/// `s` lists each index of `0..s.len()` exactly once.
pub open spec fn is_permutation(s: Seq<u8>) -> bool {
    &&& forall|i: int| 0 <= i < s.len() ==> (#[trigger] s[i] as int) < s.len()
    &&& forall|i: int, j: int|
        0 <= i < s.len() && 0 <= j < s.len() && i != j ==> #[trigger] s[i] != #[trigger] s[j]
}

/// The identity arrangement `0, 1, .., n-1`.
pub open spec fn identity_seq(n: nat) -> Seq<u8> {
    Seq::new(n, |i: int| i as u8)
}

/// `a` followed by `b`: slot `i` receives what `a` held in slot `b[i]`.
pub open spec fn compose(a: Seq<u8>, b: Seq<u8>) -> Seq<u8> {
    Seq::new(b.len(), |i: int| a[b[i] as int])
}

/// Number of elements of `s` strictly greater than `v`.
pub open spec fn count_greater(s: Seq<u8>, v: u8) -> nat
    decreases s.len(),
{
    if s.len() == 0 {
        0
    } else {
        count_greater(s.drop_last(), v) + if s.last() > v {
            1nat
        } else {
            0nat
        }
    }
}

/// The number of slots before `i` that hold a larger element than slot `i`.
pub open spec fn lehmer_digit(s: Seq<u8>, i: int) -> nat {
    count_greater(s.take(i), s[i])
}

/// Number of inversions among the first `n` slots.
pub open spec fn inversions(s: Seq<u8>, n: int) -> nat
    decreases n,
{
    if n <= 0 {
        0
    } else {
        inversions(s, n - 1) + lehmer_digit(s, n - 1)
    }
}

/// A permutation is odd when it has an odd number of inversions.
pub open spec fn is_odd_seq(s: Seq<u8>) -> bool {
    inversions(s, s.len() as int) % 2 == 1
}

/// The arrangement that undoes `s`: slot `v` names the slot of `s` that holds `v`.
pub open spec fn inverse_seq(s: Seq<u8>) -> Seq<u8> {
    Seq::new(s.len(), |v: int| (choose|i: int| 0 <= i < s.len() && s[i] as int == v) as u8)
}

/// Every index `v < s.len()` occurs in a permutation.
pub proof fn lemma_permutation_onto(s: Seq<u8>, v: int)
    requires
        is_permutation(s),
        0 <= v < s.len(),
    ensures
        exists|i: int| 0 <= i < s.len() && s[i] as int == v,
{
    let n = s.len() as int;
    let dom = set_int_range(0, n);
    let f = |i: int| s[i] as int;
    lemma_int_range(0, n);
    let img = dom.map(f);
    assert(vstd::relations::injective_on(f, dom)) by {
        assert forall|a: int, b: int| dom.contains(a) && dom.contains(b) && #[trigger] f(a) == #[trigger] f(b) implies a == b by {
            if a != b {
                assert(s[a] != s[b]);
            }
        }
    }
    lemma_map_size(dom, img, f);
    assert(img.subset_of(dom)) by {
        assert forall|x: int| img.contains(x) implies dom.contains(x) by {
            let i = choose|i: int| dom.contains(i) && f(i) == x;
            assert((s[i] as int) < n);
        }
    }
    lemma_subset_equality(img, dom);
    assert(dom.contains(v));
    assert(img.contains(v));
    let i = choose|i: int| dom.contains(i) && f(i) == v;
    assert(0 <= i < n && s[i] as int == v);
}

/// What `inverse_seq` holds: it is a permutation that undoes `s` on both sides.
pub proof fn lemma_inverse_seq(s: Seq<u8>)
    requires
        is_permutation(s),
    ensures
        inverse_seq(s).len() == s.len(),
        is_permutation(inverse_seq(s)),
        forall|i: int| 0 <= i < s.len() ==> inverse_seq(s)[#[trigger] s[i] as int] == i,
        forall|v: int| 0 <= v < s.len() ==> s[#[trigger] inverse_seq(s)[v] as int] == v,
{
    lemma_permutation_len(s);
    let n = s.len() as int;
    let q = inverse_seq(s);
    assert forall|v: int| 0 <= v < n implies s[#[trigger] q[v] as int] == v && (q[v] as int) < n by {
        lemma_permutation_onto(s, v);
        let i = choose|i: int| 0 <= i < n && s[i] as int == v;
        assert(0 <= i < 256);
    }
    assert forall|i: int| 0 <= i < n implies q[#[trigger] s[i] as int] == i by {
        let v = s[i] as int;
        assert(s[q[v] as int] == v);
        if q[v] as int != i {
            assert(s[q[v] as int] != s[i]);
        }
    }
    assert forall|a: int, b: int| 0 <= a < n && 0 <= b < n && a != b implies #[trigger] q[a] != #[trigger] q[b] by {
        assert(s[q[a] as int] == a);
        assert(s[q[b] as int] == b);
    }
}

/// A permutation of `u8` values has at most 256 slots.
pub proof fn lemma_permutation_len(s: Seq<u8>)
    requires
        is_permutation(s),
    ensures
        s.len() <= 256,
{
    let n = s.len() as int;
    let dom = set_int_range(0, n);
    let f = |i: int| s[i] as int;
    lemma_int_range(0, n);
    lemma_int_range(0, 256);
    let img = dom.map(f);
    assert(vstd::relations::injective_on(f, dom)) by {
        assert forall|a: int, b: int| dom.contains(a) && dom.contains(b) && #[trigger] f(a) == #[trigger] f(b) implies a == b by {
            if a != b {
                assert(s[a] != s[b]);
            }
        }
    }
    lemma_map_size(dom, img, f);
    assert(img.subset_of(set_int_range(0, 256))) by {
        assert forall|x: int| img.contains(x) implies set_int_range(0, 256).contains(x) by {
            let i = choose|i: int| dom.contains(i) && f(i) == x;
        }
    }
    vstd::set_lib::lemma_len_subset(img, set_int_range(0, 256));
}

/// A permutation, represented by which element of the identity permutation (0, 1, 2, 3, .., N-1)
/// resides in the slot at each index, after the permutation is applied.
#[derive(Clone, Copy, PartialEq, Eq, Hash, Debug)]
pub struct Permutation<const N: usize>(pub [u8; N]);

impl<const N: usize> Default for Permutation<N> {
    /// The identity permutation.
    fn default() -> (r: Self)
        ensures
            r.0@ == identity_seq(N as nat),
    {
        Self::identity()
    }
}

impl<const N: usize> From<Permutation<N>> for [u8; N] {
    fn from(val: Permutation<N>) -> (r: Self) {
        val.const_into_array()
    }
}

impl<const N: usize> vstd::std_specs::convert::FromSpecImpl<Permutation<N>> for [u8; N] {
    open spec fn obeys_from_spec() -> bool {
        true
    }

    open spec fn from_spec(v: Permutation<N>) -> Self {
        v.0
    }
}

impl<const N: usize> Permutation<N> {
    /// The array is a permutation of `0..N`.
    pub open spec fn valid(self) -> bool {
        is_permutation(self.0@)
    }

    /// The identity permutation (each slot holds its index, cut to a byte).
    pub fn identity() -> (r: Self)
        ensures
            r.0@ == identity_seq(N as nat),
            N <= 256 ==> r.valid(),
    {
        let mut out = [0u8; N];
        let mut i: usize = 0;
        while i < N
            invariant
                i <= N,
                out@.len() == N,
                forall|k: int| 0 <= k < i ==> out@[k] == k as u8,
            decreases N - i,
        {
            out[i] = i as u8;
            i += 1;
        }
        assert(out@ =~= identity_seq(N as nat));
        Permutation(out)
    }

    fn is_valid(array: [u8; N]) -> (r: bool)
        ensures
            r == is_permutation(array@),
    {
        let mut seen = [false; N];
        let mut i: usize = 0;
        while i < N
            invariant
                i <= N,
                seen@.len() == N,
                forall|k: int| 0 <= k < i ==> (#[trigger] array@[k] as int) < N,
                forall|a: int, b: int|
                    0 <= a < i && 0 <= b < i && a != b ==> #[trigger] array@[a] != #[trigger] array@[b],
                forall|v: int| 0 <= v < N ==> (seen@[v] <==> exists|k: int| 0 <= k < i && array@[k] == v),
            decreases N - i,
        {
            let entry = array[i] as usize;
            if entry >= N {
                return false;
            }
            if seen[entry] {
                return false;
            }
            seen[entry] = true;
            i += 1;
        }
        true
    }

    pub fn const_into_array(self) -> (r: [u8; N])
        ensures
            r == self.0,
    {
        self.0
    }

    /// Accepts the array exactly when it is a permutation of `0..N`; otherwise hands it back.
    pub fn try_const_from_array(array: [u8; N]) -> (r: Result<Self, [u8; N]>)
        ensures
            match r {
                Ok(p) => is_permutation(array@) && p.0 == array,
                Err(a) => !is_permutation(array@) && a == array,
            },
    {
        if Self::is_valid(array) {
            Ok(Self(array))
        } else {
            Err(array)
        }
    }

    /// The permutation with slots `array`, which must be a permutation of `0..N`; nothing is
    /// checked at run time.
    pub fn const_from_array_unchecked(array: [u8; N]) -> (r: Self)
        requires
            is_permutation(array@),
        ensures
            r.0 == array,
    {
        Self(array)
    }

    pub fn const_from_array(array: [u8; N]) -> (r: Self)
        requires
            is_permutation(array@),
        ensures
            r.0 == array,
    {
        match Self::try_const_from_array(array) {
            Ok(val) => val,
            Err(_) => {
                proof {
                    assert(false);
                }
                Self(array)
            },
        }
    }

    /// Apply this permutation to the array `other` in place: afterwards slot `i` holds what
    /// slot `self[i]` held before.
    pub fn apply_to<T>(self, other: &mut [T; N])
        requires
            self.valid(),
        ensures
            final(other)@.len() == N,
            forall|i: int| 0 <= i < N ==> final(other)@[i] == old(other)@[self.0@[i] as int],
    {
        proof {
            lemma_permutation_len(self.0@);
        }
        let ghost orig = other@;
        // `at[k]`: the starting slot of the element now in slot `k`; `loc` is its inverse.
        let mut at = Self::identity();
        let mut loc = Self::identity();
        let mut i: usize = 0;
        while i < N
            invariant
                i <= N <= 256,
                self.valid(),
                orig.len() == N,
                other@.len() == N,
                at.valid(),
                loc.valid(),
                forall|k: int| 0 <= k < N ==> other@[k] == orig[#[trigger] at.0@[k] as int],
                forall|k: int| 0 <= k < N ==> loc.0@[#[trigger] at.0@[k] as int] == k,
                forall|v: int| 0 <= v < N ==> at.0@[#[trigger] loc.0@[v] as int] == v,
                forall|k: int| 0 <= k < i ==> at.0@[k] == #[trigger] self.0@[k],
            decreases N - i,
        {
            let j = self.0[i];
            let s = loc.0[j as usize];
            proof {
                if (s as int) < (i as int) {
                    assert(at.0@[s as int] == j);
                    assert(self.0@[s as int] == j);
                    assert(self.0@[s as int] == self.0@[i as int]);
                }
            }
            swap_slots(other, i, s as usize);
            let a = at.0[i];
            let ghost at0 = at.0@;
            let ghost loc0 = loc.0@;
            at.0[i] = j;
            at.0[s as usize] = a;
            loc.0[j as usize] = i as u8;
            loc.0[a as usize] = s;
            proof {
                assert(at0[s as int] == j);
                assert(loc0[a as int] == i);
                assert forall|k: int| 0 <= k < N implies loc.0@[#[trigger] at.0@[k] as int] == k by {
                    if k != i && k != s {
                        assert(at0[k] != j);
                        assert(at0[k] != a);
                    }
                }
                assert forall|v: int| 0 <= v < N implies at.0@[#[trigger] loc.0@[v] as int] == v by {
                    if v != j && v != a {
                        assert(loc0[v] != i);
                        assert(loc0[v] != s);
                    }
                }
                assert forall|k1: int, k2: int| 0 <= k1 < N && 0 <= k2 < N && k1 != k2 implies #[trigger] at.0@[k1] != #[trigger] at.0@[k2] by {
                    assert(loc.0@[at.0@[k1] as int] == k1);
                    assert(loc.0@[at.0@[k2] as int] == k2);
                }
                assert forall|k1: int, k2: int| 0 <= k1 < N && 0 <= k2 < N && k1 != k2 implies #[trigger] loc.0@[k1] != #[trigger] loc.0@[k2] by {
                    assert(at.0@[loc.0@[k1] as int] == k1);
                    assert(at.0@[loc.0@[k2] as int] == k2);
                }
                assert forall|k: int| 0 <= k < N implies (#[trigger] at.0@[k] as int) < N by {
                    if k != i && k != s {
                        assert(at.0@[k] == at0[k]);
                    }
                }
                assert forall|k: int| 0 <= k < N implies (#[trigger] loc.0@[k] as int) < N by {
                    if k != j && k != a {
                        assert(loc.0@[k] == loc0[k]);
                    }
                }
            }
            i += 1;
        }
    }

    /// Whether the permutation is odd, i.e. has an odd number of inversions.
    pub fn is_odd(self) -> (r: bool)
        ensures
            r == is_odd_seq(self.0@),
    {
        let mut parity: bool = false;
        let mut i: usize = 0;
        while i < N
            invariant
                i <= N,
                self.0@.len() == N,
                parity == (inversions(self.0@, i as int) % 2 == 1),
            decreases N - i,
        {
            let mut j: usize = 0;
            while j < i
                invariant
                    j <= i < N,
                    self.0@.len() == N,
                    parity == ((inversions(self.0@, i as int) + count_greater(
                        self.0@.take(j as int),
                        self.0@[i as int],
                    )) % 2 == 1),
                decreases i - j,
            {
                proof {
                    assert(self.0@.take(j + 1).drop_last() =~= self.0@.take(j as int));
                }
                if self.0[j] > self.0[i] {
                    parity = !parity;
                }
                j += 1;
            }
            i += 1;
        }
        parity
    }

    /// Return the permutation that first does `self`, then `other`.
    pub fn then_apply(self, other: Self) -> (r: Self)
        requires
            other.valid(),
        ensures
            r.0@ == compose(self.0@, other.0@),
            self.valid() ==> r.valid(),
    {
        let mut out = self.0;
        let mut i: usize = 0;
        while i < N
            invariant
                i <= N,
                self.0@.len() == N,
                other.valid(),
                out@.len() == N,
                forall|k: int| 0 <= k < i ==> out@[k] == self.0@[other.0@[k] as int],
            decreases N - i,
        {
            out[i] = self.0[other.0[i] as usize];
            i += 1;
        }
        assert(out@ =~= compose(self.0@, other.0@));
        let r = Permutation(out);
        assert(self.valid() ==> r.valid()) by {
            if self.valid() {
                assert forall|a: int, b: int| 0 <= a < N && 0 <= b < N && a != b implies #[trigger] out@[a] != #[trigger] out@[b] by {
                    assert(other.0@[a] != other.0@[b]);
                }
            }
        }
        r
    }

    /// Invert this permutation: find the permutation that undoes `self`.
    pub fn invert(self) -> (r: Self)
        requires
            self.valid(),
        ensures
            r.valid(),
            r.0@ == inverse_seq(self.0@),
            forall|i: int| 0 <= i < N ==> r.0@[#[trigger] self.0@[i] as int] == i,
            forall|v: int| 0 <= v < N ==> self.0@[#[trigger] r.0@[v] as int] == v,
    {
        proof {
            lemma_permutation_len(self.0@);
        }
        let mut inv = [0u8; N];
        let mut i: usize = 0;
        while i < N
            invariant
                i <= N <= 256,
                self.valid(),
                inv@.len() == N,
                forall|k: int| 0 <= k < i ==> inv@[#[trigger] self.0@[k] as int] == k,
            decreases N - i,
        {
            proof {
                assert forall|k: int| 0 <= k < i implies inv@.update(self.0@[i as int] as int, i as u8)[#[trigger] self.0@[k] as int] == k by {
                    assert(self.0@[k] != self.0@[i as int]);
                }
            }
            inv[self.0[i] as usize] = i as u8;
            i += 1;
        }
        proof {
            assert forall|v: int| 0 <= v < N implies self.0@[#[trigger] inv@[v] as int] == v && (inv@[v] as int) < N by {
                lemma_permutation_onto(self.0@, v);
                let k = choose|k: int| 0 <= k < N && self.0@[k] as int == v;
                assert(inv@[self.0@[k] as int] == k);
            }
            assert forall|a: int, b: int| 0 <= a < N && 0 <= b < N && a != b implies #[trigger] inv@[a] != #[trigger] inv@[b] by {
                assert(self.0@[inv@[a] as int] == a);
                assert(self.0@[inv@[b] as int] == b);
            }
            lemma_inverse_seq(self.0@);
            assert forall|v: int| 0 <= v < N implies inv@[v] == #[trigger] inverse_seq(self.0@)[v] by {
                assert(self.0@[inverse_seq(self.0@)[v] as int] == v);
                assert(self.0@[inv@[v] as int] == v);
                if inv@[v] != inverse_seq(self.0@)[v] {
                    assert(self.0@[inv@[v] as int] != self.0@[inverse_seq(self.0@)[v] as int]);
                }
            }
            assert(inv@ =~= inverse_seq(self.0@));
        }
        Permutation(inv)
    }

    /// `self` and `other` agree on every slot after the first.
    pub fn const_eq(self, other: Self) -> (r: bool)
        ensures
            r <==> forall|i: int| 1 <= i < N ==> self.0@[i] == other.0@[i],
            self.valid() && other.valid() ==> (r <==> self == other),
    {
        let mut i: usize = 1;
        while i < N
            invariant
                1 <= i,
                N >= 1 ==> i <= N,
                forall|k: int| 1 <= k < i && k < N ==> self.0@[k] == other.0@[k],
            decreases N - i,
        {
            if self.0[i] != other.0[i] {
                return false;
            }
            i += 1;
        }
        proof {
            if self.valid() && other.valid() && N > 0 {
                lemma_agree_after_first(self.0@, other.0@);
                assert(self.0@ =~= other.0@);
                assert(self.0 =~= other.0);
            }
            if N == 0 {
                assert(self.0 =~= other.0);
            }
        }
        true
    }
}

/// `<[T]>::swap` on an array: exchanges the elements in slots `i` and `j`.
#[verifier::external_body]
fn swap_slots<T, const N: usize>(a: &mut [T; N], i: usize, j: usize)
    requires
        i < N,
        j < N,
    ensures
        final(a)@ == old(a)@.update(i as int, old(a)@[j as int]).update(j as int, old(a)@[i as int]),
{
    a.swap(i, j);
}

/// Two permutations that agree on every slot but the first agree on the first one too.
proof fn lemma_agree_after_first(a: Seq<u8>, b: Seq<u8>)
    requires
        is_permutation(a),
        is_permutation(b),
        a.len() == b.len(),
        a.len() > 0,
        forall|i: int| 1 <= i < a.len() ==> a[i] == b[i],
    ensures
        a[0] == b[0],
{
    lemma_permutation_onto(b, a[0] as int);
    let k = choose|k: int| 0 <= k < b.len() && b[k] as int == a[0] as int;
    if k != 0 {
        assert(a[k] == b[k]);
        assert(a[k] == a[0]);
    }
}

} // verus!

verus! {

/// Composition of arrangements is associative.
pub proof fn law_compose_associative(a: Seq<u8>, b: Seq<u8>, c: Seq<u8>)
    requires
        is_permutation(a),
        is_permutation(b),
        is_permutation(c),
        a.len() == b.len() == c.len(),
    ensures
        compose(compose(a, b), c) == compose(a, compose(b, c)),
{
    assert(compose(compose(a, b), c) =~= compose(a, compose(b, c)));
}

/// The identity is neutral on both sides of composition.
pub proof fn law_compose_identity(p: Seq<u8>)
    requires
        is_permutation(p),
    ensures
        compose(p, identity_seq(p.len())) == p,
        compose(identity_seq(p.len()), p) == p,
{
    lemma_permutation_len(p);
    assert(compose(p, identity_seq(p.len())) =~= p);
    assert(compose(identity_seq(p.len()), p) =~= p);
}

/// A permutation composed with its inverse, in either order, is the identity.
pub proof fn law_inverse_undoes(p: Seq<u8>)
    requires
        is_permutation(p),
    ensures
        compose(p, inverse_seq(p)) == identity_seq(p.len()),
        compose(inverse_seq(p), p) == identity_seq(p.len()),
{
    lemma_inverse_seq(p);
    lemma_permutation_len(p);
    assert(compose(p, inverse_seq(p)) =~= identity_seq(p.len()));
    assert(compose(inverse_seq(p), p) =~= identity_seq(p.len()));
}

/// Inverting twice gives the permutation back.
pub proof fn law_inverse_involution(p: Seq<u8>)
    requires
        is_permutation(p),
    ensures
        inverse_seq(inverse_seq(p)) == p,
{
    lemma_inverse_seq(p);
    let q = inverse_seq(p);
    lemma_inverse_seq(q);
    assert forall|i: int| 0 <= i < p.len() implies inverse_seq(q)[i] == p[i] by {
        let v = p[i] as int;
        assert(q[v] == i);
        assert(inverse_seq(q)[q[v] as int] == v);
    }
    assert(inverse_seq(q) =~= p);
}

/// Composition keeps arrangements permutations.
pub proof fn lemma_compose_permutation(a: Seq<u8>, b: Seq<u8>)
    requires
        is_permutation(a),
        is_permutation(b),
        a.len() == b.len(),
    ensures
        is_permutation(compose(a, b)),
{
    let c = compose(a, b);
    assert forall|i: int, j: int| 0 <= i < c.len() && 0 <= j < c.len() && i != j implies #[trigger] c[i] != #[trigger] c[j] by {
        assert(b[i] != b[j]);
    }
}

} // verus!

verus! {

/// `count_greater` counts the slots that hold a larger value.
pub proof fn lemma_count_greater_set(t: Seq<u8>, v: u8, n: int)
    requires
        0 <= n <= t.len(),
    ensures
        Set::new(|i: int| 0 <= i < n && t[i] > v).finite(),
        count_greater(t.take(n), v) == Set::new(|i: int| 0 <= i < n && t[i] > v).len(),
    decreases n,
{
    let cur = Set::new(|i: int| 0 <= i < n && t[i] > v);
    if n == 0 {
        assert(t.take(0) =~= Seq::<u8>::empty());
        assert(cur =~= Set::<int>::empty());
    } else {
        lemma_count_greater_set(t, v, n - 1);
        let prev = Set::new(|i: int| 0 <= i < n - 1 && t[i] > v);
        assert(t.take(n).drop_last() =~= t.take(n - 1));
        if t[n - 1] > v {
            assert(cur =~= prev.insert(n - 1));
            assert(!prev.contains(n - 1));
        } else {
            assert(cur =~= prev);
        }
    }
}

/// In a permutation of `0..n`, exactly `n - 1 - v` slots hold a value above `v`.
pub proof fn lemma_permutation_count_greater(s: Seq<u8>, v: u8)
    requires
        is_permutation(s),
        (v as int) < s.len(),
    ensures
        count_greater(s, v) == s.len() - 1 - v,
{
    let n = s.len() as int;
    lemma_count_greater_set(s, v, n);
    assert(s.take(n) =~= s);
    let big = Set::new(|i: int| 0 <= i < n && s[i] > v);
    let f = |i: int| s[i] as int;
    let target = set_int_range(v + 1, n);
    lemma_int_range(v + 1, n);
    assert(vstd::relations::injective_on(f, big)) by {
        assert forall|a: int, b: int| big.contains(a) && big.contains(b) && #[trigger] f(a) == #[trigger] f(b) implies a == b by {
            if a != b {
                assert(s[a] != s[b]);
            }
        }
    }
    assert(big.map(f) =~= target) by {
        assert forall|x: int| big.map(f).contains(x) implies target.contains(x) by {
            let i = choose|i: int| big.contains(i) && f(i) == x;
        }
        assert forall|x: int| target.contains(x) implies big.map(f).contains(x) by {
            lemma_permutation_onto(s, x);
            let i = choose|i: int| 0 <= i < n && s[i] as int == x;
            assert(big.contains(i) && f(i) == x);
        }
    }
    lemma_map_size(big, target, f);
}

} // verus!

