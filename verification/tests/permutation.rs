use kociemba::cube_ops::partial_reprs::edge_perm::EdgePerm;
use kociemba::permutation_math::permutation::Permutation;
use rand::SeedableRng;

#[test]
fn identity_leaves_array_unchanged() {
    let mut a = [10, 20, 30, 40];
    let p = Permutation::<4>::identity();
    p.apply_to(&mut a);
    assert_eq!(a, [10, 20, 30, 40]);

    let mut s = ['a', 'b', 'c'];
    Permutation::<3>::identity().apply_to(&mut s);
    assert_eq!(s, ['a', 'b', 'c']);
}

#[test]
fn small_ns() {
    let mut empty: [u8; 0] = [];
    Permutation::<0>::identity().apply_to(&mut empty);
    assert_eq!(empty, []);

    let mut single = [99u8; 1];
    Permutation::<1>::identity().apply_to(&mut single);
    assert_eq!(single, [99]);
}

#[test]
fn invert_3_cycle() {
    // cycle (0→2→1→0)
    let p = Permutation::<3>([2, 0, 1]);
    let inv = p.invert();
    // p then inv = identity
    let composed = p.then_apply(inv);
    assert_eq!(composed, Permutation::identity());

    // inv then p also identity
    assert_eq!(inv.then_apply(p), Permutation::identity());
}

#[test]
fn apply_to_matches_out_of_place() {
    let perm = Permutation::<5>([4, 2, 0, 1, 3]);
    let mut in_place = [0, 10, 20, 30, 40];
    perm.apply_to(&mut in_place);

    let mut out = [0; 5];
    for (i, o) in out.iter_mut().enumerate() {
        *o = [0, 10, 20, 30, 40][perm.0[i] as usize];
    }

    assert_eq!(in_place, out);
}

#[test]
fn double_invert_is_identity() {
    let perms = [
        Permutation::<4>([1, 3, 0, 2]),
        Permutation::<4>([3, 2, 1, 0]),
        Permutation::<4>([0, 1, 2, 3]),
    ];
    for &p in &perms {
        assert_eq!(p.invert().invert(), p);
    }
}

#[test]
fn then_apply_composes_in_order() {
    let a = Permutation::<4>([1, 2, 3, 0]);
    let b = Permutation::<4>([3, 2, 1, 0]);
    // slot i of the result holds what `a` held in slot `b[i]`
    assert_eq!(a.then_apply(b), Permutation([0, 3, 2, 1]));
}

#[test]
fn parity_counts_inversions() {
    assert!(!Permutation::<4>([0, 1, 2, 3]).is_odd());
    assert!(Permutation::<4>([1, 0, 2, 3]).is_odd());
    assert!(!Permutation::<3>([2, 0, 1]).is_odd());
    assert!(Permutation::<4>([3, 2, 1, 0]).is_odd() == false);
    assert!(Permutation::<5>([4, 3, 2, 1, 0]).is_odd() == false);
    assert!(Permutation::<2>([1, 0]).is_odd());
}

#[test]
fn from_array_checks_for_a_permutation() {
    assert!(Permutation::<3>::try_const_from_array([2, 0, 1]).is_ok());
    assert_eq!(Permutation::<3>::try_const_from_array([2, 2, 1]), Err([2, 2, 1]));
    assert_eq!(Permutation::<3>::try_const_from_array([0, 1, 3]), Err([0, 1, 3]));
    assert_eq!(Permutation::<3>::const_from_array([1, 2, 0]).const_into_array(), [1, 2, 0]);
}

#[test]
fn const_eq_compares_all_slots() {
    let a = Permutation::<4>([1, 3, 0, 2]);
    assert!(a.const_eq(Permutation([1, 3, 0, 2])));
    assert!(!a.const_eq(Permutation([3, 1, 0, 2])));
}

#[test]
fn basic_join_split() {
    let mut rng = rand::rngs::StdRng::seed_from_u64(42);

    for _ in 0..500 {
        let p: Permutation<12> = Permutation::random(&mut rng);

        let edge_perm = EdgePerm(p);

        let (g, ud, e) = edge_perm.split();

        let join = EdgePerm::join(g, ud, e);

        assert_eq!(edge_perm, join);
    }
}

#[test]
fn random_permutations_are_permutations() {
    let mut rng = rand::rngs::StdRng::seed_from_u64(7);
    for _ in 0..100 {
        let p: Permutation<8> = Permutation::random(&mut rng);
        let mut seen = [false; 8];
        for v in p.0 {
            assert!(!seen[v as usize]);
            seen[v as usize] = true;
        }
    }
    assert_eq!(Permutation::<5>::default(), Permutation([0, 1, 2, 3, 4]));
    let a: [u8; 3] = Permutation([2u8, 0, 1]).into();
    assert_eq!(a, [2, 0, 1]);
}

#[test]
fn unchecked_constructor_keeps_the_array() {
    let p = Permutation::const_from_array_unchecked([2u8, 0, 1]);
    assert_eq!(p.const_into_array(), [2, 0, 1]);
    assert_eq!(p, Permutation::const_from_array([2u8, 0, 1]));
}
