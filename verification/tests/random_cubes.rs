use kociemba::coords::{
    phase_1_cubies, phase_2_cubies, CornerOrientCoord, CornerPermCoord, EEdgePermCoord,
    EdgeGroupCoord, EdgeOrientCoord, UDEdgePermCoord,
};
use kociemba::moves::Move;
use kociemba::repr_cubie::ReprCube;
use kociemba::symmetries::SubGroupTransform;
use rand::{Rng, SeedableRng};

/// A random cube that face turns can reach: permutations are drawn until their parities
/// agree, then the flips and twists.
fn random_cube(rng: &mut rand_chacha::ChaCha8Rng) -> ReprCube {
    loop {
        if let Some(cube) = ReprCube::random_valid(rng, 64) {
            return cube;
        }
    }
}

#[test]
fn test_corner_orient_random() {
    let mut rng = rand_chacha::ChaCha8Rng::seed_from_u64(17);
    for i in 0..2187 {
        let a = i.into();
        let b = rng.random_range(0..2048).into();
        let c = rng.random_range(0..495).into();

        let cube = phase_1_cubies(a, b, c);
        assert_eq!(CornerOrientCoord::from_cubie(cube), a);
        assert_eq!(EdgeOrientCoord::from_cubie(cube), b);
        assert_eq!(EdgeGroupCoord::from_cubie(cube), c);
    }
}

#[test]
fn test_edge_orient_random() {
    let mut rng = rand_chacha::ChaCha8Rng::seed_from_u64(17);
    for i in 0..2048 {
        let a = rng.random_range(0..2187).into();
        let b = i.into();
        let c = rng.random_range(0..495).into();

        let cube = phase_1_cubies(a, b, c);
        assert_eq!(CornerOrientCoord::from_cubie(cube), a);
        assert_eq!(EdgeOrientCoord::from_cubie(cube), b);
        assert_eq!(EdgeGroupCoord::from_cubie(cube), c);
    }
}

#[test]
fn test_edge_group_random() {
    let mut rng = rand_chacha::ChaCha8Rng::seed_from_u64(17);
    for i in 0..495 {
        let a = rng.random_range(0..2187).into();
        let b = rng.random_range(0..2048).into();
        let c = i.into();

        let cube = phase_1_cubies(a, b, c);
        assert_eq!(CornerOrientCoord::from_cubie(cube), a);
        assert_eq!(EdgeOrientCoord::from_cubie(cube), b);
        assert_eq!(EdgeGroupCoord::from_cubie(cube), c);
    }
}

#[test]
fn test_corner_perm_random() {
    let mut rng = rand_chacha::ChaCha8Rng::seed_from_u64(17);
    for i in 0..40320 {
        let a = i.into();
        let b = rng.random_range(0..40320).into();
        let c = rng.random_range(0..24).into();

        let cube = phase_2_cubies(a, b, c);
        assert_eq!(CornerPermCoord::from_cubie(cube), a);
        assert_eq!(UDEdgePermCoord::from_cubie(cube), b);
        assert_eq!(EEdgePermCoord::from_cubie(cube), c);
    }
}

#[test]
fn test_ud_edge_perm_random() {
    let mut rng = rand_chacha::ChaCha8Rng::seed_from_u64(17);
    for i in 0..40320 {
        let a = rng.random_range(0..40320).into();
        let b = i.into();
        let c = rng.random_range(0..24).into();

        let cube = phase_2_cubies(a, b, c);
        assert_eq!(CornerPermCoord::from_cubie(cube), a);
        assert_eq!(UDEdgePermCoord::from_cubie(cube), b);
        assert_eq!(EEdgePermCoord::from_cubie(cube), c);
    }
}

#[test]
fn test_e_edge_perm_random() {
    let mut rng = rand_chacha::ChaCha8Rng::seed_from_u64(17);
    for i in 0..24 {
        let a = rng.random_range(0..40320).into();
        let b = rng.random_range(0..40320).into();
        let c = i.into();

        let cube = phase_2_cubies(a, b, c);
        assert_eq!(CornerPermCoord::from_cubie(cube), a);
        assert_eq!(UDEdgePermCoord::from_cubie(cube), b);
        assert_eq!(EEdgePermCoord::from_cubie(cube), c);
    }
}

#[test]
fn test_phase_1_cube() {
    let mut rng = rand_chacha::ChaCha8Rng::seed_from_u64(17);
    for _ in 0..10000 {
        let a = rng.random_range(0..2187).into();
        let b = rng.random_range(0..2048).into();
        let c = rng.random_range(0..495).into();
        let cube = phase_1_cubies(a, b, c);
        assert_eq!(a, CornerOrientCoord::from_cubie(cube));
        assert_eq!(b, EdgeOrientCoord::from_cubie(cube));
        assert_eq!(c, EdgeGroupCoord::from_cubie(cube));
    }
}

#[test]
fn test_phase_2_cube() {
    let mut rng = rand_chacha::ChaCha8Rng::seed_from_u64(17);
    for _ in 0..20000 {
        let a = rng.random_range(0..40320).into();
        let b = rng.random_range(0..40320).into();
        let c = rng.random_range(0..24).into();
        let cube = phase_2_cubies(a, b, c);
        if !cube.is_valid() {
            continue;
        }
        assert_eq!(0, CornerOrientCoord::from_cubie(cube).inner());
        assert_eq!(0, EdgeOrientCoord::from_cubie(cube).inner());
        assert_eq!(0, EdgeGroupCoord::from_cubie(cube).inner());
        assert_eq!(a, CornerPermCoord::from_cubie(cube));
        assert_eq!(b, UDEdgePermCoord::from_cubie(cube));
        assert_eq!(c, EEdgePermCoord::from_cubie(cube));
    }
}

#[test]
fn test_random_moves() {
    let mut rng = rand_chacha::ChaCha8Rng::seed_from_u64(17);
    for t in SubGroupTransform::all_iter() {
        for _ in 0..50 {
            let mut cubea = ReprCube::solved();
            let mut cubeb = ReprCube::solved();

            for _ in 0..20 {
                let mv = ReprCube::from_move(Move::random(&mut rng));

                cubea = cubea.then_apply(mv);
                cubeb = cubeb.then_apply(mv.conjugate_by_subgroup_transform(t));
            }

            cubea = cubea.conjugate_by_subgroup_transform(t);

            assert_eq!(cubea, cubeb);
        }
    }
}

#[test]
fn test_inversion_random() {
    let mut rng = rand_chacha::ChaCha8Rng::seed_from_u64(17);

    for _ in 0..2000 {
        let cube = random_cube(&mut rng);
        assert!(cube.is_valid());
        assert_eq!(ReprCube::solved(), cube.then_apply(cube.inverse()))
    }
}

#[test]
fn from_draws_reads_codes_lowest_digit_first() {
    let solved = ReprCube::solved();
    let c = ReprCube::from_draws(solved.edge_perm, solved.corner_perm, 1, 1);
    assert_eq!(c.edge_orient.0, [1, 0, 0, 0, 0, 0, 0, 0, 0, 0, 0, 1]);
    assert_eq!(c.corner_orient.0, [1, 0, 0, 0, 0, 0, 0, 2]);
    assert!(c.is_valid());
    let d = ReprCube::from_draws(solved.edge_perm, solved.corner_perm, 2047, 2186);
    assert_eq!(d.edge_orient.0, [1, 1, 1, 1, 1, 1, 1, 1, 1, 1, 1, 1]);
    assert_eq!(d.corner_orient.0, [2, 2, 2, 2, 2, 2, 2, 1]);
    assert!(d.is_valid());
}

#[test]
fn permutations_from_draws_keeps_equal_parities() {
    let (e, c) = ReprCube::permutations_from_draws(0, 0).unwrap();
    assert_eq!(e.const_into_array(), [0, 1, 2, 3, 4, 5, 6, 7, 8, 9, 10, 11]);
    assert_eq!(c.const_into_array(), [0, 1, 2, 3, 4, 5, 6, 7]);
    assert!(ReprCube::permutations_from_draws(1, 0).is_none());
    assert!(ReprCube::permutations_from_draws(0, 1).is_none());
    let (e, c) = ReprCube::permutations_from_draws(1, 1).unwrap();
    assert_eq!(kociemba::permutation_coord::permutation_coord_12(&e.const_into_array()), 1);
    assert_eq!(kociemba::permutation_coord::permutation_coord_8(&c.const_into_array()), 1);
    let (e, c) = ReprCube::permutations_from_draws(479_001_599, 40_319).unwrap();
    assert_eq!(e.const_into_array(), [11, 10, 9, 8, 7, 6, 5, 4, 3, 2, 1, 0]);
    assert_eq!(c.const_into_array(), [7, 6, 5, 4, 3, 2, 1, 0]);
}

#[test]
fn random_valid_gives_valid_cubes_and_none_without_attempts() {
    let mut rng = rand_chacha::ChaCha8Rng::seed_from_u64(5);
    assert!(ReprCube::random_valid(&mut rng, 0).is_none());
    for _ in 0..50 {
        let cube = ReprCube::random_valid(&mut rng, 100).expect("a draw with equal parities");
        assert!(cube.is_valid());
    }
}
