use kociemba::moves::Move;
use kociemba::moves::Move::{
    B1, B2, B3, D1, D2, D3, F1, F2, F3, L1, L2, L3, R1, R2, R3, U1, U2, U3,
};
use kociemba::repr_cubie::ReprCube;
use kociemba::symmetries::SubGroupTransform;

fn mv(m: Move) -> ReprCube {
    ReprCube::from_move(m)
}

/// The solved cube followed by each move in turn.
fn cube(moves: &[Move]) -> ReprCube {
    let mut c = ReprCube::solved();
    for &m in moves {
        c = c.then_apply(mv(m));
    }
    c
}

fn conj(m: Move, t: u8) -> ReprCube {
    mv(m).conjugate_by_subgroup_transform(SubGroupTransform(t))
}

#[test]
fn test_lr2() {
    assert_eq!(mv(U1), conj(U3, 1));
    assert_eq!(mv(U2), conj(U2, 1));
    assert_eq!(mv(U3), conj(U1, 1));
    assert_eq!(mv(D1), conj(D3, 1));
    assert_eq!(mv(D2), conj(D2, 1));
    assert_eq!(mv(D3), conj(D1, 1));
    assert_eq!(mv(F1), conj(F3, 1));
    assert_eq!(mv(F2), conj(F2, 1));
    assert_eq!(mv(F3), conj(F1, 1));
    assert_eq!(mv(B1), conj(B3, 1));
    assert_eq!(mv(B2), conj(B2, 1));
    assert_eq!(mv(B3), conj(B1, 1));
    assert_eq!(mv(R1), conj(L3, 1));
    assert_eq!(mv(R2), conj(L2, 1));
    assert_eq!(mv(R3), conj(L1, 1));
    assert_eq!(mv(L1), conj(R3, 1));
    assert_eq!(mv(L2), conj(R2, 1));
    assert_eq!(mv(L3), conj(R1, 1));
}

#[test]
fn test_f2() {
    assert_eq!(mv(U1), conj(D1, 8));
    assert_eq!(mv(U2), conj(D2, 8));
    assert_eq!(mv(U3), conj(D3, 8));
    assert_eq!(mv(D1), conj(U1, 8));
    assert_eq!(mv(D2), conj(U2, 8));
    assert_eq!(mv(D3), conj(U3, 8));
    assert_eq!(mv(F1), conj(F1, 8));
    assert_eq!(mv(F2), conj(F2, 8));
    assert_eq!(mv(F3), conj(F3, 8));
    assert_eq!(mv(B1), conj(B1, 8));
    assert_eq!(mv(B2), conj(B2, 8));
    assert_eq!(mv(B3), conj(B3, 8));
    assert_eq!(mv(R1), conj(L1, 8));
    assert_eq!(mv(R2), conj(L2, 8));
    assert_eq!(mv(R3), conj(L3, 8));
    assert_eq!(mv(L1), conj(R1, 8));
    assert_eq!(mv(L2), conj(R2, 8));
    assert_eq!(mv(L3), conj(R3, 8));
}

#[test]
fn test_u4() {
    assert_eq!(mv(U1), conj(U1, 2));
    assert_eq!(mv(U2), conj(U2, 2));
    assert_eq!(mv(U3), conj(U3, 2));
    assert_eq!(mv(D1), conj(D1, 2));
    assert_eq!(mv(D2), conj(D2, 2));
    assert_eq!(mv(D3), conj(D3, 2));
    assert_eq!(mv(F1), conj(R1, 2));
    assert_eq!(mv(F2), conj(R2, 2));
    assert_eq!(mv(F3), conj(R3, 2));
    assert_eq!(mv(B1), conj(L1, 2));
    assert_eq!(mv(B2), conj(L2, 2));
    assert_eq!(mv(B3), conj(L3, 2));
    assert_eq!(mv(R1), conj(B1, 2));
    assert_eq!(mv(R2), conj(B2, 2));
    assert_eq!(mv(R3), conj(B3, 2));
    assert_eq!(mv(L1), conj(F1, 2));
    assert_eq!(mv(L2), conj(F2, 2));
    assert_eq!(mv(L3), conj(F3, 2));
}

#[test]
fn superflip() {
    let superflip = cube(&[
        U1, R2, F1, B1, R1, B2, R1, U2, L1, B2, R1, U3, D3, R2, F1, R3, L1, B2, U2, F2,
    ]);
    let solved = ReprCube::solved();

    assert_eq!(superflip.corner_perm, solved.corner_perm);
    assert_eq!(superflip.edge_perm, solved.edge_perm);
    assert_eq!(superflip.corner_orient, solved.corner_orient);

    assert_eq!(superflip.edge_orient.0, [1, 1, 1, 1, 1, 1, 1, 1, 1, 1, 1, 1])
}

#[test]
fn move_entries() {
    let solved = ReprCube::solved();
    for e in mv(Move::R1).phase_1_move_table_entry_cubes() {
        if e == solved {
            println!("Solved");
        } else {
            match Move::try_from_cube(e) {
                Ok(m) => println!("{}", m.notation()),
                Err(e) => println!("{e:?}"),
            }
        }
    }
}

#[test]
fn repr_cubie_test_all_moves() {
    let mut c = ReprCube::default();
    for face in [[U1, U2, U3, U2], [D1, D2, D3, D2], [F1, F2, F3, F2], [B1, B2, B3, B2], [R1, R2, R3, R2], [L1, L2, L3, L2]] {
        for m in face {
            c = c.then_apply(mv(m));
        }
        assert!(c.is_valid());
        assert!(c.is_solved());
    }
}

#[test]
fn repr_cubie_sexy_move() {
    let mut c = ReprCube::default();

    for _ in 0..6 {
        c = c.then_apply(cube(&[U1, F1, U3, F3]));
    }

    assert!(c.is_valid());
    assert!(c.is_solved());
}

#[test]
fn hundred_thousand_moves_simd() {
    let block = [
        F1, R1, F3, U1, B2, L3, D3, R2, L1, B2, F3, D1, U2, R1, B1, U3, B3, D1, F3, U2, F3, R1,
        U1, R3, L2, U1, L2, D3, L2, D2, F2, D1, F1, R1, F3, U1, B2, L3, D3, R2, L2, L3, B2, F3,
        D1, U2, R1, B1, U3, B3, D1, F3, U1, U1, F3, R1, U1, R3, L2, U1, L2, D3, L2, D2, F2, D1,
        F1, R1, F3, U1, B2, L3, D3, R2, L1, B2, F2, F1, D1, U2, R1, B1, U3, B3, D1, F3, U2, F3,
        R1, U1, R3, L2, U1, L2, D3, L1, L1, D2, F2, D1,
    ];
    let mut c = ReprCube::default();

    for _ in 0..1000 {
        for &m in &block {
            c = c.then_apply(mv(m));
        }
    }

    assert!(c.is_valid());
    assert!(c.is_solved());
}

#[test]
fn repr_cubie_test_apply() {
    let c = cube(&[R1, U1, R3, U3]);

    let mut c2 = ReprCube::default();

    for _ in 0..6 {
        c2 = c2.then_apply(c);
    }

    assert!(c2.is_solved());
}

#[test]
fn repr_cubie_test_2_move_apply() {
    let c = cube(&[R1, U1]);

    let mut c2 = ReprCube::default();
    c2 = c2.then_apply(c);
    let mut count = 1;
    while !c2.is_solved() {
        count += 1;
        c2 = c2.then_apply(c);
    }

    assert_eq!(count, 105);
}

#[test]
fn repr_cubie_test_long_apply() {
    let c = cube(&[R1, U2, D3, B1, D3]);

    let mut c2 = ReprCube::default();
    c2 = c2.then_apply(c);
    let mut count = 1;
    while !c2.is_solved() {
        count += 1;
        c2 = c2.then_apply(c);
    }
    assert_eq!(count, 1260);
}

#[test]
fn different_cubes() {
    let cube = cube(&[U1, R1]);

    let mut set = std::collections::HashSet::new();
    for t1 in SubGroupTransform::all_iter() {
        for t2 in SubGroupTransform::all_iter() {
            set.insert(
                cube.conjugate_by_subgroup_transform(t1)
                    .conjugate_by_subgroup_transform(t2),
            );
        }
    }

    println!("set_len: {:?}", set.len());
}

#[test]
fn inverse_undoes_a_scramble() {
    let c = cube(&[R1, U2, D3, B1, D3, F1, L2]);
    assert!(c.then_apply(c.inverse()).is_solved());
    assert!(c.inverse().then_apply(c).is_solved());
    assert!(!c.is_solved());
}

#[test]
fn conjugation_respects_composition() {
    let a = cube(&[R1, U1, F3]);
    let b = cube(&[D2, L1]);
    for t in SubGroupTransform::all_iter() {
        let lhs = a.then_apply(b).conjugate_by_subgroup_transform(t);
        let rhs = a
            .conjugate_by_subgroup_transform(t)
            .then_apply(b.conjugate_by_subgroup_transform(t));
        assert_eq!(lhs, rhs);
    }
}

#[test]
fn identity_transform_changes_nothing() {
    let a = cube(&[R1, U1, F3, B2]);
    assert_eq!(a.conjugate_by_subgroup_transform(SubGroupTransform(0)), a);
}

#[test]
fn validity_checks_each_rule() {
    let good = cube(&[R1, U1, F3]);
    assert!(good.is_valid());
    let mut twisted = good;
    twisted.corner_orient.0[0] = (twisted.corner_orient.0[0] + 1) % 3;
    assert!(!twisted.is_valid());
    let mut flipped = good;
    flipped.edge_orient.0[3] ^= 1;
    assert!(!flipped.is_valid());
    let mut swapped = good;
    swapped.edge_perm.0.swap(0, 1);
    assert!(!swapped.is_valid());
    let mut out_of_range = good;
    out_of_range.corner_orient.0[2] = 3;
    assert!(!out_of_range.is_valid());
}

#[test]
fn adjacent_cubes_follow_each_move() {
    let start = cube(&[Move::R1, Move::U1]);
    let adj = start.all_phase_1_adjacent();
    assert_eq!(adj.len(), 18);
    for (m, c) in adj {
        assert_eq!(c, start.then_apply(ReprCube::from_move(m)));
    }
    let adj2 = start.all_phase_2_adjacent();
    assert_eq!(adj2.len(), 10);
    for (m, c) in adj2 {
        assert_eq!(c, start.then_apply(ReprCube::from_phase_2_move(m)));
    }
    assert_eq!(start.phase_1_move_table_entry_cubes().len(), 33);
    assert_eq!(start.phase_2_move_table_entry_cubes().len(), 25);
    let conj = start.all_nontrivial_subgroup_conjugations();
    assert_eq!(conj.len(), 15);
    for (i, (t, c)) in conj.into_iter().enumerate() {
        assert_eq!(t, SubGroupTransform(i as u8 + 1));
        assert_eq!(c, start.conjugate_by_subgroup_transform(t));
    }
}

#[test]
fn cubes_are_told_apart_from_moves() {
    for m in Move::all_iter() {
        assert_eq!(Move::try_from_cube(ReprCube::from_move(m)), Ok(m));
    }
    let two = cube(&[Move::R1, Move::U1]);
    assert_eq!(Move::try_from_cube(two), Err(two));
    assert_eq!(Move::try_from_cube(ReprCube::solved()), Err(ReprCube::solved()));
}

#[test]
fn phase_1_raw_coords_of_solved_are_zero() {
    let (a, b, c) = ReprCube::solved().into_phase_1_raw_coords();
    assert_eq!((a.inner(), b.inner(), c.inner()), (0, 0, 0));
    let (a, b, _) = ReprCube::from_move(Move::F1).into_phase_1_raw_coords();
    assert!(a.inner() != 0 && b.inner() != 0);
}

#[test]
fn repr_cubie_test_long_identity() {
    let mut c = ReprCube::default();
    c = c.then_apply(mv(F1));

    assert!(c.is_valid());
    assert!(!c.is_solved());
    c = c.then_apply(mv(R1));

    assert!(c.is_valid());
    assert!(!c.is_solved());
    c = c.then_apply(mv(F3));

    assert!(c.is_valid());
    assert!(!c.is_solved());
    c = c.then_apply(mv(U1));

    assert!(c.is_valid());
    assert!(!c.is_solved());
    c = c.then_apply(mv(B2));

    assert!(c.is_valid());
    assert!(!c.is_solved());
    c = c.then_apply(mv(L3));

    assert!(c.is_valid());
    assert!(!c.is_solved());
    c = c.then_apply(mv(D3));

    assert!(c.is_valid());
    assert!(!c.is_solved());
    c = c.then_apply(mv(R2));

    assert!(c.is_valid());
    assert!(!c.is_solved());
    c = c.then_apply(mv(L1));

    assert!(c.is_valid());
    assert!(!c.is_solved());
    c = c.then_apply(mv(B2));

    assert!(c.is_valid());
    assert!(!c.is_solved());
    c = c.then_apply(mv(F3));

    assert!(c.is_valid());
    assert!(!c.is_solved());
    c = c.then_apply(mv(D1));

    assert!(c.is_valid());
    assert!(!c.is_solved());
    c = c.then_apply(mv(U2));

    assert!(c.is_valid());
    assert!(!c.is_solved());
    c = c.then_apply(mv(R1));

    assert!(c.is_valid());
    assert!(!c.is_solved());
    c = c.then_apply(mv(B1));

    assert!(c.is_valid());
    assert!(!c.is_solved());
    c = c.then_apply(mv(U3));

    assert!(c.is_valid());
    assert!(!c.is_solved());
    c = c.then_apply(mv(B3));

    assert!(c.is_valid());
    assert!(!c.is_solved());
    c = c.then_apply(mv(D1));

    assert!(c.is_valid());
    assert!(!c.is_solved());
    c = c.then_apply(mv(F3));

    assert!(c.is_valid());
    assert!(!c.is_solved());
    c = c.then_apply(mv(U2));

    assert!(c.is_valid());
    assert!(!c.is_solved());
    c = c.then_apply(mv(F3));

    assert!(c.is_valid());
    assert!(!c.is_solved());
    c = c.then_apply(mv(R1));

    assert!(c.is_valid());
    assert!(!c.is_solved());
    c = c.then_apply(mv(U1));

    assert!(c.is_valid());
    assert!(!c.is_solved());
    c = c.then_apply(mv(R3));

    assert!(c.is_valid());
    assert!(!c.is_solved());
    c = c.then_apply(mv(L2));

    assert!(c.is_valid());
    assert!(!c.is_solved());
    c = c.then_apply(mv(U1));

    assert!(c.is_valid());
    assert!(!c.is_solved());
    c = c.then_apply(mv(L2));

    assert!(c.is_valid());
    assert!(!c.is_solved());
    c = c.then_apply(mv(D3));

    assert!(c.is_valid());
    assert!(!c.is_solved());
    c = c.then_apply(mv(L2));

    assert!(c.is_valid());
    assert!(!c.is_solved());
    c = c.then_apply(mv(D2));

    assert!(c.is_valid());
    assert!(!c.is_solved());
    c = c.then_apply(mv(F2));

    assert!(c.is_valid());
    assert!(!c.is_solved());
    c = c.then_apply(mv(D1));

    assert!(c.is_valid());
    assert!(c.is_solved());
}

#[test]
fn compositions_and_inverses_stay_valid() {
    let a = cube(&[R1, U1, F3, L2, D1, B3]);
    let b = cube(&[F2, U3, B1, R3, D2]);
    assert!(a.is_valid() && b.is_valid());
    assert!(a.then_apply(b).is_valid());
    assert!(b.then_apply(a).is_valid());
    assert!(a.inverse().is_valid());
    assert!(a.then_apply(b).inverse().is_valid());
}

#[test]
fn symmetry_cubes_are_move_products() {
    assert_eq!(ReprCube::s_f2(), cube(&[R2, L2, F1, B3, U2, D2, F1, B3]));
    assert_eq!(
        ReprCube::s_lr2_partial(),
        cube(&[U1, D1, R2, F2, U3, D3, R2, F2, U1, R2, L2, F2, R2, L2, F2, U1, L2, F2])
    );
    let q = ReprCube::s_u4(1);
    assert_eq!(ReprCube::s_u4(2), q.then_apply(q));
    assert_eq!(ReprCube::s_u4(3), ReprCube::s_u4(2).then_apply(q));
    assert!(ReprCube::s_u4(3).then_apply(q).is_solved());
}

#[test]
fn half_and_counter_turns_are_powers_of_quarter_turns() {
    for [q, h, c] in [[U1, U2, U3], [D1, D2, D3], [F1, F2, F3], [B1, B2, B3], [R1, R2, R3], [L1, L2, L3]] {
        assert_eq!(mv(h), mv(q).then_apply(mv(q)));
        assert_eq!(mv(c), mv(h).then_apply(mv(q)));
        assert!(mv(c).then_apply(mv(q)).is_solved());
    }
}

#[test]
fn conjugations_compose_as_the_table_says() {
    let c = cube(&[R1, U2, F3, L1, D3, B2, R3]);
    for a in 0..16u8 {
        let ta = SubGroupTransform(a);
        let ca = c.conjugate_by_subgroup_transform(ta);
        for b in 0..16u8 {
            let tb = SubGroupTransform(b);
            assert_eq!(
                ca.conjugate_by_subgroup_transform(tb),
                c.conjugate_by_subgroup_transform(ta.then_apply(tb))
            );
        }
        assert_eq!(ca.conjugate_by_subgroup_transform(ta.inverse()), c);
    }
}
