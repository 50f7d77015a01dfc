use kociemba::permutation_coord::{
    edge_grouping, edge_grouping_inverse, is_odd, is_perm, permutation_coord_12,
    permutation_coord_12_inverse, permutation_coord_4, permutation_coord_4_inverse,
    permutation_coord_4_parity, permutation_coord_4_parity_inverse, permutation_coord_8,
    permutation_coord_8_inverse, permutation_coord_8_parity, permutation_coord_8_parity_inverse,
    Perm12Slots,
};
use kociemba::permutation_math::grouping::EdgeCombination;
use kociemba::permutation_math::permutation::Permutation;

#[test]
fn count_parity() {
    let mut even = 0;
    let mut odd = 0;

    (0..495).into_iter().for_each(|i| {
        let combination = EdgeCombination::from_coord(i);
        let perm = combination.into_representative_even_perm();

        if perm.is_odd() {
            odd += 1;
        } else {
            even += 1;
        }
    });

    println!("even: {even}");
    println!("odd: {odd}");
    assert_eq!(odd, 0);
}

#[test]
fn permutation_coord_edge_grouping_test() {
    for i in 0..495 {
        let s = edge_grouping_inverse(i);
        assert_eq!(edge_grouping(&s), i);
    }
}

#[test]
fn coord_edge_grouping_test() {
    for i in 0..495 {
        let s = edge_grouping_inverse(i);
        assert_eq!(edge_grouping(&s), i);
    }
}

#[test]
fn flips() {}

#[test]
fn permutation_coord_8_round_trip() {
    for i in 0..40320 {
        let s = permutation_coord_8_inverse(i);
        assert!(Permutation::try_const_from_array(s).is_ok());
        assert_eq!(permutation_coord_8(&s), i);
    }
}

#[test]
fn permutation_coord_4_round_trip() {
    for i in 0..24 {
        let s = permutation_coord_4_inverse(i);
        assert_eq!(permutation_coord_4(&s), i);
    }
}

#[test]
fn permutation_coord_12_round_trip_sampled() {
    let mut i: u32 = 0;
    while i < 479_001_600 {
        let s = permutation_coord_12_inverse(i);
        assert!(Permutation::try_const_from_array(s).is_ok());
        assert_eq!(permutation_coord_12(&s), i);
        i += 104_729;
    }
    assert_eq!(permutation_coord_12_inverse(0), [0, 1, 2, 3, 4, 5, 6, 7, 8, 9, 10, 11]);
    assert_eq!(permutation_coord_12_inverse(479_001_599), [11, 10, 9, 8, 7, 6, 5, 4, 3, 2, 1, 0]);
}

#[test]
fn permutation_coord_8_parity_test() {
    for i in 0..40320 {
        let s = permutation_coord_8_parity_inverse(i);
        assert_eq!(is_odd(&s) as u16, i % 2);
        assert_eq!(permutation_coord_8_parity(&s), i);
    }
}

#[test]
fn permutation_coord_4_parity_test() {
    for i in 0..24 {
        let s = permutation_coord_4_parity_inverse(i);
        assert_eq!(is_odd(&s) as u8, i % 2);
        assert_eq!(permutation_coord_4_parity(&s), i);
    }
}

#[test]
fn known_ranks() {
    assert_eq!(permutation_coord_4(&[1, 0, 2, 3]), 1);
    assert_eq!(permutation_coord_4(&[0, 1, 3, 2]), 6);
    assert_eq!(permutation_coord_4(&[3, 2, 1, 0]), 23);
    assert_eq!(permutation_coord_4_inverse(6), [0, 1, 3, 2]);
}

#[test]
fn is_perm_rejects_repeats_and_range() {
    assert!(is_perm(&[1u8, 2, 3]));
    assert!(is_perm(&[3u8, 1, 2]));
    assert!(!is_perm(&[2u8, 0, 1]));
    assert!(!is_perm(&[2u8, 2, 1]));
    assert!(!is_perm(&[1u8, 2, 4]));
    assert!(is_perm::<0>(&[]));
}

#[test]
fn nibble_packing() {
    let slots = Perm12Slots::pack12([3, 1, 4, 1, 5, 9, 2, 6, 5, 3, 5, 8]);
    assert_eq!(slots.unpack12(), [3, 1, 4, 1, 5, 9, 2, 6, 5, 3, 5, 8]);
    assert_eq!(Perm12Slots::sorted().unpack12(), [1, 0, 3, 2, 5, 4, 7, 6, 9, 8, 11, 10]);
    let p = Perm12Slots::pack12([11, 10, 9, 8, 7, 6, 5, 4, 3, 2, 1, 0]);
    let q = Perm12Slots::pack12([1, 2, 3, 4, 5, 6, 7, 8, 9, 10, 11, 0]);
    assert_eq!(p.then_apply(q).unpack12(), [10, 9, 8, 7, 6, 5, 4, 3, 2, 1, 0, 11]);
    assert_eq!(q.then_apply(q.inverse()).unpack12(), [0, 1, 2, 3, 4, 5, 6, 7, 8, 9, 10, 11]);
    // Not a permutation: 1, 2, 3 and 5 occur twice, so the later slot wins; 0, 7, 10, 11 occur nowhere.
    let r = Perm12Slots::pack12([3, 1, 4, 1, 5, 9, 2, 6, 5, 3, 8, 2]);
    assert_eq!(r.inverse().unpack12(), [0, 3, 11, 9, 2, 8, 7, 0, 10, 5, 0, 0]);
}

#[test]
fn edge_combination_round_trip() {
    for i in 0..495u16 {
        let c = EdgeCombination::from_coord(i);
        assert_eq!(c.into_coord(), i);
        assert_eq!(c.0.iter().filter(|b| **b).count(), 4);
    }
    assert_eq!(EdgeCombination::solved().into_coord(), 0);
}

#[test]
fn unchecked_combination_keeps_the_array() {
    let a = [true, false, true, false, false, false, false, false, true, true, false, false];
    let c = EdgeCombination::const_from_array_unchecked(a);
    assert_eq!(c.const_into_array(), a);
    assert_eq!(c, EdgeCombination::const_from_array(a));
}
