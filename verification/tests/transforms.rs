use kociemba::cubie_repr::CubieRepr;
use kociemba::random_cube::{
    corner_perm_count, corner_twist_count, edge_flip_count, edge_perm_count, face_turn_count,
};
use kociemba::sym_coord::get_transforms;

#[test]
fn transforms_start_from_the_solved_cube() {
    let (cubes, indices, orients) = get_transforms(false);
    assert_eq!(cubes.len(), 48);
    assert_eq!(indices.len(), 48);
    assert_eq!(orients.len(), 48);
    assert_eq!(cubes[0].into_array(), CubieRepr::new().into_array());
    let mut z2 = [0u8; 40];
    z2[..8].copy_from_slice(&[5, 4, 7, 6, 1, 0, 3, 2]);
    z2[28..].copy_from_slice(&[2, 3, 0, 1, 5, 4, 7, 6, 11, 10, 9, 8]);
    assert_eq!(cubes[1].into_array(), z2);
    let mut y = [0u8; 40];
    y[..8].copy_from_slice(&[2, 0, 3, 1, 6, 4, 7, 5]);
    y[20..24].copy_from_slice(&[1, 1, 1, 1]);
    y[28..].copy_from_slice(&[8, 9, 10, 11, 6, 4, 7, 5, 1, 0, 3, 2]);
    assert_eq!(cubes[2].into_array(), y);
    for t in 16..48 {
        assert_eq!(cubes[t].into_array(), [0u8; 40]);
        assert_eq!(indices[t], [0usize; 40]);
        assert_eq!(orients[t], [0u8; 20]);
    }
}

#[test]
fn transforms_with_diagonal_turns() {
    let (cubes, _, _) = get_transforms(true);
    let (plain, _, _) = get_transforms(false);
    for t in 0..8 {
        assert_eq!(cubes[t].into_array(), plain[t].into_array());
    }
    for t in 0..8 {
        assert_eq!(cubes[24 + t].into_array(), plain[8 + t].into_array());
    }
    assert_ne!(cubes[8].into_array(), plain[0].into_array());
}

#[test]
fn draw_ranges() {
    assert_eq!(face_turn_count(), 18);
    assert_eq!(edge_perm_count(), 479_001_600);
    assert_eq!(corner_perm_count(), 40320);
    assert_eq!(edge_flip_count(), 2048);
    assert_eq!(corner_twist_count(), 2187);
}
