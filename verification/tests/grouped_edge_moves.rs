use kociemba::tables::grouped_edge_moves::{
    restriction_table_index_e, restriction_table_index_ud, unique_columns, RESTRICTED_ENTRY_COUNT,
};

#[test]
fn restricted_layout_interleaves_pairs() {
    assert_eq!(restriction_table_index_ud(0), 0);
    assert_eq!(restriction_table_index_ud(1), 2);
    assert_eq!(restriction_table_index_ud(2), 3);
    assert_eq!(restriction_table_index_ud(3), 5);
    assert_eq!(restriction_table_index_e(0), 2);
    assert_eq!(restriction_table_index_e(1), 3);
    assert_eq!(restriction_table_index_e(2), 8);
    assert_eq!(restriction_table_index_e(3), 9);
    let mut used = vec![false; 3 * RESTRICTED_ENTRY_COUNT + 1];
    for i in 0..RESTRICTED_ENTRY_COUNT {
        let ud = 2 * restriction_table_index_ud(i);
        let e = restriction_table_index_e(i);
        for b in [ud, ud + 1, e] {
            assert!(!used[b]);
            used[b] = true;
        }
    }
}

#[test]
fn unique_columns_numbers_first_occurrences() {
    let cols = vec![vec![3u16, 1], vec![0, 0], vec![3, 1], vec![7, 7], vec![0, 0], vec![7, 7]];
    let (unique, ids) = unique_columns(&cols);
    assert_eq!(unique, vec![vec![3, 1], vec![0, 0], vec![7, 7]]);
    assert_eq!(ids, vec![0, 1, 0, 2, 1, 2]);
    let (unique, ids) = unique_columns(&vec![]);
    assert!(unique.is_empty());
    assert!(ids.is_empty());
}
