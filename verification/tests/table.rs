use floem_views::table::{apply_table_diff, TableDiff};

fn diff(clear: bool, removed: Vec<usize>, moved: Vec<(usize, usize)>, added: Vec<(usize, Option<Vec<u32>>)>) -> TableDiff<u32> {
    TableDiff { clear, removed, moved, added }
}

#[test]
fn removing_a_row_disposes_its_cells() {
    let mut rows = vec![vec![1, 2], vec![3, 4]];
    let disposed = apply_table_diff(&mut rows, diff(false, vec![0], vec![], vec![]));
    assert_eq!(disposed, vec![1, 2]);
    assert_eq!(rows, vec![vec![3, 4]]);
}

#[test]
fn clear_disposes_everything_before_adding() {
    let mut rows = vec![vec![1], vec![2]];
    let disposed = apply_table_diff(&mut rows, diff(true, vec![1], vec![], vec![(0, Some(vec![5]))]));
    assert_eq!(disposed, vec![1, 2]);
    assert_eq!(rows, vec![vec![5]]);
}

#[test]
fn moved_row_lands_at_its_destination() {
    let mut rows = vec![vec![1], vec![2], vec![3]];
    let disposed = apply_table_diff(&mut rows, diff(false, vec![2], vec![(0, 2)], vec![]));
    assert_eq!(disposed, vec![3]);
    assert_eq!(rows, vec![vec![2], vec![1]]);
}

#[test]
fn added_rows_fill_grown_space() {
    let mut rows = vec![vec![1]];
    let disposed = apply_table_diff(&mut rows, diff(false, vec![], vec![], vec![(1, Some(vec![7, 8])), (2, None)]));
    assert!(disposed.is_empty());
    assert_eq!(rows, vec![vec![1], vec![7, 8]]);
}

#[test]
fn added_row_beyond_the_end_is_dropped() {
    let mut rows: Vec<Vec<u32>> = vec![];
    let disposed = apply_table_diff(&mut rows, diff(false, vec![], vec![], vec![(3, Some(vec![9]))]));
    assert!(disposed.is_empty());
    assert!(rows.is_empty());
}
