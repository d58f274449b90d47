use floem_views::navigation::{navigation_visibility, shared_prefix_len, sync_path, tab_visibility};

#[test]
fn shared_prefix_stops_at_first_difference() {
    assert_eq!(shared_prefix_len(&vec!["a", "b", "c"], &vec!["a", "b", "x", "y"]), 2);
    assert_eq!(shared_prefix_len(&vec!["a"], &vec!["a", "b"]), 1);
    assert_eq!(shared_prefix_len::<&str>(&vec![], &vec!["a"]), 0);
}

#[test]
fn sync_path_keeps_prefix_and_replaces_the_rest() {
    let mut children = vec![1u32, 2, 3];
    let (kept, removed) = sync_path(&mut children, vec![1, 2, 4, 5]);
    assert_eq!(kept, 2);
    assert_eq!(removed, vec![3]);
    assert_eq!(children, vec![1, 2, 4, 5]);
}

#[test]
fn sync_path_to_a_shorter_path_pops() {
    let mut children = vec![1u32, 2, 3];
    let (kept, removed) = sync_path(&mut children, vec![1]);
    assert_eq!(kept, 1);
    assert_eq!(removed, vec![2, 3]);
    assert_eq!(children, vec![1]);
}

#[test]
fn only_last_navigation_child_is_shown() {
    assert_eq!(navigation_visibility(3), vec![false, false, true]);
    assert!(navigation_visibility(0).is_empty());
}

#[test]
fn only_active_tab_is_shown() {
    assert_eq!(tab_visibility(Some(1), 3), vec![false, true, false]);
    assert_eq!(tab_visibility(None, 2), vec![false, false]);
    assert_eq!(tab_visibility(Some(5), 2), vec![false, false]);
}
