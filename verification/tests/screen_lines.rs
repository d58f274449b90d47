use floem_views::line_render_cache::InvalLines;
use floem_views::screen_lines::{inval_overlaps_visible_lines, rvline_ranges_overlap, RVLine, ScreenLines};

#[test]
fn iter_line_info_range() {
    let lines = vec![
        RVLine::new(10, 0),
        RVLine::new(10, 1),
        RVLine::new(10, 2),
        RVLine::new(10, 3),
    ];
    let sl = ScreenLines { lines };

    // Completely outside range should be empty
    assert_eq!(sl.iter_line_info_r(RVLine::new(0, 0), RVLine::new(1, 5)), Vec::new());
    // Should include itself
    assert_eq!(sl.iter_line_info_r(RVLine::new(10, 0), RVLine::new(10, 0)).len(), 1);
    // Typical case
    assert_eq!(sl.iter_line_info_r(RVLine::new(10, 0), RVLine::new(10, 2)).len(), 3);
    assert_eq!(sl.iter_line_info_r(RVLine::new(10, 0), RVLine::new(10, 3)).len(), 4);
    // Should only include what is within the interval
    assert_eq!(sl.iter_line_info_r(RVLine::new(10, 0), RVLine::new(10, 5)).len(), 4);
    assert_eq!(sl.iter_line_info_r(RVLine::new(0, 0), RVLine::new(10, 5)).len(), 4);
}

#[test]
fn first_and_last_rvline_for_line() {
    let sl = ScreenLines {
        lines: vec![RVLine::new(3, 0), RVLine::new(4, 0), RVLine::new(4, 1), RVLine::new(5, 0)],
    };
    assert_eq!(sl.first_rvline_for_line(4), Some(RVLine::new(4, 0)));
    assert_eq!(sl.last_rvline_for_line(4), Some(RVLine::new(4, 1)));
    assert_eq!(sl.first_rvline_for_line(9), None);
    assert_eq!(sl.rvline_range(), Some((RVLine::new(3, 0), RVLine::new(5, 0))));
    assert!(!sl.is_empty());
}

#[test]
fn overlap_of_ranges_and_edits() {
    let a = (RVLine::new(1, 0), RVLine::new(3, 2));
    let b = (RVLine::new(3, 2), RVLine::new(7, 0));
    let c = (RVLine::new(3, 3), RVLine::new(7, 0));
    assert!(rvline_ranges_overlap(a, b));
    assert!(!rvline_ranges_overlap(a, c));
    assert!(inval_overlaps_visible_lines(&InvalLines::new(0, 1, 3), (RVLine::new(3, 0), RVLine::new(9, 0))));
    assert!(!inval_overlaps_visible_lines(&InvalLines::new(0, 1, 2), (RVLine::new(3, 0), RVLine::new(9, 0))));
}

#[test]
fn iter_lines_spans_first_to_last_buffer_line() {
    let sl = ScreenLines { lines: vec![RVLine::new(3, 1), RVLine::new(4, 0), RVLine::new(6, 0)] };
    assert_eq!(sl.iter_lines(), vec![3, 4, 5, 6]);
    let one = ScreenLines { lines: vec![RVLine::new(7, 2)] };
    assert_eq!(one.iter_lines(), vec![7]);
}
