use floem_views::text_input::{dbl_click_selection_in, get_dbl_click_selection, replace_range};

#[test]
fn replace_range_start() {
    let mut s = "Sample text".to_owned();
    replace_range(&mut s, 0..7, Some("Replaced___"));
    assert_eq!("Replaced___text", s);
}

#[test]
fn delete_range_start() {
    let mut s = "Sample text".to_owned();
    replace_range(&mut s, 0..7, None);
    assert_eq!("text", s);
}

#[test]
fn replace_range_end() {
    let mut s = "Sample text".to_owned();
    let len = s.len();
    replace_range(&mut s, 6..len, Some("++Replaced"));
    assert_eq!("Sample++Replaced", s);
}

#[test]
fn delete_range_full() {
    let mut s = "Sample text".to_owned();
    let len = s.len();
    replace_range(&mut s, 0..len, None);
    assert_eq!("", s);
}

#[test]
fn replace_range_full() {
    let mut s = "Sample text".to_owned();
    let len = s.len();
    replace_range(&mut s, 0..len, Some("Hello world"));
    assert_eq!("Hello world", s);
}

#[test]
fn delete_range_end() {
    let mut s = "Sample text".to_owned();
    let len = s.len();
    replace_range(&mut s, 6..len, None);
    assert_eq!("Sample", s);
}

#[test]
fn dbl_click_whitespace_before_word() {
    let s = "  select  ".to_owned();

    let range = get_dbl_click_selection(0, &s);
    assert_eq!(range, 0..2);

    let range = get_dbl_click_selection(1, &s);
    assert_eq!(range, 0..2);
}

#[test]
fn dbl_click_word_surrounded_by_whitespace() {
    let s = "  select  ".to_owned();

    let range = get_dbl_click_selection(2, &s);
    assert_eq!(range, 2..8);

    let range = get_dbl_click_selection(6, &s);
    assert_eq!(range, 2..8);
}

#[test]
fn dbl_click_whitespace_bween_words() {
    let s = "select   select".to_owned();

    let range = get_dbl_click_selection(6, &s);
    assert_eq!(range, 6..9);

    let range = get_dbl_click_selection(7, &s);
    assert_eq!(range, 6..9);

    let range = get_dbl_click_selection(8, &s);
    assert_eq!(range, 6..9);
}

#[test]
fn dbl_click_whitespace_after_word() {
    let s = "  select  ".to_owned();

    let range = get_dbl_click_selection(8, &s);
    assert_eq!(range, 8..10);

    let range = get_dbl_click_selection(9, &s);
    assert_eq!(range, 8..10);
}

#[test]
fn dbl_click_letter_after_whitespace() {
    let s = "     s".to_owned();
    let range = get_dbl_click_selection(5, &s);

    assert_eq!(range, 5..6);
}

#[test]
fn dbl_click_single_letter() {
    let s = "s".to_owned();
    let range = get_dbl_click_selection(0, &s);

    assert_eq!(range, 0..1);
}

#[test]
fn dbl_click_outside_boundaries_selects_all() {
    let s = "     ".to_owned();
    let range = get_dbl_click_selection(100, &s);

    assert_eq!(range, 0..5);
}

#[test]
fn dbl_click_letters_with_whitespace() {
    let s = " s  s  ".to_owned();
    let range = get_dbl_click_selection(1, &s);
    assert_eq!(range, 1..2);

    let range = get_dbl_click_selection(4, &s);
    assert_eq!(range, 4..5);
}

#[test]
fn dbl_click_single_word() {
    let s = "123testttttttttttttttttttt123".to_owned();
    let range = get_dbl_click_selection(1, &s);
    let len = s.len();
    assert_eq!(range, 0..len);

    let range = get_dbl_click_selection(5, &s);
    assert_eq!(range, 0..len);

    let range = get_dbl_click_selection(len - 1, &s);
    assert_eq!(range, 0..len);
}

#[test]
fn dbl_click_two_words_and_whitespace() {
    let s = "  word1  word2 ".to_owned();

    let range = get_dbl_click_selection(2, &s);
    assert_eq!(range, 2..7);

    let range = get_dbl_click_selection(6, &s);
    assert_eq!(range, 2..7);
}

#[test]
fn dbl_click_empty_string() {
    let s = "".to_owned();

    let range = get_dbl_click_selection(0, &s);
    assert_eq!(range, 0..0);

    let range = get_dbl_click_selection(1, &s);
    assert_eq!(range, 0..0);
}

#[test]
fn dbl_click_whitespace_only() {
    let s = "       ".to_owned();
    let range = get_dbl_click_selection(2, &s);

    assert_eq!(range, 0..s.len());
}

#[test]
fn replace_range_off_char_boundary_is_ignored() {
    let mut s = "aé".to_owned();
    replace_range(&mut s, 2..3, Some("x"));
    assert_eq!("aé", s);
    replace_range(&mut s, 1..1, Some("Z"));
    assert_eq!("aZé", s);
}

#[test]
fn dbl_click_selection_from_given_words() {
    let words = vec![(0, 5), (6, 5)];
    assert_eq!(dbl_click_selection_in(&words, 11, 2), 0..5);
    assert_eq!(dbl_click_selection_in(&words, 11, 5), 5..6);
    assert_eq!(dbl_click_selection_in(&words, 11, 20), 6..11);
    assert_eq!(dbl_click_selection_in(&vec![], 3, 1), 0..3);
    assert_eq!(dbl_click_selection_in(&vec![(2, 1)], 5, 4), 3..5);
}
