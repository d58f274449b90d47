use floem_views::editor::Preedit;
use floem_views::text_edit::{Movement, TextDirection, TextEditState, TextInputState};

fn at_end(text: &str) -> TextInputState {
    let mut edit = TextEditState::new(text.to_string());
    edit.move_cursor(Movement::Line, TextDirection::Right);
    TextInputState { edit, preedit: None }
}

#[test]
fn preedit_then_commit_on_click() {
    let mut st = at_end("abc");
    assert!(st.ime_preedit(true, "xy", Some((1, 1))));
    assert_eq!(st.cursor_visual_idx(), 4);
    assert!(st.commit_preedit());
    assert_eq!(st.edit.buffer(), "abcxy");
    assert_eq!(st.edit.cursor(), 3);
    assert!(st.preedit.is_none());
    assert!(!st.commit_preedit());
}

#[test]
fn empty_or_unfocused_preedit_ends_composition() {
    let mut st = at_end("abc");
    st.preedit = Some(Preedit { text: "k".to_string(), cursor: None, offset: 7 });
    assert_eq!(st.cursor_visual_idx(), 4);
    assert!(st.ime_preedit(true, "kk", None));
    assert_eq!(st.preedit.as_ref().unwrap().offset, 7);
    assert!(st.ime_preedit(false, "k", None));
    assert!(st.preedit.is_none());
    assert!(!st.ime_preedit(true, "", None));
    assert_eq!(st.edit.buffer(), "abc");
}

#[test]
fn preedit_replaces_the_selection() {
    let mut st = at_end("hello");
    st.edit.select_all();
    assert!(st.ime_preedit(true, "ka", None));
    assert_eq!(st.edit.buffer(), "");
    assert_eq!(st.edit.cursor(), 0);
    assert!(st.edit.selection().is_none());
}

#[test]
fn commit_inserts_and_moves_past() {
    let mut st = at_end("ab");
    assert!(st.ime_commit(true, "é"));
    assert_eq!(st.edit.buffer(), "abé");
    assert_eq!(st.edit.cursor(), 4);
    assert!(!st.ime_commit(false, "z"));
    assert_eq!(st.edit.buffer(), "abé");
}

#[test]
fn delete_surrounding_moves_to_character_starts() {
    let mut st = at_end("héllo");
    assert!(st.ime_delete_surrounding(true, 2, 0));
    assert_eq!(st.edit.buffer(), "hél");
    assert_eq!(st.edit.cursor(), 4);
    let mut st = at_end("héllo");
    assert!(st.ime_delete_surrounding(true, 4, 0));
    assert_eq!(st.edit.buffer(), "h");
    assert_eq!(st.edit.cursor(), 1);
    let mut st = at_end("héllo");
    assert!(st.ime_delete_surrounding(true, 0, 0));
    assert_eq!(st.edit.buffer(), "héll");
    assert!(!st.ime_delete_surrounding(false, 1, 1));
}

#[test]
fn delete_surrounding_after_the_cursor() {
    let mut edit = TextEditState::new("aéb".to_string());
    edit.move_cursor(Movement::Glyph, TextDirection::Right);
    let mut st = TextInputState { edit, preedit: None };
    assert!(st.ime_delete_surrounding(true, 9, 1));
    assert_eq!(st.edit.buffer(), "b");
    assert_eq!(st.edit.cursor(), 0);
}

#[test]
fn clicks_place_cursor_or_select() {
    let mut edit = TextEditState::new("one two".to_string());
    edit.pointer_down(1, 4);
    assert_eq!(edit.cursor(), 4);
    assert!(edit.selection().is_none());
    edit.pointer_down(2, 5);
    assert_eq!(edit.selection(), Some(4..7));
    edit.pointer_down(3, 0);
    assert_eq!(edit.selection(), Some(0..7));
}

#[test]
fn commit_keeps_the_selection_byte_range() {
    let mut edit = TextEditState::new("ab".to_string());
    edit.move_cursor(Movement::Line, TextDirection::Right);
    edit.press_arrow(TextDirection::Left, Movement::Line, true);
    assert_eq!(edit.cursor(), 0);
    assert_eq!(edit.selection(), Some(0..2));
    let mut st = TextInputState { edit, preedit: None };
    assert!(st.ime_commit(true, "x"));
    assert_eq!(st.edit.buffer(), "xab");
    assert_eq!(st.edit.cursor(), 1);
    assert_eq!(st.edit.selection(), Some(0..2));
}

#[test]
fn commit_drops_a_selection_cut_inside_the_new_character() {
    let mut edit = TextEditState::new("ab".to_string());
    edit.update_selection(0, 1);
    assert_eq!(edit.cursor(), 0);
    let mut st = TextInputState { edit, preedit: None };
    assert!(st.ime_commit(true, "é"));
    assert_eq!(st.edit.buffer(), "éab");
    assert_eq!(st.edit.cursor(), 2);
    assert_eq!(st.edit.selection(), None);
}

#[test]
fn commit_preedit_with_selection_before_cursor_keeps_it() {
    let mut st = at_end("abc");
    st.edit.update_selection(0, 1);
    st.preedit = Some(Preedit { text: "é".to_string(), cursor: None, offset: 0 });
    assert!(st.commit_preedit());
    assert_eq!(st.edit.buffer(), "abcé");
    assert_eq!(st.edit.selection(), Some(0..1));
}

#[test]
fn pointer_move_commits_and_selects_from_the_cursor() {
    let mut st = at_end("abc");
    st.preedit = Some(Preedit { text: "é".to_string(), cursor: None, offset: 0 });
    assert!(!st.pointer_move(false, 1));
    assert_eq!(st.edit.buffer(), "abc");
    assert!(st.preedit.is_some());
    assert!(st.pointer_move(true, 1));
    assert_eq!(st.edit.buffer(), "abcé");
    assert_eq!(st.edit.cursor(), 3);
    assert_eq!(st.edit.selection(), Some(1..3));
    assert!(st.preedit.is_none());
    assert!(!st.pointer_move(true, 5));
    assert_eq!(st.edit.selection(), Some(3..5));
    assert!(!st.pointer_move(true, 3));
    assert_eq!(st.edit.selection(), None);
}

#[test]
fn pointer_move_on_empty_text_does_nothing() {
    let mut st = TextInputState { edit: TextEditState::new(String::new()), preedit: None };
    st.preedit = Some(Preedit { text: "x".to_string(), cursor: None, offset: 0 });
    assert!(!st.pointer_move(true, 0));
    assert_eq!(st.edit.buffer(), "");
    assert!(st.preedit.is_some());
}
