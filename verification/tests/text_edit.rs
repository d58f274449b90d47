use floem_views::keyboard::{Key, KeyCode, KeyEvent, Modifiers, NamedKey, PhysicalKey, CONTROL, SHIFT};
use floem_views::text_edit::{
    next_word_end_in, prev_word_start_in, Movement, TextDirection, TextEditState, TextInputAction,
};

fn key(k: Key, bits: u32) -> KeyEvent {
    KeyEvent { key: k, physical_key: PhysicalKey::Unidentified, modifiers: Modifiers::from_bits(bits) }
}

fn named(k: NamedKey, bits: u32) -> KeyEvent {
    key(Key::Named(k), bits)
}

fn chr(s: &str) -> KeyEvent {
    key(Key::Character(s.to_string()), 0)
}

#[test]
fn typing_inserts_and_advances_cursor() {
    let mut st = TextEditState::new(String::new());
    for c in ["h", "i", " ", "y", "o"] {
        let out = st.handle_key_down(&chr(c), false);
        assert!(out.handled);
        assert_eq!(out.action, TextInputAction::Nothing);
    }
    assert_eq!(st.buffer(), "hi yo");
    assert_eq!(st.cursor(), 5);
}

#[test]
fn backspace_deletes_previous_grapheme() {
    let mut st = TextEditState::new("aé".to_string());
    st.press_end(false);
    assert_eq!(st.cursor(), 3);
    assert!(st.handle_key_down(&named(NamedKey::Backspace, 0), false).handled);
    assert_eq!(st.buffer(), "a");
    assert_eq!(st.cursor(), 1);
    assert!(st.backspace(Movement::Glyph));
    assert_eq!(st.buffer(), "");
    assert!(!st.backspace(Movement::Glyph));
}

#[test]
fn word_motion_and_word_delete() {
    let mut st = TextEditState::new("hello brave world".to_string());
    assert!(st.move_cursor(Movement::Word, TextDirection::Right));
    assert_eq!(st.cursor(), 5);
    assert!(st.move_cursor(Movement::Word, TextDirection::Right));
    assert_eq!(st.cursor(), 11);
    assert!(st.move_cursor(Movement::Word, TextDirection::Left));
    assert_eq!(st.cursor(), 6);
    // Control+Delete deletes to the end of the next word
    assert!(st.handle_key_down(&named(NamedKey::Delete, CONTROL), false).handled);
    assert_eq!(st.buffer(), "hello  world");
    assert_eq!(st.cursor(), 6);
}

#[test]
fn shift_arrows_extend_selection_and_typing_replaces_it() {
    let mut st = TextEditState::new("abcd".to_string());
    st.move_cursor(Movement::Glyph, TextDirection::Right);
    st.handle_key_down(&named(NamedKey::ArrowRight, SHIFT), false);
    st.handle_key_down(&named(NamedKey::ArrowRight, SHIFT), false);
    assert_eq!(st.selection(), Some(1..3));
    assert_eq!(st.cursor(), 3);
    st.handle_key_down(&chr("X"), false);
    assert_eq!(st.buffer(), "aXd");
    assert_eq!(st.cursor(), 2);
    assert_eq!(st.selection(), None);
}

#[test]
fn plain_arrow_collapses_selection_to_its_edge() {
    let mut st = TextEditState::new("abcd".to_string());
    st.move_cursor(Movement::Line, TextDirection::Right);
    st.update_selection(3, 1);
    assert_eq!(st.selection(), Some(1..3));
    assert!(st.press_arrow(TextDirection::Left, Movement::Glyph, false));
    assert_eq!(st.cursor(), 1);
    assert_eq!(st.selection(), None);
}

#[test]
fn home_end_with_shift() {
    let mut st = TextEditState::new("abc".to_string());
    st.move_cursor(Movement::Glyph, TextDirection::Right);
    st.handle_key_down(&named(NamedKey::End, SHIFT), false);
    assert_eq!(st.selection(), Some(1..3));
    assert_eq!(st.cursor(), 3);
    st.handle_key_down(&named(NamedKey::Home, 0), false);
    assert_eq!(st.selection(), None);
    assert_eq!(st.cursor(), 0);
}

#[test]
fn shortcuts_copy_cut_select_all_and_paste() {
    let mut st = TextEditState::new("one two".to_string());
    let ctrl_a = KeyEvent {
        key: Key::Character("a".to_string()),
        physical_key: PhysicalKey::Code(KeyCode::KeyA),
        modifiers: Modifiers::from_bits(CONTROL),
    };
    assert!(st.handle_key_down(&ctrl_a, false).handled);
    assert_eq!(st.selection(), Some(0..7));
    let ctrl_x = KeyEvent {
        key: Key::Character("x".to_string()),
        physical_key: PhysicalKey::Code(KeyCode::KeyX),
        modifiers: Modifiers::from_bits(CONTROL),
    };
    let out = st.handle_key_down(&ctrl_x, false);
    assert!(out.handled);
    assert_eq!(out.action, TextInputAction::SetClipboard("one two".to_string()));
    assert_eq!(st.buffer(), "");
    let ctrl_v = KeyEvent {
        key: Key::Character("v".to_string()),
        physical_key: PhysicalKey::Code(KeyCode::KeyV),
        modifiers: Modifiers::from_bits(CONTROL),
    };
    let out = st.handle_key_down(&ctrl_v, false);
    assert!(!out.handled);
    assert_eq!(out.action, TextInputAction::Paste);
    assert!(st.paste("a\r\nb"));
    assert_eq!(st.buffer(), "ab");
    assert_eq!(st.cursor(), 2);
    assert!(!st.paste("\n"));
}

#[test]
fn escape_and_enter_ask_the_host() {
    let mut st = TextEditState::new("x".to_string());
    assert_eq!(st.handle_key_down(&named(NamedKey::Escape, 0), false).action, TextInputAction::ClearFocus);
    assert_eq!(st.handle_key_down(&named(NamedKey::Enter, 0), false).action, TextInputAction::Submit);
    assert_eq!(st.buffer(), "x");
}

#[test]
fn control_letter_without_binding_is_not_typed() {
    let mut st = TextEditState::new(String::new());
    let ev = KeyEvent {
        key: Key::Character("q".to_string()),
        physical_key: PhysicalKey::Unidentified,
        modifiers: Modifiers::from_bits(CONTROL),
    };
    assert!(!st.handle_key_down(&ev, false).handled);
    assert_eq!(st.buffer(), "");
}

#[test]
fn double_click_selects_word() {
    let mut st = TextEditState::new("  word1  word2 ".to_string());
    st.handle_double_click(3);
    assert_eq!(st.selection(), Some(2..7));
    assert_eq!(st.cursor(), 7);
}

#[test]
fn space_with_selection_deletes_it() {
    let mut st = TextEditState::new("abc".to_string());
    st.update_selection(0, 2);
    assert!(st.handle_key_down(&chr(" "), false).handled);
    assert_eq!(st.buffer(), "c");
    assert_eq!(st.cursor(), 1);
}

#[test]
fn word_motion_from_given_words() {
    let words = vec![(0, 5), (6, 5)];
    assert_eq!(next_word_end_in(&words, 11, 3), Some(5));
    assert_eq!(next_word_end_in(&words, 11, 5), Some(11));
    assert_eq!(next_word_end_in(&words, 11, 11), None);
    assert_eq!(prev_word_start_in(&words, 8), 6);
    assert_eq!(prev_word_start_in(&words, 6), 0);
    assert_eq!(prev_word_start_in(&words, 0), 0);
}
