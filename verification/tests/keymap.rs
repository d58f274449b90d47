use floem_views::keyboard::{Key, Modifiers, NamedKey, ALT, CONTROL, META, SHIFT};
use floem_views::keymap::{
    default_key_handler, Command, EditCommand, KeypressKey, KeypressMap, Mode, MoveCommand,
    MultiSelectionCommand, ScrollCommand, VisualMode,
};

fn named(n: NamedKey, bits: u32) -> KeypressKey {
    KeypressKey { key: Key::Named(n), modifiers: Modifiers { bits } }
}

fn chr(s: &str, bits: u32) -> KeypressKey {
    KeypressKey { key: Key::Character(s.to_string()), modifiers: Modifiers { bits } }
}

#[test]
fn macos_undo_redo_and_selection() {
    let m = KeypressMap::default_macos();
    assert_eq!(m.get(&chr("z", META)), Some(Command::Edit(EditCommand::Undo)));
    assert_eq!(m.get(&chr("z", META | SHIFT)), Some(Command::Edit(EditCommand::Redo)));
    assert_eq!(m.get(&chr("a", META)), Some(Command::MultiSelection(MultiSelectionCommand::SelectAll)));
    assert_eq!(m.get(&chr("a", CONTROL)), Some(Command::Move(MoveCommand::LineStartNonBlank)));
    assert_eq!(m.get(&named(NamedKey::ArrowUp, META)), Some(Command::Move(MoveCommand::DocumentStart)));
    assert_eq!(m.get(&chr("z", CONTROL)), None);
}

#[test]
fn windows_and_linux_use_control() {
    for m in [KeypressMap::default_windows(), KeypressMap::default_linux()] {
        assert_eq!(m.get(&chr("z", CONTROL)), Some(Command::Edit(EditCommand::Undo)));
        assert_eq!(m.get(&named(NamedKey::Insert, SHIFT)), Some(Command::Edit(EditCommand::ClipboardPaste)));
        assert_eq!(m.get(&named(NamedKey::Home, CONTROL)), Some(Command::Move(MoveCommand::DocumentStart)));
        assert_eq!(m.get(&chr("a", CONTROL)), Some(Command::MultiSelection(MultiSelectionCommand::SelectAll)));
        assert_eq!(m.get(&chr("z", META)), None);
    }
}

#[test]
fn common_bindings_on_every_platform() {
    for m in [KeypressMap::default_windows(), KeypressMap::default_macos(), KeypressMap::default_linux()] {
        assert_eq!(m.get(&named(NamedKey::ArrowUp, 0)), Some(Command::Move(MoveCommand::Up)));
        assert_eq!(m.get(&named(NamedKey::ArrowUp, ALT)), Some(Command::Edit(EditCommand::MoveLineUp)));
        assert_eq!(m.get(&named(NamedKey::Backspace, SHIFT)), Some(Command::Edit(EditCommand::DeleteForward)));
        assert_eq!(m.get(&named(NamedKey::PageDown, CONTROL)), Some(Command::Scroll(ScrollCommand::ScrollDown)));
        assert_eq!(
            m.get(&chr("i", ALT | SHIFT)),
            Some(Command::MultiSelection(MultiSelectionCommand::InsertCursorEndOfLine))
        );
    }
}

#[test]
fn platform_chosen_by_name() {
    let mac = KeypressMap::default_for_os("macos");
    assert_eq!(mac.get(&chr("z", META)), Some(Command::Edit(EditCommand::Undo)));
    let win = KeypressMap::default_for_os("windows");
    assert_eq!(win.get(&chr("z", CONTROL)), Some(Command::Edit(EditCommand::Undo)));
    let other = KeypressMap::default_for_os("freebsd");
    assert_eq!(other.get(&chr("z", CONTROL)), Some(Command::Edit(EditCommand::Undo)));
    assert_eq!(other.get(&chr("z", META)), None);
}

#[test]
fn insert_replaces_a_binding() {
    let mut m = KeypressMap::new();
    assert_eq!(m.get(&chr("q", CONTROL)), None);
    m.insert(chr("q", CONTROL), Command::Edit(EditCommand::Undo));
    m.insert(chr("q", CONTROL), Command::Edit(EditCommand::Redo));
    assert_eq!(m.get(&chr("q", CONTROL)), Some(Command::Edit(EditCommand::Redo)));
    assert_eq!(m.get(&chr("q", 0)), None);
}

#[test]
fn handler_falls_back_to_unshifted_in_insert_mode() {
    let m = KeypressMap::default_linux();
    let shifted_up = named(NamedKey::ArrowUp, SHIFT);
    assert_eq!(default_key_handler(&m, &shifted_up, Mode::Insert), Some(Command::Move(MoveCommand::Up)));
    assert_eq!(default_key_handler(&m, &shifted_up, Mode::Normal), None);
    assert_eq!(default_key_handler(&m, &shifted_up, Mode::Visual(VisualMode::Linewise)), None);
    let shifted_z = chr("z", CONTROL | SHIFT);
    assert_eq!(default_key_handler(&m, &shifted_z, Mode::Insert), Some(Command::Edit(EditCommand::Redo)));
    assert_eq!(default_key_handler(&m, &chr("q", 0), Mode::Insert), None);
}

#[test]
fn home_and_end_move_to_document_ends() {
    for m in [KeypressMap::default_windows(), KeypressMap::default_macos(), KeypressMap::default_linux()] {
        assert_eq!(m.get(&named(NamedKey::Home, 0)), Some(Command::Move(MoveCommand::DocumentStart)));
        assert_eq!(m.get(&named(NamedKey::End, 0)), Some(Command::Move(MoveCommand::DocumentEnd)));
        assert_eq!(m.get(&named(NamedKey::Delete, 0)), Some(Command::Edit(EditCommand::DeleteForward)));
        assert_eq!(m.get(&named(NamedKey::Backspace, SHIFT)), Some(Command::Edit(EditCommand::DeleteForward)));
    }
}
