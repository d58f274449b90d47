use floem_views::keyboard::{Key, KeyCode, KeyEvent, Modifiers, NamedKey, PhysicalKey, ALT, CONTROL, META, SHIFT};
use floem_views::keypress::{get_key_modifiers, lowercase_modifiers, parse_modifiers, typed_text, KeyInput, KeyPress};

#[test]
fn parse_single_chord_with_modifiers() {
    let ks = KeyPress::parse("Ctrl+Shift+z");
    assert_eq!(ks.len(), 1);
    assert_eq!(ks[0].key, KeyInput::Keyboard(Key::Character("z".to_string()), PhysicalKey::Unidentified));
    assert_eq!(ks[0].mods.bits, CONTROL | SHIFT);
}

#[test]
fn parse_sequence_and_named_keys() {
    let ks = KeyPress::parse("meta+ArrowUp altgr+k Enter");
    assert_eq!(ks.len(), 3);
    assert_eq!(ks[0].key, KeyInput::Keyboard(Key::Named(NamedKey::ArrowUp), PhysicalKey::Unidentified));
    assert_eq!(ks[0].mods.bits, META);
    assert_eq!(ks[1].mods.bits, ALT);
    assert_eq!(ks[2].key, KeyInput::Keyboard(Key::Named(NamedKey::Enter), PhysicalKey::Unidentified));
    assert_eq!(ks[2].mods.bits, 0);
}

#[test]
fn parse_skips_unrecognized_keys() {
    let ks = KeyPress::parse("ctrl+NotAKey a");
    assert_eq!(ks.len(), 1);
    assert_eq!(ks[0].key, KeyInput::Keyboard(Key::Character("a".to_string()), PhysicalKey::Unidentified));
}

#[test]
fn is_char_ignores_shift_only() {
    let k = KeyPress::new(
        KeyInput::Keyboard(Key::Character("A".to_string()), PhysicalKey::Code(KeyCode::KeyA)),
        Modifiers::from_bits(SHIFT),
    );
    assert!(k.is_char());
    let k = KeyPress::new(
        KeyInput::Keyboard(Key::Character("a".to_string()), PhysicalKey::Code(KeyCode::KeyA)),
        Modifiers::from_bits(CONTROL),
    );
    assert!(!k.is_char());
    assert!(!k.is_modifiers());
}

#[test]
fn is_modifiers_for_modifier_key_codes() {
    let k = KeyPress::new(
        KeyInput::Keyboard(Key::Named(NamedKey::Shift), PhysicalKey::Code(KeyCode::ShiftLeft)),
        Modifiers::empty(),
    );
    assert!(k.is_modifiers());
}

#[test]
fn to_lowercase_lowers_character_keys() {
    let k = KeyPress::new(
        KeyInput::Keyboard(Key::Character("Q".to_string()), PhysicalKey::Unidentified),
        Modifiers::from_bits(SHIFT),
    );
    let l = k.to_lowercase();
    assert_eq!(l.key, KeyInput::Keyboard(Key::Character("q".to_string()), PhysicalKey::Unidentified));
    assert_eq!(l.mods.bits, SHIFT);
}

#[test]
fn key_modifiers_drop_the_pressed_modifier() {
    let ev = KeyEvent {
        key: Key::Named(NamedKey::Shift),
        physical_key: PhysicalKey::Code(KeyCode::ShiftLeft),
        modifiers: Modifiers::from_bits(SHIFT | CONTROL),
    };
    assert_eq!(get_key_modifiers(&ev).bits, CONTROL);
    let ev = KeyEvent {
        key: Key::Character("x".to_string()),
        physical_key: PhysicalKey::Code(KeyCode::KeyX),
        modifiers: Modifiers::from_bits(SHIFT | CONTROL),
    };
    assert_eq!(get_key_modifiers(&ev).bits, SHIFT | CONTROL);
}

#[test]
fn key_press_from_event_drops_own_modifier() {
    let ev = KeyEvent {
        key: Key::Named(NamedKey::Alt),
        physical_key: PhysicalKey::Code(KeyCode::AltLeft),
        modifiers: Modifiers { bits: ALT | SHIFT },
    };
    let k = KeyPress::try_from(&ev).unwrap();
    assert_eq!(k.key, KeyInput::Keyboard(Key::Named(NamedKey::Alt), PhysicalKey::Code(KeyCode::AltLeft)));
    assert_eq!(k.mods.bits, SHIFT);
    assert!(k.is_modifiers());
}

#[test]
fn modifier_names_in_any_case() {
    assert_eq!(parse_modifiers("Ctrl+SHIFT+bogus").bits, CONTROL | SHIFT);
    assert_eq!(lowercase_modifiers("meta+altgr").bits, META | ALT);
    assert_eq!(lowercase_modifiers("Meta").bits, 0);
    assert_eq!(lowercase_modifiers("").bits, 0);
}

#[test]
fn parse_keeps_each_named_key_apart() {
    let ks = KeyPress::parse("F1 F2 ctrl+Escape é");
    assert_eq!(ks.len(), 4);
    assert_eq!(ks[0].key, KeyInput::Keyboard(Key::Other("F1".to_string()), PhysicalKey::Unidentified));
    assert_eq!(ks[1].key, KeyInput::Keyboard(Key::Other("F2".to_string()), PhysicalKey::Unidentified));
    assert_ne!(ks[0].key, ks[1].key);
    assert_eq!(ks[2].key, KeyInput::Keyboard(Key::Named(NamedKey::Escape), PhysicalKey::Unidentified));
    assert_eq!(ks[2].mods.bits, CONTROL);
    assert_eq!(ks[3].key, KeyInput::Keyboard(Key::Character("é".to_string()), PhysicalKey::Unidentified));
}

#[test]
fn typed_text_ignores_shift_and_altgr() {
    let k = KeyPress::parse("a")[0].clone();
    assert_eq!(typed_text(&k, Modifiers { bits: SHIFT }, false), Some("a".to_string()));
    assert_eq!(typed_text(&k, Modifiers { bits: CONTROL }, false), None);
    assert_eq!(typed_text(&k, Modifiers { bits: ALT }, true), Some("a".to_string()));
    assert_eq!(typed_text(&k, Modifiers { bits: ALT }, false), None);
    let e = KeyPress::parse("Enter")[0].clone();
    assert_eq!(typed_text(&e, Modifiers { bits: 0 }, false), None);
}
