use floem_views::keyboard::{Key, KeyCode, KeyEvent, Modifiers, PhysicalKey, CONTROL, META};
use floem_views::label::{label_selection_step, selection, HeldSelection, LabelEvent, SelectionState};
use floem_views::list::EventPropagation;

fn held(a: usize, b: usize) -> HeldSelection<(usize, usize)> {
    HeldSelection { selection: (a, b), collapsed: a == b }
}

fn copy_key(bits: u32) -> KeyEvent {
    KeyEvent {
        key: Key::Character("c".to_string()),
        physical_key: PhysicalKey::Code(KeyCode::KeyC),
        modifiers: Modifiers { bits },
    }
}

#[test]
fn press_drag_release_selects() {
    let down = LabelEvent::PointerDown { primary: true, has_pointer_id: true, hit: Some(held(2, 2)) };
    let (st, a) = label_selection_step(SelectionState::Idle, down, true);
    assert_eq!(st, SelectionState::Ready(held(2, 2)));
    assert!(a.request_paint && a.capture_pointer && !a.request_focus);

    let near = LabelEvent::PointerMove { moved_far: false, drag: Some(held(2, 3)) };
    let (st, a) = label_selection_step(st, near, true);
    assert_eq!(st, SelectionState::Ready(held(2, 2)));
    assert!(!a.request_paint);

    let far = LabelEvent::PointerMove { moved_far: true, drag: Some(held(2, 5)) };
    let (st, a) = label_selection_step(st, far, true);
    assert_eq!(st, SelectionState::Selecting(held(2, 5)));
    assert!(a.request_paint && a.request_focus);
    assert_eq!(selection(&st), Some((2, 5)));

    let (st, a) = label_selection_step(st, LabelEvent::PointerUp, true);
    assert_eq!(st, SelectionState::Selected(held(2, 5)));
    assert_eq!(a.propagation, EventPropagation::Continue);

    let (st2, a) = label_selection_step(st, LabelEvent::KeyDown { at_focused_target: true, event: copy_key(CONTROL), mac: false }, true);
    assert_eq!(a.copy, Some((2, 5)));
    assert_eq!(a.propagation, EventPropagation::Stop);
    assert_eq!(st2, st);

    let (_, a) = label_selection_step(st, LabelEvent::KeyDown { at_focused_target: true, event: copy_key(META), mac: false }, true);
    assert_eq!(a.copy, None);
    assert_eq!(a.propagation, EventPropagation::Continue);

    let (st, a) = label_selection_step(st, LabelEvent::FocusLost, true);
    assert_eq!(st, SelectionState::Idle);
    assert!(a.request_paint);
}

#[test]
fn collapsed_release_and_unselectable_labels_clear() {
    let (st, _) = label_selection_step(SelectionState::Selecting(held(4, 4)), LabelEvent::PointerUp, true);
    assert_eq!(st, SelectionState::Idle);
    let (st, a) = label_selection_step(
        SelectionState::Selected(held(1, 3)),
        LabelEvent::PointerMove { moved_far: true, drag: None },
        false,
    );
    assert_eq!(st, SelectionState::Idle);
    assert!(a.request_paint);
    let down = LabelEvent::PointerDown { primary: true, has_pointer_id: false, hit: Some(held(0, 0)) };
    let (st, a) = label_selection_step(SelectionState::Idle, down, false);
    assert_eq!(st, SelectionState::Idle);
    assert!(!a.request_paint);
}

#[test]
fn copy_with_nothing_selected_still_stops() {
    let (_, a) = label_selection_step(
        SelectionState::Ready(held(1, 1)),
        LabelEvent::KeyDown { at_focused_target: true, event: copy_key(CONTROL), mac: false },
        true,
    );
    assert_eq!(a.copy, None);
    assert_eq!(a.propagation, EventPropagation::Stop);
    let (_, a) = label_selection_step(
        SelectionState::Selected(held(1, 3)),
        LabelEvent::KeyDown { at_focused_target: false, event: copy_key(CONTROL), mac: false },
        true,
    );
    assert_eq!(a.propagation, EventPropagation::Continue);
}
