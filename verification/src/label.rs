//! Text selection in a label: how pointer, focus and key events move the
//! selection between its states, and what the host is asked to do. The
//! host's text layout makes the selections (from a hit point and an
//! anchor) and measures how far the pointer moved; the decisions are made
//! here.
use crate::keyboard::{CONTROL, Key, KeyCode, KeyEvent, META, Modifiers, PhysicalKey};
use crate::list::EventPropagation;
use crate::text_edit::{TextCommand, text_command, text_command_of};
use vstd::prelude::*;

verus! {

/// A selection that the host's text layout made, with whether it is
/// collapsed (selects no text).
#[derive(Clone, Copy, Debug, PartialEq, Eq)]
pub struct HeldSelection<S> {
    pub selection: S,
    pub collapsed: bool,
}

/// Where a label's selection is.
#[derive(Clone, Copy, Debug, PartialEq, Eq)]
pub enum SelectionState<S> {
    /// Nothing is selected.
    Idle,
    /// The primary button went down on the text; the selection is collapsed
    /// there until the pointer moves far enough.
    Ready(HeldSelection<S>),
    /// The pointer is dragging a selection.
    Selecting(HeldSelection<S>),
    /// A selection was made and the button let go.
    Selected(HeldSelection<S>),
}

/// An event as the label's selection sees it.
pub enum LabelEvent<S> {
    /// The label lost keyboard focus.
    FocusLost,
    /// A button went down: whether it is the primary one, whether the
    /// pointer can be captured, and the collapsed selection at the
    /// character hit, if one is.
    PointerDown { primary: bool, has_pointer_id: bool, hit: Option<HeldSelection<S>> },
    /// The pointer moved: whether it is more than 2 pixels from where the
    /// button went down, and the selection from the current anchor to the
    /// character hit, if one is.
    PointerMove { moved_far: bool, drag: Option<HeldSelection<S>> },
    /// A button went up.
    PointerUp,
    /// A key went down: whether the label is the event's target and has
    /// focus, the key event, and whether the platform is macOS.
    KeyDown { at_focused_target: bool, event: KeyEvent, mac: bool },
    /// Anything else.
    Other,
}

/// What the label asks of its host after an event.
#[derive(Clone, Copy, Debug, PartialEq, Eq)]
pub struct LabelActions<S> {
    pub request_paint: bool,
    pub capture_pointer: bool,
    pub request_focus: bool,
    /// The selection whose text goes to the clipboard.
    pub copy: Option<S>,
    pub propagation: EventPropagation,
}

/// No request, and the event goes on.
pub open spec fn no_actions<S>() -> LabelActions<S> {
    LabelActions {
        request_paint: false,
        capture_pointer: false,
        request_focus: false,
        copy: None,
        propagation: EventPropagation::Continue,
    }
}

/// The selection shown: one being made or made, unless it is collapsed.
pub open spec fn shown_selection<S>(state: SelectionState<S>) -> Option<S> {
    match state {
        SelectionState::Selecting(h) => if h.collapsed {
            None
        } else {
            Some(h.selection)
        },
        SelectionState::Selected(h) => if h.collapsed {
            None
        } else {
            Some(h.selection)
        },
        _ => None,
    }
}

/// The state after the pointer reached a new character: a drag from a
/// ready or selecting state goes on as a selection being made; without a
/// character hit, nothing changes.
pub open spec fn dragged<S>(state: SelectionState<S>, drag: Option<HeldSelection<S>>) -> SelectionState<S> {
    match drag {
        Some(d) => match state {
            SelectionState::Ready(_) | SelectionState::Selecting(_) | SelectionState::Selected(
                _,
            ) => SelectionState::Selecting(d),
            SelectionState::Idle => state,
        },
        None => state,
    }
}

/// One step of the selection: the new state and the host's actions.
pub open spec fn label_step<S>(state: SelectionState<S>, event: LabelEvent<S>, selectable: bool) -> (
    SelectionState<S>,
    LabelActions<S>,
) {
    match event {
        LabelEvent::FocusLost => (
            SelectionState::Idle,
            LabelActions { request_paint: true, ..no_actions() },
        ),
        LabelEvent::PointerDown { primary, has_pointer_id, hit } => if selectable && primary {
            (
                match hit {
                    Some(h) => SelectionState::Ready(h),
                    None => SelectionState::Idle,
                },
                LabelActions {
                    request_paint: true,
                    capture_pointer: has_pointer_id,
                    ..no_actions()
                },
            )
        } else {
            (state, no_actions())
        },
        LabelEvent::PointerMove { moved_far, drag } => if !selectable {
            if state is Idle {
                (state, no_actions())
            } else {
                (SelectionState::Idle, LabelActions { request_paint: true, ..no_actions() })
            }
        } else {
            match state {
                SelectionState::Ready(_) => if moved_far {
                    (
                        dragged(state, drag),
                        LabelActions { request_paint: true, request_focus: true, ..no_actions() },
                    )
                } else {
                    (state, no_actions())
                },
                SelectionState::Selecting(_) => (
                    dragged(state, drag),
                    LabelActions { request_paint: true, ..no_actions() },
                ),
                _ => (state, no_actions()),
            }
        },
        LabelEvent::PointerUp => (
            match state {
                SelectionState::Selecting(h) => if !h.collapsed {
                    SelectionState::Selected(h)
                } else {
                    SelectionState::Idle
                },
                _ => SelectionState::Idle,
            },
            LabelActions { request_paint: true, ..no_actions() },
        ),
        LabelEvent::KeyDown { at_focused_target, event, mac } => if at_focused_target
            && event.modifiers.bits != 0 && event.key is Character && text_command_of(
            event.modifiers,
            event.physical_key,
            mac,
        ) == TextCommand::Copy {
            (
                state,
                LabelActions {
                    copy: shown_selection(state),
                    propagation: EventPropagation::Stop,
                    ..no_actions()
                },
            )
        } else {
            (state, no_actions())
        },
        LabelEvent::Other => (state, no_actions()),
    }
}

/// The selection shown, if any.
pub fn selection<S: Copy>(state: &SelectionState<S>) -> (r: Option<S>)
    ensures
        r == shown_selection(*state),
{
    match state {
        SelectionState::Selecting(h) | SelectionState::Selected(h) => if h.collapsed {
            None
        } else {
            Some(h.selection)
        },
        _ => None,
    }
}

fn actions<S>(request_paint: bool, capture_pointer: bool, request_focus: bool) -> (r: LabelActions<S>)
    ensures
        r == (LabelActions::<S> {
            request_paint,
            capture_pointer,
            request_focus,
            ..no_actions()
        }),
{
    LabelActions {
        request_paint,
        capture_pointer,
        request_focus,
        copy: None,
        propagation: EventPropagation::Continue,
    }
}

/// How a label's selection answers an event: focus lost clears it; a
/// primary press on selectable text makes it ready at the character hit;
/// moving far enough (or on, once dragging) selects up to the character
/// hit; letting go keeps a non-empty selection; the copy chord at the
/// focused label hands the shown selection to the clipboard and stops the
/// event. A label that is not selectable drops its selection when the
/// pointer moves.
pub fn label_selection_step<S: Copy>(state: SelectionState<S>, event: LabelEvent<S>, selectable: bool) -> (r: (
    SelectionState<S>,
    LabelActions<S>,
))
    ensures
        r == label_step(state, event, selectable),
{
    match event {
        LabelEvent::FocusLost => (SelectionState::Idle, actions(true, false, false)),
        LabelEvent::PointerDown { primary, has_pointer_id, hit } => {
            if selectable && primary {
                let next = match hit {
                    Some(h) => SelectionState::Ready(h),
                    None => SelectionState::Idle,
                };
                (next, actions(true, has_pointer_id, false))
            } else {
                (state, actions(false, false, false))
            }
        },
        LabelEvent::PointerMove { moved_far, drag } => {
            if !selectable {
                match state {
                    SelectionState::Idle => (state, actions(false, false, false)),
                    _ => (SelectionState::Idle, actions(true, false, false)),
                }
            } else {
                match state {
                    SelectionState::Ready(_) => {
                        if moved_far {
                            let next = match drag {
                                Some(d) => SelectionState::Selecting(d),
                                None => state,
                            };
                            (next, actions(true, false, true))
                        } else {
                            (state, actions(false, false, false))
                        }
                    },
                    SelectionState::Selecting(_) => {
                        let next = match drag {
                            Some(d) => SelectionState::Selecting(d),
                            None => state,
                        };
                        (next, actions(true, false, false))
                    },
                    _ => (state, actions(false, false, false)),
                }
            }
        },
        LabelEvent::PointerUp => {
            let next = match state {
                SelectionState::Selecting(h) => if !h.collapsed {
                    SelectionState::Selected(h)
                } else {
                    SelectionState::Idle
                },
                _ => SelectionState::Idle,
            };
            (next, actions(true, false, false))
        },
        LabelEvent::KeyDown { at_focused_target, event, mac } => {
            let is_character = match &event.key {
                Key::Character(_) => true,
                _ => false,
            };
            if at_focused_target && !event.modifiers.is_empty() && is_character && text_command(
                event.modifiers,
                event.physical_key,
                mac,
            ) == TextCommand::Copy {
                let copy = selection(&state);
                (
                    state,
                    LabelActions {
                        request_paint: false,
                        capture_pointer: false,
                        request_focus: false,
                        copy,
                        propagation: EventPropagation::Stop,
                    },
                )
            } else {
                (state, actions(false, false, false))
            }
        },
        LabelEvent::Other => (state, actions(false, false, false)),
    }
}

/// What the label's selection steps promise over every state: losing focus
/// shows nothing; letting go keeps exactly the selection being dragged (an
/// empty one is dropped) and shows nothing otherwise; dragging on selectable
/// text shows the selection up to the character hit; a label that is not
/// selectable shows nothing once the pointer moves; a key never changes the
/// selection, and the copy chord (Ctrl+C, Cmd+C on macOS) at the focused
/// label hands over exactly the selection shown and stops the event.
pub proof fn lemma_label_selection_laws<S>(
    state: SelectionState<S>,
    selectable: bool,
    moved_far: bool,
    d: HeldSelection<S>,
    event: KeyEvent,
    at_focused_target: bool,
    mac: bool,
    ch: String,
)
    ensures
        shown_selection(label_step(state, LabelEvent::FocusLost, selectable).0) is None,
        shown_selection(label_step(state, LabelEvent::PointerUp, selectable).0) == if state is Selecting {
            shown_selection(state)
        } else {
            None
        },
        selectable && state is Selecting ==> shown_selection(
            label_step(state, LabelEvent::PointerMove { moved_far, drag: Some(d) }, selectable).0,
        ) == if d.collapsed {
            None
        } else {
            Some(d.selection)
        },
        !selectable ==> shown_selection(
            label_step(state, LabelEvent::PointerMove { moved_far, drag: Some(d) }, selectable).0,
        ) is None,
        label_step(state, LabelEvent::KeyDown { at_focused_target, event, mac }, selectable).0 == state,
        ({
            let copy_chord = KeyEvent {
                key: Key::Character(ch),
                physical_key: PhysicalKey::Code(KeyCode::KeyC),
                modifiers: Modifiers { bits: if mac { META } else { CONTROL } },
            };
            let r = label_step(state, LabelEvent::KeyDown { at_focused_target: true, event: copy_chord, mac }, selectable);
            &&& r.0 == state
            &&& r.1.copy == shown_selection(state)
            &&& r.1.propagation == EventPropagation::Stop
        }),
{
}

} // verus!
