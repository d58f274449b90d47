//! Keyboard navigation of the selection in lists and virtual lists.
use crate::keyboard::{Key, NamedKey};
use vstd::prelude::*;

verus! {

/// Event fired when a list's selection changes
#[derive(Debug, Clone, Copy, PartialEq)]
pub struct ListSelectionChanged {
    /// The previous selection index
    pub old_selection: Option<usize>,
    /// The new selection index
    pub new_selection: Option<usize>,
}

/// Event fired when a list item is accepted (Enter key or Space)
#[derive(Debug, Clone, Copy, PartialEq)]
pub struct ListAccept {
    /// The accepted selection index
    pub selection: Option<usize>,
}

/// Whether an event goes on to other handlers.
#[derive(Debug, Clone, Copy, PartialEq, Eq, Structural)]
pub enum EventPropagation {
    Stop,
    Continue,
}

/// The main axis (and its orientation) along which a list lays out its
/// items.
#[derive(Debug, Clone, Copy, PartialEq, Eq, Structural)]
pub enum FlexDirection {
    Row,
    RowReverse,
    Column,
    ColumnReverse,
}

/// The selection after a key press in a list of `length` items; `None`
/// when the key leaves it as it is.
pub open spec fn list_key_target(current: Option<usize>, length: int, key: NamedKey) -> Option<int> {
    match key {
        NamedKey::Home => if length > 0 {
            Some(0)
        } else {
            None
        },
        NamedKey::End => if length > 0 {
            Some(length - 1)
        } else {
            None
        },
        NamedKey::ArrowUp => match current {
            Some(i) => if i > 0 {
                Some(i - 1)
            } else {
                None
            },
            None => if length > 0 {
                Some(length - 1)
            } else {
                None
            },
        },
        NamedKey::ArrowDown => match current {
            Some(i) => if i < length - 1 {
                Some(i + 1)
            } else {
                None
            },
            None => if length > 0 {
                Some(0)
            } else {
                None
            },
        },
        _ => None,
    }
}

/// Whether a list handles this key itself.
pub open spec fn list_handles(key: Key) -> bool {
    key == Key::Named(NamedKey::Home) || key == Key::Named(NamedKey::End) || key == Key::Named(
        NamedKey::ArrowUp,
    ) || key == Key::Named(NamedKey::ArrowDown)
}

/// A key press in a list of `length` items: the selection to set (if any)
/// and whether the event stops here. Home and End go to the first and last
/// item, the arrows step up and down without wrapping.
pub fn list_key_selection(current: Option<usize>, length: usize, key: &Key) -> (r: (
    Option<usize>,
    EventPropagation,
))
    requires
        !(current is Some && length == 0 && *key == Key::Named(NamedKey::ArrowDown)),
    ensures
        list_handles(*key) ==> r.1 == EventPropagation::Stop && match key {
            Key::Named(n) => match r.0 {
                Some(x) => list_key_target(current, length as int, *n) == Some(x as int),
                None => list_key_target(current, length as int, *n) is None,
            },
            _ => false,
        },
        !list_handles(*key) ==> r.0 is None && r.1 == EventPropagation::Continue,
{
    let n = match key {
        Key::Named(n) => *n,
        _ => {
            return (None, EventPropagation::Continue);
        },
    };
    match n {
        NamedKey::Home => (
            if length > 0 {
                Some(0)
            } else {
                None
            },
            EventPropagation::Stop,
        ),
        NamedKey::End => (
            if length > 0 {
                Some(length - 1)
            } else {
                None
            },
            EventPropagation::Stop,
        ),
        NamedKey::ArrowUp => {
            let sel = match current {
                Some(i) => if i > 0 {
                    Some(i - 1)
                } else {
                    None
                },
                None => if length > 0 {
                    Some(length - 1)
                } else {
                    None
                },
            };
            (sel, EventPropagation::Stop)
        },
        NamedKey::ArrowDown => {
            let sel = match current {
                Some(i) => if i < length - 1 {
                    Some(i + 1)
                } else {
                    None
                },
                None => if length > 0 {
                    Some(0)
                } else {
                    None
                },
            };
            (sel, EventPropagation::Stop)
        },
        _ => (None, EventPropagation::Continue),
    }
}

/// Whether the arrow moves forward along the list's main axis.
pub open spec fn moves_forward(direction: FlexDirection, key: NamedKey) -> bool {
    (direction == FlexDirection::Row && key == NamedKey::ArrowRight) || (direction
        == FlexDirection::RowReverse && key == NamedKey::ArrowLeft) || (direction
        == FlexDirection::Column && key == NamedKey::ArrowDown) || (direction
        == FlexDirection::ColumnReverse && key == NamedKey::ArrowUp)
}

/// Whether the arrow moves backward along the list's main axis.
pub open spec fn moves_backward(direction: FlexDirection, key: NamedKey) -> bool {
    (direction == FlexDirection::Row && key == NamedKey::ArrowLeft) || (direction
        == FlexDirection::RowReverse && key == NamedKey::ArrowRight) || (direction
        == FlexDirection::Column && key == NamedKey::ArrowUp) || (direction
        == FlexDirection::ColumnReverse && key == NamedKey::ArrowDown)
}

/// Whether the arrow points across the list's main axis.
pub open spec fn is_cross_axis(direction: FlexDirection, key: NamedKey) -> bool {
    ((direction == FlexDirection::Row || direction == FlexDirection::RowReverse) && (key
        == NamedKey::ArrowUp || key == NamedKey::ArrowDown)) || ((direction
        == FlexDirection::Column || direction == FlexDirection::ColumnReverse) && (key
        == NamedKey::ArrowLeft || key == NamedKey::ArrowRight))
}

/// The selection after an arrow key in a virtual list laid out along
/// `direction`; `None` when it stays as it is.
pub open spec fn arrow_key_target(
    current: Option<usize>,
    len: int,
    direction: FlexDirection,
    key: NamedKey,
) -> Option<int> {
    if is_cross_axis(direction, key) {
        None
    } else {
        match current {
            Some(i) => if moves_backward(direction, key) && i > 0 {
                Some(i - 1)
            } else if moves_forward(direction, key) && i < len - 1 {
                Some(i + 1)
            } else {
                None
            },
            None => if len > 0 {
                if moves_backward(direction, key) {
                    Some(len - 1)
                } else {
                    Some(0)
                }
            } else {
                None
            },
        }
    }
}

/// An arrow key in a virtual list of `len` items laid out along
/// `direction`: the selection to set (if any) and whether the event stops
/// here. Arrows across the main axis are left to other handlers.
pub fn handle_arrow_key(current: Option<usize>, len: usize, direction: FlexDirection, key: NamedKey) -> (r: (
    Option<usize>,
    EventPropagation,
))
    requires
        !(current is Some && len == 0 && moves_forward(direction, key)),
    ensures
        match r.0 {
            Some(x) => arrow_key_target(current, len as int, direction, key) == Some(x as int),
            None => arrow_key_target(current, len as int, direction, key) is None,
        },
        r.1 == if is_cross_axis(direction, key) {
            EventPropagation::Continue
        } else {
            EventPropagation::Stop
        },
{
    let should_move_forward = (direction == FlexDirection::Row && key == NamedKey::ArrowRight)
        || (direction == FlexDirection::RowReverse && key == NamedKey::ArrowLeft) || (direction
        == FlexDirection::Column && key == NamedKey::ArrowDown) || (direction
        == FlexDirection::ColumnReverse && key == NamedKey::ArrowUp);
    let should_move_backward = (direction == FlexDirection::Row && key == NamedKey::ArrowLeft)
        || (direction == FlexDirection::RowReverse && key == NamedKey::ArrowRight) || (direction
        == FlexDirection::Column && key == NamedKey::ArrowUp) || (direction
        == FlexDirection::ColumnReverse && key == NamedKey::ArrowDown);
    let cross = ((direction == FlexDirection::Row || direction == FlexDirection::RowReverse) && (
    key == NamedKey::ArrowUp || key == NamedKey::ArrowDown)) || ((direction
        == FlexDirection::Column || direction == FlexDirection::ColumnReverse) && (key
        == NamedKey::ArrowLeft || key == NamedKey::ArrowRight));
    if cross {
        return (None, EventPropagation::Continue);
    }
    let sel = match current {
        Some(i) => {
            if should_move_backward && i > 0 {
                Some(i - 1)
            } else if should_move_forward && i < len - 1 {
                Some(i + 1)
            } else {
                None
            }
        },
        None => {
            if len > 0 {
                Some(
                    if should_move_backward {
                        len - 1
                    } else {
                        0
                    },
                )
            } else {
                None
            }
        },
    };
    (sel, EventPropagation::Stop)
}

/// Keyboard navigation never selects past the end: from a selection inside
/// the list (or none), every key leads to an index inside the list.
pub proof fn lemma_list_navigation_stays_in_bounds(current: Option<usize>, length: int, key: NamedKey, direction: FlexDirection)
    requires
        current matches Some(i) ==> i < length,
    ensures
        list_key_target(current, length, key) matches Some(x) ==> 0 <= x < length,
        arrow_key_target(current, length, direction, key) matches Some(x) ==> 0 <= x < length,
{
}

/// The arrow keys move the selection by exactly one item and stop at the
/// ends: ArrowUp from item `i > 0` selects `i - 1`, ArrowDown from an item
/// before the last selects `i + 1`, and at the first (last) item ArrowUp
/// (ArrowDown) leaves the selection. With nothing selected, ArrowUp picks
/// the last item and ArrowDown the first; Home and End pick the first and
/// the last.
pub proof fn lemma_list_arrows_step_by_one(i: usize, length: int)
    ensures
        0 < i < length ==> list_key_target(Some(i), length, NamedKey::ArrowUp) == Some(i - 1),
        i == 0 ==> list_key_target(Some(i), length, NamedKey::ArrowUp) is None,
        i + 1 < length ==> list_key_target(Some(i), length, NamedKey::ArrowDown) == Some(i + 1),
        i + 1 >= length ==> list_key_target(Some(i), length, NamedKey::ArrowDown) is None,
        length > 0 ==> list_key_target(None, length, NamedKey::ArrowUp) == Some(length - 1),
        length > 0 ==> list_key_target(None, length, NamedKey::ArrowDown) == Some(0int),
        length > 0 ==> list_key_target(Some(i), length, NamedKey::Home) == Some(0int),
        length > 0 ==> list_key_target(Some(i), length, NamedKey::End) == Some(length - 1),
{
}

/// In a virtual list the arrow along the layout steps one item toward the
/// end (Down in a column, Right in a row, Up and Left when reversed), the
/// opposite arrow one item toward the start, neither past an end; arrows
/// across the layout leave the selection.
pub proof fn lemma_virtual_list_arrows_step_by_one(i: usize, len: int, direction: FlexDirection)
    ensures
        ({
            let (fwd, back, across1, across2) = match direction {
                FlexDirection::Column => (NamedKey::ArrowDown, NamedKey::ArrowUp, NamedKey::ArrowLeft, NamedKey::ArrowRight),
                FlexDirection::ColumnReverse => (NamedKey::ArrowUp, NamedKey::ArrowDown, NamedKey::ArrowLeft, NamedKey::ArrowRight),
                FlexDirection::Row => (NamedKey::ArrowRight, NamedKey::ArrowLeft, NamedKey::ArrowUp, NamedKey::ArrowDown),
                FlexDirection::RowReverse => (NamedKey::ArrowLeft, NamedKey::ArrowRight, NamedKey::ArrowUp, NamedKey::ArrowDown),
            };
            &&& i + 1 < len ==> arrow_key_target(Some(i), len, direction, fwd) == Some(i + 1)
            &&& i + 1 >= len ==> arrow_key_target(Some(i), len, direction, fwd) is None
            &&& 0 < i ==> arrow_key_target(Some(i), len, direction, back) == Some(i - 1)
            &&& i == 0 ==> arrow_key_target(Some(i), len, direction, back) is None
            &&& arrow_key_target(Some(i), len, direction, across1) is None
            &&& arrow_key_target(Some(i), len, direction, across2) is None
            &&& len > 0 ==> arrow_key_target(None, len, direction, fwd) == Some(0int)
            &&& len > 0 ==> arrow_key_target(None, len, direction, back) == Some(len - 1)
        }),
{
}

} // verus!
