//! The editor's default key bindings: which command each key chord runs,
//! per platform, and how a key press is resolved against them.
use crate::assoc::{assoc_map, keys_distinct, lemma_assoc_at, lemma_assoc_dom, lemma_assoc_push, lemma_assoc_update};
use crate::keyboard::{ALT, CONTROL, Key, META, Modifiers, NamedKey, SHIFT};
use crate::keypress::{
    KeyView, chars_eq, chars_of, classify_key_name, copy_key, is_listed_key_name,
    is_key_string, is_single_lowercase_letter, key_view, listed_named_key, named_key_from_name,
};
use vstd::prelude::*;

verus! {

/// Commands that edit the text.
#[derive(Clone, Copy, Debug, PartialEq, Eq, Hash, Structural)]
pub enum EditCommand {
    MoveLineUp,
    MoveLineDown,
    InsertNewLine,
    InsertTab,
    NewLineAbove,
    NewLineBelow,
    DeleteBackward,
    DeleteForward,
    DeleteLine,
    DeleteWordForward,
    DeleteWordBackward,
    DeleteToBeginningOfLine,
    DeleteToEndOfLine,
    Undo,
    Redo,
    ClipboardCut,
    ClipboardCopy,
    ClipboardPaste,
    DuplicateLineUp,
    DuplicateLineDown,
}

/// Commands that move the cursor.
#[derive(Clone, Copy, Debug, PartialEq, Eq, Hash, Structural)]
pub enum MoveCommand {
    Left,
    Right,
    Up,
    Down,
    DocumentStart,
    DocumentEnd,
    LineEnd,
    LineStartNonBlank,
    WordBackward,
    WordEndForward,
}

/// Commands that scroll the view.
#[derive(Clone, Copy, Debug, PartialEq, Eq, Hash, Structural)]
pub enum ScrollCommand {
    PageUp,
    PageDown,
    ScrollUp,
    ScrollDown,
}

/// Commands on the set of selections.
#[derive(Clone, Copy, Debug, PartialEq, Eq, Hash, Structural)]
pub enum MultiSelectionCommand {
    SelectUndo,
    InsertCursorAbove,
    InsertCursorBelow,
    InsertCursorEndOfLine,
    SelectCurrentLine,
    SelectAllCurrent,
    SelectAll,
}

/// A command that a key chord can be bound to.
#[derive(Clone, Copy, Debug, PartialEq, Eq, Hash, Structural)]
pub enum Command {
    Edit(EditCommand),
    Move(MoveCommand),
    Scroll(ScrollCommand),
    MultiSelection(MultiSelectionCommand),
}

/// The visual sub-modes of modal editing.
#[derive(Clone, Copy, Debug, PartialEq, Eq, Hash, Structural)]
pub enum VisualMode {
    Normal,
    Linewise,
    Blockwise,
}

/// The editing mode of the cursor.
#[derive(Clone, Copy, Debug, PartialEq, Eq, Hash, Structural)]
pub enum Mode {
    Normal,
    Insert,
    Visual(VisualMode),
    Terminal,
}

/// A key with the modifiers held.
#[derive(Clone, Debug, PartialEq, Eq, Hash)]
pub struct KeypressKey {
    pub key: Key,
    pub modifiers: Modifiers,
}

/// A key chord as abstract values.
pub open spec fn keypress_key_view(k: KeypressKey) -> (KeyView, Modifiers) {
    (key_view(k.key), k.modifiers)
}

/// The bindings as abstract pairs.
pub open spec fn bindings_view(s: Seq<(KeypressKey, Command)>) -> Seq<((KeyView, Modifiers), Command)> {
    s.map_values(|e: (KeypressKey, Command)| (keypress_key_view(e.0), e.1))
}

/// Whether two key chords are the same.
fn same_keypress(a: &KeypressKey, b: &KeypressKey) -> (r: bool)
    ensures
        r == (keypress_key_view(*a) == keypress_key_view(*b)),
{
    let same_key = match (&a.key, &b.key) {
        (Key::Character(x), Key::Character(y)) => *x == *y,
        (Key::Named(x), Key::Named(y)) => *x == *y,
        (Key::Other(x), Key::Other(y)) => *x == *y,
        _ => false,
    };
    same_key && a.modifiers == b.modifiers
}

/// Key bindings without modal-mode specific bindings: each key chord runs
/// at most one command.
#[derive(Debug)]
pub struct KeypressMap {
    keymaps: Vec<(KeypressKey, Command)>,
}

impl View for KeypressMap {
    type V = Map<(KeyView, Modifiers), Command>;

    closed spec fn view(&self) -> Map<(KeyView, Modifiers), Command> {
        assoc_map(bindings_view(self.keymaps@))
    }
}

impl KeypressMap {
    #[verifier::type_invariant]
    closed spec fn chords_distinct(self) -> bool {
        keys_distinct(bindings_view(self.keymaps@))
    }

    /// A map that binds nothing.
    pub fn new() -> (r: KeypressMap)
        ensures
            r@ == Map::<(KeyView, Modifiers), Command>::empty(),
    {
        let r = KeypressMap { keymaps: Vec::new() };
        proof {
            assert(bindings_view(r.keymaps@) =~= Seq::<((KeyView, Modifiers), Command)>::empty());
        }
        r
    }

    /// The command bound to a key chord.
    pub fn get(&self, key: &KeypressKey) -> (r: Option<Command>)
        ensures
            match r {
                Some(c) => self@.dom().contains(keypress_key_view(*key)) && self@[keypress_key_view(
                    *key,
                )] == c,
                None => !self@.dom().contains(keypress_key_view(*key)),
            },
    {
        proof {
            use_type_invariant(self);
            lemma_assoc_dom(bindings_view(self.keymaps@), keypress_key_view(*key));
        }
        let ghost bs = bindings_view(self.keymaps@);
        let mut i: usize = 0;
        while i < self.keymaps.len()
            invariant
                i <= self.keymaps@.len(),
                bs == bindings_view(self.keymaps@),
                keys_distinct(bs),
                forall|j: int| 0 <= j < i ==> (#[trigger] bs[j]).0 != keypress_key_view(*key),
            decreases self.keymaps@.len() - i,
        {
            if same_keypress(&self.keymaps[i].0, key) {
                proof {
                    lemma_assoc_at(bs, i as int);
                }
                return Some(self.keymaps[i].1);
            }
            i = i + 1;
        }
        None
    }

    /// Binds a key chord to a command, replacing what it was bound to.
    pub fn insert(&mut self, key: KeypressKey, command: Command)
        ensures
            final(self)@ == old(self)@.insert(keypress_key_view(key), command),
    {
        proof {
            use_type_invariant(&*self);
        }
        let mut entries: Vec<(KeypressKey, Command)> = Vec::new();
        std::mem::swap(&mut entries, &mut self.keymaps);
        let ghost before = bindings_view(entries@);
        let ghost kv = keypress_key_view(key);
        let mut i: usize = 0;
        while i < entries.len()
            invariant
                i <= entries@.len(),
                before == bindings_view(entries@),
                assoc_map(before) == old(self)@,
                keys_distinct(before),
                kv == keypress_key_view(key),
                forall|j: int| 0 <= j < i ==> (#[trigger] before[j]).0 != kv,
            decreases entries@.len() - i,
        {
            if same_keypress(&entries[i].0, &key) {
                proof {
                    lemma_assoc_update(before, i as int, (kv, command));
                }
                entries.set(i, (key, command));
                proof {
                    assert(bindings_view(entries@) =~= before.update(i as int, (kv, command)));
                }
                self.keymaps = entries;
                return;
            }
            i = i + 1;
        }
        proof {
            lemma_assoc_push(before, (kv, command));
        }
        entries.push((key, command));
        proof {
            assert(bindings_view(entries@) =~= before.push((kv, command)));
        }
        self.keymaps = entries;
    }
}


/// The key chord that a key name and modifier bits stand for: a single
/// lower-case letter is a character key, any other name a named key.
pub open spec fn chord(name: Seq<char>, bits: u32) -> (KeyView, Modifiers) {
    let k = if is_single_lowercase_letter(name) {
        KeyView::Character(name)
    } else {
        KeyView::Named(listed_named_key(name)->0)
    };
    (k, Modifiers { bits })
}

/// The key chord of a key name (parsed as the keyboard types parse it) and
/// modifier bits.
fn key(s: &str, bits: u32) -> (r: KeypressKey)
    requires
        is_listed_key_name(s@) || is_single_lowercase_letter(s@),
    ensures
        keypress_key_view(r) == chord(s@, bits),
{
    let k = match classify_key_name(s) {
        Some(true) => Key::Character(s.to_owned()),
        _ => match named_key_from_name(&chars_of(s)) {
            Some(n) => Key::Named(n),
            None => Key::Other(s.to_owned()),
        },
    };
    KeypressKey { key: k, modifiers: Modifiers { bits } }
}

/// The bindings of every platform, added to `m` in order.
pub open spec fn with_common_bindings(m: Map<(KeyView, Modifiers), Command>) -> Map<(KeyView, Modifiers), Command> {
    m
        .insert(chord("ArrowUp"@, ALT), Command::Edit(EditCommand::MoveLineUp))
        .insert(chord("ArrowDown"@, ALT), Command::Edit(EditCommand::MoveLineDown))
        .insert(chord("Delete"@, 0), Command::Edit(EditCommand::DeleteForward))
        .insert(chord("Backspace"@, 0), Command::Edit(EditCommand::DeleteBackward))
        .insert(chord("Backspace"@, SHIFT), Command::Edit(EditCommand::DeleteForward))
        .insert(chord("Home"@, 0), Command::Move(MoveCommand::DocumentStart))
        .insert(chord("End"@, 0), Command::Move(MoveCommand::DocumentEnd))
        .insert(chord("PageUp"@, 0), Command::Scroll(ScrollCommand::PageUp))
        .insert(chord("PageDown"@, 0), Command::Scroll(ScrollCommand::PageDown))
        .insert(chord("PageUp"@, CONTROL), Command::Scroll(ScrollCommand::ScrollUp))
        .insert(chord("PageDown"@, CONTROL), Command::Scroll(ScrollCommand::ScrollDown))
        .insert(chord("i"@, ALT | SHIFT), Command::MultiSelection(MultiSelectionCommand::InsertCursorEndOfLine))
        .insert(chord("ArrowRight"@, 0), Command::Move(MoveCommand::Right))
        .insert(chord("ArrowLeft"@, 0), Command::Move(MoveCommand::Left))
        .insert(chord("ArrowUp"@, 0), Command::Move(MoveCommand::Up))
        .insert(chord("ArrowDown"@, 0), Command::Move(MoveCommand::Down))
        .insert(chord("Enter"@, 0), Command::Edit(EditCommand::InsertNewLine))
        .insert(chord("Tab"@, 0), Command::Edit(EditCommand::InsertTab))
        .insert(chord("ArrowUp"@, ALT | SHIFT), Command::Edit(EditCommand::DuplicateLineUp))
        .insert(chord("ArrowDown"@, ALT | SHIFT), Command::Edit(EditCommand::DuplicateLineDown))
}

/// The bindings of macOS, added to `m` in order.
pub open spec fn with_macos_bindings(m: Map<(KeyView, Modifiers), Command>) -> Map<(KeyView, Modifiers), Command> {
    m
        .insert(chord("z"@, META), Command::Edit(EditCommand::Undo))
        .insert(chord("z"@, META | SHIFT), Command::Edit(EditCommand::Redo))
        .insert(chord("y"@, META), Command::Edit(EditCommand::Redo))
        .insert(chord("x"@, META), Command::Edit(EditCommand::ClipboardCut))
        .insert(chord("c"@, META), Command::Edit(EditCommand::ClipboardCopy))
        .insert(chord("v"@, META), Command::Edit(EditCommand::ClipboardPaste))
        .insert(chord("ArrowRight"@, ALT), Command::Move(MoveCommand::WordEndForward))
        .insert(chord("ArrowLeft"@, ALT), Command::Move(MoveCommand::WordBackward))
        .insert(chord("ArrowLeft"@, META), Command::Move(MoveCommand::LineStartNonBlank))
        .insert(chord("ArrowRight"@, META), Command::Move(MoveCommand::LineEnd))
        .insert(chord("a"@, CONTROL), Command::Move(MoveCommand::LineStartNonBlank))
        .insert(chord("e"@, CONTROL), Command::Move(MoveCommand::LineEnd))
        .insert(chord("k"@, META | SHIFT), Command::Edit(EditCommand::DeleteLine))
        .insert(chord("Backspace"@, ALT), Command::Edit(EditCommand::DeleteWordBackward))
        .insert(chord("Backspace"@, META), Command::Edit(EditCommand::DeleteToBeginningOfLine))
        .insert(chord("k"@, CONTROL), Command::Edit(EditCommand::DeleteToEndOfLine))
        .insert(chord("Delete"@, ALT), Command::Edit(EditCommand::DeleteWordForward))
        .insert(chord("a"@, META), Command::MultiSelection(MultiSelectionCommand::SelectAll))
        .insert(chord("Enter"@, META), Command::Edit(EditCommand::NewLineBelow))
        .insert(chord("Enter"@, META | SHIFT), Command::Edit(EditCommand::NewLineAbove))
        .insert(chord("ArrowUp"@, ALT | META), Command::MultiSelection(MultiSelectionCommand::InsertCursorAbove))
        .insert(chord("ArrowDown"@, ALT | META), Command::MultiSelection(MultiSelectionCommand::InsertCursorBelow))
        .insert(chord("l"@, META), Command::MultiSelection(MultiSelectionCommand::SelectCurrentLine))
        .insert(chord("l"@, META | SHIFT), Command::MultiSelection(MultiSelectionCommand::SelectAllCurrent))
        .insert(chord("u"@, META), Command::MultiSelection(MultiSelectionCommand::SelectUndo))
        .insert(chord("ArrowUp"@, META), Command::Move(MoveCommand::DocumentStart))
        .insert(chord("ArrowDown"@, META), Command::Move(MoveCommand::DocumentEnd))
}

/// The bindings of the other platforms, added to `m` in order.
pub open spec fn with_nonmacos_bindings(m: Map<(KeyView, Modifiers), Command>) -> Map<(KeyView, Modifiers), Command> {
    m
        .insert(chord("z"@, CONTROL), Command::Edit(EditCommand::Undo))
        .insert(chord("z"@, CONTROL | SHIFT), Command::Edit(EditCommand::Redo))
        .insert(chord("y"@, CONTROL), Command::Edit(EditCommand::Redo))
        .insert(chord("x"@, CONTROL), Command::Edit(EditCommand::ClipboardCut))
        .insert(chord("Delete"@, SHIFT), Command::Edit(EditCommand::ClipboardCut))
        .insert(chord("c"@, CONTROL), Command::Edit(EditCommand::ClipboardCopy))
        .insert(chord("Insert"@, CONTROL), Command::Edit(EditCommand::ClipboardCopy))
        .insert(chord("v"@, CONTROL), Command::Edit(EditCommand::ClipboardPaste))
        .insert(chord("Insert"@, SHIFT), Command::Edit(EditCommand::ClipboardPaste))
        .insert(chord("ArrowRight"@, CONTROL), Command::Move(MoveCommand::WordEndForward))
        .insert(chord("ArrowLeft"@, CONTROL), Command::Move(MoveCommand::WordBackward))
        .insert(chord("Backspace"@, CONTROL), Command::Edit(EditCommand::DeleteWordBackward))
        .insert(chord("Delete"@, CONTROL), Command::Edit(EditCommand::DeleteWordForward))
        .insert(chord("a"@, CONTROL), Command::MultiSelection(MultiSelectionCommand::SelectAll))
        .insert(chord("Enter"@, CONTROL), Command::Edit(EditCommand::NewLineAbove))
        .insert(chord("ArrowUp"@, CONTROL | ALT), Command::MultiSelection(MultiSelectionCommand::InsertCursorAbove))
        .insert(chord("ArrowDown"@, CONTROL | ALT), Command::MultiSelection(MultiSelectionCommand::InsertCursorBelow))
        .insert(chord("l"@, CONTROL), Command::MultiSelection(MultiSelectionCommand::SelectCurrentLine))
        .insert(chord("l"@, CONTROL | SHIFT), Command::MultiSelection(MultiSelectionCommand::SelectAllCurrent))
        .insert(chord("u"@, CONTROL), Command::MultiSelection(MultiSelectionCommand::SelectUndo))
        .insert(chord("Home"@, CONTROL), Command::Move(MoveCommand::DocumentStart))
        .insert(chord("End"@, CONTROL), Command::Move(MoveCommand::DocumentEnd))
}

/// Adds the bindings of every platform.
fn add_default_common(c: &mut KeypressMap)
    ensures
        final(c)@ == with_common_bindings(old(c)@),
{
    proof {
        reveal_strlit("i");
    }
    c.insert(key("ArrowUp", ALT), Command::Edit(EditCommand::MoveLineUp));
    c.insert(key("ArrowDown", ALT), Command::Edit(EditCommand::MoveLineDown));
    c.insert(key("Delete", 0), Command::Edit(EditCommand::DeleteForward));
    c.insert(key("Backspace", 0), Command::Edit(EditCommand::DeleteBackward));
    c.insert(key("Backspace", SHIFT), Command::Edit(EditCommand::DeleteForward));
    c.insert(key("Home", 0), Command::Move(MoveCommand::DocumentStart));
    c.insert(key("End", 0), Command::Move(MoveCommand::DocumentEnd));
    c.insert(key("PageUp", 0), Command::Scroll(ScrollCommand::PageUp));
    c.insert(key("PageDown", 0), Command::Scroll(ScrollCommand::PageDown));
    c.insert(key("PageUp", CONTROL), Command::Scroll(ScrollCommand::ScrollUp));
    c.insert(key("PageDown", CONTROL), Command::Scroll(ScrollCommand::ScrollDown));
    c.insert(key("i", ALT | SHIFT), Command::MultiSelection(MultiSelectionCommand::InsertCursorEndOfLine));
    c.insert(key("ArrowRight", 0), Command::Move(MoveCommand::Right));
    c.insert(key("ArrowLeft", 0), Command::Move(MoveCommand::Left));
    c.insert(key("ArrowUp", 0), Command::Move(MoveCommand::Up));
    c.insert(key("ArrowDown", 0), Command::Move(MoveCommand::Down));
    c.insert(key("Enter", 0), Command::Edit(EditCommand::InsertNewLine));
    c.insert(key("Tab", 0), Command::Edit(EditCommand::InsertTab));
    c.insert(key("ArrowUp", ALT | SHIFT), Command::Edit(EditCommand::DuplicateLineUp));
    c.insert(key("ArrowDown", ALT | SHIFT), Command::Edit(EditCommand::DuplicateLineDown));
}

/// Adds the bindings of macOS.
fn add_default_macos(c: &mut KeypressMap)
    ensures
        final(c)@ == with_macos_bindings(old(c)@),
{
    proof {
        reveal_strlit("a");
        reveal_strlit("c");
        reveal_strlit("e");
        reveal_strlit("k");
        reveal_strlit("l");
        reveal_strlit("u");
        reveal_strlit("v");
        reveal_strlit("x");
        reveal_strlit("y");
        reveal_strlit("z");
    }
    c.insert(key("z", META), Command::Edit(EditCommand::Undo));
    c.insert(key("z", META | SHIFT), Command::Edit(EditCommand::Redo));
    c.insert(key("y", META), Command::Edit(EditCommand::Redo));
    c.insert(key("x", META), Command::Edit(EditCommand::ClipboardCut));
    c.insert(key("c", META), Command::Edit(EditCommand::ClipboardCopy));
    c.insert(key("v", META), Command::Edit(EditCommand::ClipboardPaste));
    c.insert(key("ArrowRight", ALT), Command::Move(MoveCommand::WordEndForward));
    c.insert(key("ArrowLeft", ALT), Command::Move(MoveCommand::WordBackward));
    c.insert(key("ArrowLeft", META), Command::Move(MoveCommand::LineStartNonBlank));
    c.insert(key("ArrowRight", META), Command::Move(MoveCommand::LineEnd));
    c.insert(key("a", CONTROL), Command::Move(MoveCommand::LineStartNonBlank));
    c.insert(key("e", CONTROL), Command::Move(MoveCommand::LineEnd));
    c.insert(key("k", META | SHIFT), Command::Edit(EditCommand::DeleteLine));
    c.insert(key("Backspace", ALT), Command::Edit(EditCommand::DeleteWordBackward));
    c.insert(key("Backspace", META), Command::Edit(EditCommand::DeleteToBeginningOfLine));
    c.insert(key("k", CONTROL), Command::Edit(EditCommand::DeleteToEndOfLine));
    c.insert(key("Delete", ALT), Command::Edit(EditCommand::DeleteWordForward));
    c.insert(key("a", META), Command::MultiSelection(MultiSelectionCommand::SelectAll));
    c.insert(key("Enter", META), Command::Edit(EditCommand::NewLineBelow));
    c.insert(key("Enter", META | SHIFT), Command::Edit(EditCommand::NewLineAbove));
    c.insert(key("ArrowUp", ALT | META), Command::MultiSelection(MultiSelectionCommand::InsertCursorAbove));
    c.insert(key("ArrowDown", ALT | META), Command::MultiSelection(MultiSelectionCommand::InsertCursorBelow));
    c.insert(key("l", META), Command::MultiSelection(MultiSelectionCommand::SelectCurrentLine));
    c.insert(key("l", META | SHIFT), Command::MultiSelection(MultiSelectionCommand::SelectAllCurrent));
    c.insert(key("u", META), Command::MultiSelection(MultiSelectionCommand::SelectUndo));
    c.insert(key("ArrowUp", META), Command::Move(MoveCommand::DocumentStart));
    c.insert(key("ArrowDown", META), Command::Move(MoveCommand::DocumentEnd));
}

/// Adds the bindings of the platforms other than macOS.
fn add_default_nonmacos(c: &mut KeypressMap)
    ensures
        final(c)@ == with_nonmacos_bindings(old(c)@),
{
    proof {
        reveal_strlit("a");
        reveal_strlit("c");
        reveal_strlit("l");
        reveal_strlit("u");
        reveal_strlit("v");
        reveal_strlit("x");
        reveal_strlit("y");
        reveal_strlit("z");
    }
    c.insert(key("z", CONTROL), Command::Edit(EditCommand::Undo));
    c.insert(key("z", CONTROL | SHIFT), Command::Edit(EditCommand::Redo));
    c.insert(key("y", CONTROL), Command::Edit(EditCommand::Redo));
    c.insert(key("x", CONTROL), Command::Edit(EditCommand::ClipboardCut));
    c.insert(key("Delete", SHIFT), Command::Edit(EditCommand::ClipboardCut));
    c.insert(key("c", CONTROL), Command::Edit(EditCommand::ClipboardCopy));
    c.insert(key("Insert", CONTROL), Command::Edit(EditCommand::ClipboardCopy));
    c.insert(key("v", CONTROL), Command::Edit(EditCommand::ClipboardPaste));
    c.insert(key("Insert", SHIFT), Command::Edit(EditCommand::ClipboardPaste));
    c.insert(key("ArrowRight", CONTROL), Command::Move(MoveCommand::WordEndForward));
    c.insert(key("ArrowLeft", CONTROL), Command::Move(MoveCommand::WordBackward));
    c.insert(key("Backspace", CONTROL), Command::Edit(EditCommand::DeleteWordBackward));
    c.insert(key("Delete", CONTROL), Command::Edit(EditCommand::DeleteWordForward));
    c.insert(key("a", CONTROL), Command::MultiSelection(MultiSelectionCommand::SelectAll));
    c.insert(key("Enter", CONTROL), Command::Edit(EditCommand::NewLineAbove));
    c.insert(key("ArrowUp", CONTROL | ALT), Command::MultiSelection(MultiSelectionCommand::InsertCursorAbove));
    c.insert(key("ArrowDown", CONTROL | ALT), Command::MultiSelection(MultiSelectionCommand::InsertCursorBelow));
    c.insert(key("l", CONTROL), Command::MultiSelection(MultiSelectionCommand::SelectCurrentLine));
    c.insert(key("l", CONTROL | SHIFT), Command::MultiSelection(MultiSelectionCommand::SelectAllCurrent));
    c.insert(key("u", CONTROL), Command::MultiSelection(MultiSelectionCommand::SelectUndo));
    c.insert(key("Home", CONTROL), Command::Move(MoveCommand::DocumentStart));
    c.insert(key("End", CONTROL), Command::Move(MoveCommand::DocumentEnd));
}


/// Adds the bindings of Windows.
fn add_default_windows(c: &mut KeypressMap)
    ensures
        final(c)@ == with_nonmacos_bindings(old(c)@),
{
    add_default_nonmacos(c);
}

/// Adds the bindings of Linux and the other platforms.
fn add_default_linux(c: &mut KeypressMap)
    ensures
        final(c)@ == with_nonmacos_bindings(old(c)@),
{
    add_default_nonmacos(c);
}

/// The default bindings of Windows.
pub open spec fn windows_bindings() -> Map<(KeyView, Modifiers), Command> {
    with_nonmacos_bindings(with_common_bindings(Map::empty()))
}

/// The default bindings of macOS.
pub open spec fn macos_bindings() -> Map<(KeyView, Modifiers), Command> {
    with_macos_bindings(with_common_bindings(Map::empty()))
}

/// The default bindings of Linux and the other platforms.
pub open spec fn linux_bindings() -> Map<(KeyView, Modifiers), Command> {
    with_nonmacos_bindings(with_common_bindings(Map::empty()))
}

/// The named keys of the names the common bindings use.
proof fn lemma_common_key_names()
    ensures
        listed_named_key("Home"@) == Some(NamedKey::Home),
        listed_named_key("End"@) == Some(NamedKey::End),
        listed_named_key("PageUp"@) == Some(NamedKey::PageUp),
        listed_named_key("PageDown"@) == Some(NamedKey::PageDown),
        listed_named_key("ArrowRight"@) == Some(NamedKey::ArrowRight),
        listed_named_key("ArrowLeft"@) == Some(NamedKey::ArrowLeft),
        listed_named_key("ArrowUp"@) == Some(NamedKey::ArrowUp),
        listed_named_key("ArrowDown"@) == Some(NamedKey::ArrowDown),
        listed_named_key("Enter"@) == Some(NamedKey::Enter),
        listed_named_key("Tab"@) == Some(NamedKey::Tab),
        !is_single_lowercase_letter("Home"@) && !is_single_lowercase_letter("End"@),
{
    reveal_strlit("Alt");
    reveal_strlit("AltGraph");
    reveal_strlit("ArrowDown");
    reveal_strlit("ArrowLeft");
    reveal_strlit("ArrowRight");
    reveal_strlit("ArrowUp");
    reveal_strlit("Backspace");
    reveal_strlit("Control");
    reveal_strlit("Delete");
    reveal_strlit("End");
    reveal_strlit("Enter");
    reveal_strlit("Escape");
    reveal_strlit("Home");
    reveal_strlit("Insert");
    reveal_strlit("Meta");
    reveal_strlit("PageDown");
    reveal_strlit("PageUp");
    reveal_strlit("Shift");
    reveal_strlit("Tab");
    assert("End"@[0] != "Alt"@[0]);
    assert("Tab"@[0] != "Alt"@[0] && "Tab"@[0] != "End"@[0]);
    assert("PageUp"@[0] != "Delete"@[0] && "PageUp"@[0] != "Escape"@[0]);
    assert("PageDown"@[0] != "AltGraph"@[0]);
    assert("ArrowLeft"@[5] != "ArrowDown"@[5]);
    assert("Alt"@.len() == 3);
    assert("AltGraph"@.len() == 8);
    assert("ArrowDown"@.len() == 9);
    assert("ArrowLeft"@.len() == 9);
    assert("ArrowRight"@.len() == 10);
    assert("ArrowUp"@.len() == 7);
    assert("Backspace"@.len() == 9);
    assert("Control"@.len() == 7);
    assert("Delete"@.len() == 6);
    assert("End"@.len() == 3);
    assert("Enter"@.len() == 5);
    assert("Escape"@.len() == 6);
    assert("Home"@.len() == 4);
    assert("Insert"@.len() == 6);
    assert("Meta"@.len() == 4);
    assert("PageDown"@.len() == 8);
    assert("PageUp"@.len() == 6);
    assert("Shift"@.len() == 5);
    assert("Tab"@.len() == 3);
}

/// In the bindings of the platforms other than macOS, Ctrl+C copies,
/// Ctrl+X cuts and Ctrl+V pastes; only Ctrl+X and Shift+Delete cut, only
/// Ctrl+C and Ctrl+Insert copy, and only Ctrl+V and Shift+Insert paste.
proof fn lemma_clipboard_chords(m: Map<(KeyView, Modifiers), Command>)
    requires
        m == with_nonmacos_bindings(with_common_bindings(Map::empty())),
    ensures
        m.dom().contains(chord("c"@, CONTROL)),
        m[chord("c"@, CONTROL)] == Command::Edit(EditCommand::ClipboardCopy),
        m.dom().contains(chord("x"@, CONTROL)),
        m[chord("x"@, CONTROL)] == Command::Edit(EditCommand::ClipboardCut),
        m.dom().contains(chord("v"@, CONTROL)),
        m[chord("v"@, CONTROL)] == Command::Edit(EditCommand::ClipboardPaste),
        forall|k: (KeyView, Modifiers)|
            #![trigger m[k]]
            m.dom().contains(k) && m[k] == Command::Edit(EditCommand::ClipboardCut) ==> k == chord(
                "x"@,
                CONTROL,
            ) || k == chord("Delete"@, SHIFT),
        forall|k: (KeyView, Modifiers)|
            #![trigger m[k]]
            m.dom().contains(k) && m[k] == Command::Edit(EditCommand::ClipboardCopy) ==> k == chord(
                "c"@,
                CONTROL,
            ) || k == chord("Insert"@, CONTROL),
        forall|k: (KeyView, Modifiers)|
            #![trigger m[k]]
            m.dom().contains(k) && m[k] == Command::Edit(EditCommand::ClipboardPaste) ==> k == chord(
                "v"@,
                CONTROL,
            ) || k == chord("Insert"@, SHIFT),
        m[chord("z"@, CONTROL)] == Command::Edit(EditCommand::Undo),
        m[chord("z"@, CONTROL | SHIFT)] == Command::Edit(EditCommand::Redo),
        m[chord("y"@, CONTROL)] == Command::Edit(EditCommand::Redo),
        forall|k: (KeyView, Modifiers)|
            #![trigger m[k]]
            m.dom().contains(k) && m[k] == Command::Edit(EditCommand::Undo) ==> k == chord("z"@, CONTROL),
        m[chord("Home"@, 0)] == Command::Move(MoveCommand::DocumentStart),
        m[chord("End"@, 0)] == Command::Move(MoveCommand::DocumentEnd),
{
    lemma_combined_bits();
    lemma_common_key_names();
    reveal_strlit("a");
    reveal_strlit("c");
    reveal_strlit("l");
    reveal_strlit("u");
    reveal_strlit("v");
    reveal_strlit("x");
    reveal_strlit("y");
    reveal_strlit("z");
    reveal_strlit("Insert");
    reveal_strlit("Delete");
    reveal_strlit("Backspace");
    reveal_strlit("ArrowRight");
    reveal_strlit("ArrowLeft");
    reveal_strlit("ArrowUp");
    reveal_strlit("ArrowDown");
    reveal_strlit("Enter");
    reveal_strlit("Home");
    reveal_strlit("End");
    assert("c"@[0] != "v"@[0] && "c"@[0] != "a"@[0] && "c"@[0] != "l"@[0] && "c"@[0] != "u"@[0]);
    assert("x"@[0] != "c"@[0] && "x"@[0] != "v"@[0] && "x"@[0] != "a"@[0] && "x"@[0] != "l"@[0]
        && "x"@[0] != "u"@[0]);
    assert("v"@[0] != "a"@[0] && "v"@[0] != "l"@[0] && "v"@[0] != "u"@[0]);
    assert("z"@[0] != "y"@[0] && "z"@[0] != "x"@[0] && "z"@[0] != "c"@[0] && "z"@[0] != "v"@[0]
        && "z"@[0] != "a"@[0] && "z"@[0] != "l"@[0] && "z"@[0] != "u"@[0]);
    assert("y"@[0] != "x"@[0] && "y"@[0] != "c"@[0] && "y"@[0] != "v"@[0] && "y"@[0] != "a"@[0]
        && "y"@[0] != "l"@[0] && "y"@[0] != "u"@[0]);
}

/// The chord modifier combinations as numbers.
proof fn lemma_combined_bits()
    by (bit_vector)
    ensures
        CONTROL | SHIFT == 0x208u32,
        META | SHIFT == 0x240u32,
        CONTROL | ALT == 0x9u32,
        ALT | META == 0x41u32,
        ALT | SHIFT == 0x201u32,
{
}

/// In the macOS bindings, Cmd+C copies, Cmd+X cuts, Cmd+V pastes, Cmd+Z
/// undoes and Cmd+Shift+Z and Cmd+Y redo, and no other chord does any of
/// these; Home and End go to the start and end of the document.
proof fn lemma_macos_editing_chords(m: Map<(KeyView, Modifiers), Command>)
    requires
        m == with_macos_bindings(with_common_bindings(Map::empty())),
    ensures
        m.dom().contains(chord("c"@, META)),
        m[chord("c"@, META)] == Command::Edit(EditCommand::ClipboardCopy),
        m.dom().contains(chord("x"@, META)),
        m[chord("x"@, META)] == Command::Edit(EditCommand::ClipboardCut),
        m.dom().contains(chord("v"@, META)),
        m[chord("v"@, META)] == Command::Edit(EditCommand::ClipboardPaste),
        m[chord("z"@, META)] == Command::Edit(EditCommand::Undo),
        m[chord("z"@, META | SHIFT)] == Command::Edit(EditCommand::Redo),
        m[chord("y"@, META)] == Command::Edit(EditCommand::Redo),
        forall|k: (KeyView, Modifiers)|
            #![trigger m[k]]
            m.dom().contains(k) && m[k] == Command::Edit(EditCommand::ClipboardCut) ==> k == chord("x"@, META),
        forall|k: (KeyView, Modifiers)|
            #![trigger m[k]]
            m.dom().contains(k) && m[k] == Command::Edit(EditCommand::ClipboardCopy) ==> k == chord("c"@, META),
        forall|k: (KeyView, Modifiers)|
            #![trigger m[k]]
            m.dom().contains(k) && m[k] == Command::Edit(EditCommand::ClipboardPaste) ==> k == chord("v"@, META),
        forall|k: (KeyView, Modifiers)|
            #![trigger m[k]]
            m.dom().contains(k) && m[k] == Command::Edit(EditCommand::Undo) ==> k == chord("z"@, META),
        m[chord("Home"@, 0)] == Command::Move(MoveCommand::DocumentStart),
        m[chord("End"@, 0)] == Command::Move(MoveCommand::DocumentEnd),
{
    lemma_combined_bits();
    lemma_common_key_names();
    reveal_strlit("a");
    reveal_strlit("c");
    reveal_strlit("e");
    reveal_strlit("k");
    reveal_strlit("l");
    reveal_strlit("u");
    reveal_strlit("v");
    reveal_strlit("x");
    reveal_strlit("y");
    reveal_strlit("z");
    reveal_strlit("Backspace");
    reveal_strlit("Delete");
    reveal_strlit("Enter");
    reveal_strlit("ArrowUp");
    reveal_strlit("ArrowDown");
    reveal_strlit("ArrowLeft");
    reveal_strlit("ArrowRight");
    assert("Backspace"@.len() == 9 && "Delete"@.len() == 6 && "Enter"@.len() == 5 && "ArrowUp"@.len()
        == 7 && "ArrowDown"@.len() == 9 && "ArrowLeft"@.len() == 9 && "ArrowRight"@.len() == 10);
    assert("z"@[0] != "y"@[0] && "z"@[0] != "x"@[0] && "z"@[0] != "c"@[0] && "z"@[0] != "v"@[0]
        && "z"@[0] != "a"@[0] && "z"@[0] != "e"@[0] && "z"@[0] != "k"@[0] && "z"@[0] != "l"@[0]
        && "z"@[0] != "u"@[0]);
    assert("y"@[0] != "x"@[0] && "y"@[0] != "c"@[0] && "y"@[0] != "v"@[0] && "y"@[0] != "a"@[0]
        && "y"@[0] != "e"@[0] && "y"@[0] != "k"@[0] && "y"@[0] != "l"@[0] && "y"@[0] != "u"@[0]);
    assert("x"@[0] != "c"@[0] && "x"@[0] != "v"@[0] && "x"@[0] != "a"@[0] && "x"@[0] != "e"@[0]
        && "x"@[0] != "k"@[0] && "x"@[0] != "l"@[0] && "x"@[0] != "u"@[0]);
    assert("c"@[0] != "v"@[0] && "c"@[0] != "a"@[0] && "c"@[0] != "e"@[0] && "c"@[0] != "k"@[0]
        && "c"@[0] != "l"@[0] && "c"@[0] != "u"@[0]);
    assert("v"@[0] != "a"@[0] && "v"@[0] != "e"@[0] && "v"@[0] != "k"@[0] && "v"@[0] != "l"@[0]
        && "v"@[0] != "u"@[0]);
}

/// The editing chords of the default bindings: on Windows and Linux Ctrl+C
/// copies, Ctrl+X cuts, Ctrl+V pastes and Ctrl+Z undoes, on macOS the same
/// with Cmd; only Ctrl+X and Shift+Delete (Cmd+X on macOS) cut; Home and End
/// go to the start and end of the document everywhere.
pub proof fn lemma_default_editing_chords()
    ensures
        windows_bindings()[chord("c"@, CONTROL)] == Command::Edit(EditCommand::ClipboardCopy),
        windows_bindings()[chord("x"@, CONTROL)] == Command::Edit(EditCommand::ClipboardCut),
        windows_bindings()[chord("v"@, CONTROL)] == Command::Edit(EditCommand::ClipboardPaste),
        windows_bindings()[chord("z"@, CONTROL)] == Command::Edit(EditCommand::Undo),
        linux_bindings()[chord("c"@, CONTROL)] == Command::Edit(EditCommand::ClipboardCopy),
        linux_bindings()[chord("x"@, CONTROL)] == Command::Edit(EditCommand::ClipboardCut),
        linux_bindings()[chord("v"@, CONTROL)] == Command::Edit(EditCommand::ClipboardPaste),
        linux_bindings()[chord("z"@, CONTROL)] == Command::Edit(EditCommand::Undo),
        macos_bindings()[chord("c"@, META)] == Command::Edit(EditCommand::ClipboardCopy),
        macos_bindings()[chord("x"@, META)] == Command::Edit(EditCommand::ClipboardCut),
        macos_bindings()[chord("v"@, META)] == Command::Edit(EditCommand::ClipboardPaste),
        macos_bindings()[chord("z"@, META)] == Command::Edit(EditCommand::Undo),
        forall|k: (KeyView, Modifiers)|
            #![trigger windows_bindings()[k]]
            windows_bindings().dom().contains(k) && windows_bindings()[k] == Command::Edit(
                EditCommand::ClipboardCut,
            ) ==> k == chord("x"@, CONTROL) || k == chord("Delete"@, SHIFT),
        forall|k: (KeyView, Modifiers)|
            #![trigger linux_bindings()[k]]
            linux_bindings().dom().contains(k) && linux_bindings()[k] == Command::Edit(
                EditCommand::ClipboardCut,
            ) ==> k == chord("x"@, CONTROL) || k == chord("Delete"@, SHIFT),
        forall|k: (KeyView, Modifiers)|
            #![trigger macos_bindings()[k]]
            macos_bindings().dom().contains(k) && macos_bindings()[k] == Command::Edit(
                EditCommand::ClipboardCut,
            ) ==> k == chord("x"@, META),
        windows_bindings()[chord("Home"@, 0)] == Command::Move(MoveCommand::DocumentStart),
        windows_bindings()[chord("End"@, 0)] == Command::Move(MoveCommand::DocumentEnd),
        linux_bindings()[chord("Home"@, 0)] == Command::Move(MoveCommand::DocumentStart),
        linux_bindings()[chord("End"@, 0)] == Command::Move(MoveCommand::DocumentEnd),
        macos_bindings()[chord("Home"@, 0)] == Command::Move(MoveCommand::DocumentStart),
        macos_bindings()[chord("End"@, 0)] == Command::Move(MoveCommand::DocumentEnd),
{
    lemma_clipboard_chords(windows_bindings());
    lemma_clipboard_chords(linux_bindings());
    lemma_macos_editing_chords(macos_bindings());
}

impl KeypressMap {
    pub fn default_windows() -> (r: Self)
        ensures
            r@ == windows_bindings(),
    {
        let mut keymaps = KeypressMap::new();
        add_default_common(&mut keymaps);
        add_default_windows(&mut keymaps);
        keymaps
    }

    pub fn default_macos() -> (r: Self)
        ensures
            r@ == macos_bindings(),
    {
        let mut keymaps = KeypressMap::new();
        add_default_common(&mut keymaps);
        add_default_macos(&mut keymaps);
        keymaps
    }

    pub fn default_linux() -> (r: Self)
        ensures
            r@ == linux_bindings(),
    {
        let mut keymaps = KeypressMap::new();
        add_default_common(&mut keymaps);
        add_default_linux(&mut keymaps);
        keymaps
    }

    /// The default bindings of the platform named `os` (as Rust names
    /// operating systems): macOS for `"macos"`, Windows for `"windows"`,
    /// Linux's for any other name.
    pub fn default_for_os(os: &str) -> (r: Self)
        ensures
            r@ == if os@ == "macos"@ {
                macos_bindings()
            } else if os@ == "windows"@ {
                windows_bindings()
            } else {
                linux_bindings()
            },
    {
        let name = chars_of(os);
        if chars_eq(&name, "macos") {
            Self::default_macos()
        } else if chars_eq(&name, "windows") {
            Self::default_windows()
        } else {
            Self::default_linux()
        }
    }
}

/// The chord with Shift released.
pub open spec fn without_shift(k: (KeyView, Modifiers)) -> (KeyView, Modifiers) {
    (k.0, Modifiers { bits: k.1.bits & !SHIFT })
}

/// The command that a key press runs: its own binding; failing that, in
/// insert mode, the binding of the same chord without Shift.
pub open spec fn resolved_command(
    m: Map<(KeyView, Modifiers), Command>,
    k: (KeyView, Modifiers),
    mode: Mode,
) -> Option<Command> {
    if m.dom().contains(k) {
        Some(m[k])
    } else if mode == Mode::Insert && m.dom().contains(without_shift(k)) {
        Some(m[without_shift(k)])
    } else {
        None
    }
}

/// The command that a key press runs in the given mode, if any; the editor
/// runs it, and a press with no command is not handled.
pub fn default_key_handler(keypress_map: &KeypressMap, keypress: &KeypressKey, mode: Mode) -> (r:
    Option<Command>)
    ensures
        r == resolved_command(keypress_map@, keypress_key_view(*keypress), mode),
{
    match keypress_map.get(keypress) {
        Some(c) => Some(c),
        None => {
            if mode == Mode::Insert {
                let mut modifiers = keypress.modifiers;
                modifiers.set(SHIFT, false);
                let unshifted = KeypressKey { key: copy_key(&keypress.key), modifiers };
                keypress_map.get(&unshifted)
            } else {
                None
            }
        },
    }
}

} // verus!
