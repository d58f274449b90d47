//! The editing state of a single-line text input: buffer, cursor and
//! selection, and how key presses and clicks change them.
use crate::keyboard::{ALL_MODIFIERS, ALT, CONTROL, Key, KeyCode, KeyEvent, META, Modifiers, NamedKey, PhysicalKey, SHIFT};
use crate::segmentation::{
    first_grapheme_len,
    first_grapheme_len_of,
    last_grapheme_len,
    last_grapheme_len_of,
    push_char,
    text_bytes,
    unicode_word_spans,
    unicode_word_spans_of,
    word_spans_on_boundaries,
    word_spans_well_formed,
};
use crate::editor::Preedit;
use crate::text_input::{dbl_click_range, get_dbl_click_selection, replace_range, replaced_bytes};
use crate::utf8_facts::{
    lemma_boundary_kept_before, lemma_boundary_of_prefix, lemma_boundary_of_suffix, lemma_splice_boundaries,
};
use std::ops::Range;
use vstd::prelude::*;
use vstd::string::{StrSliceExecFns, StringExecFns, StringSliceAdditionalSpecFns};
use vstd::utf8::*;

verus! {

/// Type of cursor movement in navigation.
#[derive(Clone, Copy, Debug, PartialEq, Eq, Structural)]
pub enum Movement {
    /// Move by a glyph.
    Glyph,
    /// Move by a word.
    Word,
    /// Move by a line.
    Line,
}

/// Type of text direction in the file.
#[derive(Clone, Copy, Debug, PartialEq, Eq, Structural)]
pub enum TextDirection {
    /// Text direction from left to right.
    Left,
    /// Text direction from right to left.
    Right,
}

/// The editing commands bound to modifier shortcuts.
#[derive(Clone, Copy, Debug, PartialEq, Eq, Structural)]
pub enum TextCommand {
    SelectAll,
    Copy,
    Paste,
    Cut,
    Unbound,
}

/// What the input asks its host to do after a key press.
#[derive(Clone, Debug, PartialEq, Eq)]
pub enum TextInputAction {
    Nothing,
    /// Give up keyboard focus.
    ClearFocus,
    /// Run the `on_enter` callback.
    Submit,
    /// Put this text on the clipboard.
    SetClipboard(String),
    /// Read the clipboard and hand its contents to `paste`.
    Paste,
}

/// The answer to a key press: whether it was handled, and what the host is
/// to do.
#[derive(Clone, Debug, PartialEq, Eq)]
pub struct KeyDownOutcome {
    pub handled: bool,
    pub action: TextInputAction,
}

/// The abstract state: the buffer's UTF-8 bytes, the cursor's byte index
/// and the selected byte range.
pub struct EditView {
    pub bytes: Seq<u8>,
    pub cursor: int,
    pub selection: Option<(int, int)>,
}

/// The characters of the bytes before `c`.
pub open spec fn prefix_chars(b: Seq<u8>, c: int) -> Seq<char> {
    decode_utf8(b.take(c))
}

/// The characters of the bytes from `c` on.
pub open spec fn suffix_chars(b: Seq<u8>, c: int) -> Seq<char> {
    decode_utf8(b.skip(c))
}

/// The words of the text with these bytes.
pub open spec fn words_of(b: Seq<u8>) -> Seq<(usize, usize)> {
    unicode_word_spans_of(decode_utf8(b))
}

/// End of the first word, from the `k`-th on, that ends after `c`.
pub open spec fn next_word_end(words: Seq<(usize, usize)>, c: int, k: int) -> Option<int>
    decreases words.len() - k,
{
    if k < 0 || k >= words.len() {
        None
    } else if words[k].0 + words[k].1 > c {
        Some(words[k].0 + words[k].1)
    } else {
        next_word_end(words, c, k + 1)
    }
}

/// Start of the last word of the run, from the `k`-th on, of words that
/// start before `c` (`acc` if there is none).
pub open spec fn prev_word_start(words: Seq<(usize, usize)>, c: int, k: int, acc: int) -> int
    decreases words.len() - k,
{
    if k < 0 || k >= words.len() || words[k].0 >= c {
        acc
    } else {
        prev_word_start(words, c, k + 1, words[k].0 as int)
    }
}

/// Where a cursor movement puts the cursor, and whether it moved.
pub open spec fn moved_cursor(b: Seq<u8>, c: int, kind: Movement, dir: TextDirection) -> (
    int,
    bool,
) {
    match (kind, dir) {
        (Movement::Glyph, TextDirection::Left) => match last_grapheme_len_of(prefix_chars(b, c)) {
            None => (c, false),
            Some(n) => (c - n, true),
        },
        (Movement::Glyph, TextDirection::Right) => match first_grapheme_len_of(
            suffix_chars(b, c),
        ) {
            None => (c, false),
            Some(n) => (c + n, true),
        },
        (Movement::Line, TextDirection::Right) => if c < b.len() {
            (b.len() as int, true)
        } else {
            (c, false)
        },
        (Movement::Line, TextDirection::Left) => if c > 0 {
            (0, true)
        } else {
            (c, false)
        },
        (Movement::Word, TextDirection::Right) => match next_word_end(words_of(b), c, 0) {
            Some(e) => (e, true),
            None => (c, false),
        },
        (Movement::Word, TextDirection::Left) => if c > 0 {
            (prev_word_start(words_of(b), c, 0, 0), true)
        } else {
            (c, false)
        },
    }
}

/// The selection spanned by two positions (none when they are equal).
pub open spec fn spanned_selection(a: int, b: int) -> Option<(int, int)> {
    if a < b {
        Some((a, b))
    } else if a > b {
        Some((b, a))
    } else {
        None
    }
}

/// The selection after the cursor moved from `old` to `cur` with the
/// selection extended: the edge opposite the cursor stays anchored.
pub open spec fn extended_selection(sel: Option<(int, int)>, old: int, cur: int) -> Option<
    (int, int),
> {
    let r = match sel {
        Some(s) => {
            let anchor = if s.0 == old {
                s.1
            } else {
                s.0
            };
            if anchor < cur {
                (anchor, cur)
            } else {
                (cur, anchor)
            }
        },
        None => if old < cur {
            (old, cur)
        } else {
            (cur, old)
        },
    };
    if r.0 >= r.1 {
        None
    } else {
        Some(r)
    }
}

impl EditView {
    /// The cursor and selection sit on character boundaries inside the text.
    pub open spec fn wf(self) -> bool {
        &&& valid_utf8(self.bytes)
        &&& self.bytes.len() <= usize::MAX
        &&& 0 <= self.cursor <= self.bytes.len()
        &&& is_char_boundary(self.bytes, self.cursor)
        &&& match self.selection {
            Some((s, e)) => 0 <= s < e <= self.bytes.len() && is_char_boundary(self.bytes, s)
                && is_char_boundary(self.bytes, e),
            None => true,
        }
    }
}

/// The state after the selected bytes are deleted and the cursor put where
/// they began.
pub open spec fn v_delete_selection(v: EditView) -> EditView {
    match v.selection {
        Some((s, e)) => EditView {
            bytes: v.bytes.take(s) + v.bytes.skip(e),
            cursor: s,
            selection: None,
        },
        None => v,
    }
}

/// The bytes with `ins` put in at the cursor.
pub open spec fn bytes_inserted(v: EditView, ins: Seq<u8>) -> Seq<u8> {
    v.bytes.take(v.cursor) + ins + v.bytes.skip(v.cursor)
}

/// Typing `ins`: the selection is replaced (or `ins` goes in at the
/// cursor) and the cursor steps over the next cluster.
pub open spec fn v_insert_text(v: EditView, ins: Seq<u8>) -> (EditView, bool) {
    let v1 = v_delete_selection(v);
    let b2 = bytes_inserted(v1, ins);
    let m = moved_cursor(b2, v1.cursor, Movement::Glyph, TextDirection::Right);
    (EditView { bytes: b2, cursor: m.0, selection: None }, m.1)
}

/// Backspace: deletes the selection, or what lies between the cursor and
/// where `motion` to the left would put it.
pub open spec fn v_backspace(v: EditView, motion: Movement) -> (EditView, bool) {
    if v.selection is Some {
        (v_delete_selection(v), true)
    } else {
        let m = moved_cursor(v.bytes, v.cursor, motion, TextDirection::Left);
        if m.0 == v.cursor {
            (v, false)
        } else {
            (
                EditView {
                    bytes: v.bytes.take(m.0) + v.bytes.skip(v.cursor),
                    cursor: m.0,
                    selection: None,
                },
                true,
            )
        }
    }
}

/// Delete: deletes the selection, or what lies between the cursor and where
/// `motion` to the right would put it.
pub open spec fn v_delete_forward(v: EditView, motion: Movement) -> (EditView, bool) {
    if v.selection is Some {
        (v_delete_selection(v), true)
    } else {
        let m = moved_cursor(v.bytes, v.cursor, motion, TextDirection::Right);
        if m.0 == v.cursor {
            (v, false)
        } else {
            (
                EditView {
                    bytes: v.bytes.take(v.cursor) + v.bytes.skip(m.0),
                    cursor: v.cursor,
                    selection: None,
                },
                true,
            )
        }
    }
}

/// End (with `shift`, extending the selection to the end of the text).
pub open spec fn v_end(v: EditView, shift: bool) -> (EditView, bool) {
    let sel = if shift {
        match v.selection {
            Some((s, _)) => spanned_selection(s, v.bytes.len() as int),
            None => spanned_selection(v.cursor, v.bytes.len() as int),
        }
    } else {
        None
    };
    let m = moved_cursor(v.bytes, v.cursor, Movement::Line, TextDirection::Right);
    (EditView { bytes: v.bytes, cursor: m.0, selection: sel }, m.1)
}

/// Home (with `shift`, extending the selection to the start of the text).
pub open spec fn v_home(v: EditView, shift: bool) -> (EditView, bool) {
    let sel = if shift {
        match v.selection {
            Some((_, e)) => spanned_selection(0, e),
            None => spanned_selection(0, v.cursor),
        }
    } else {
        None
    };
    let m = moved_cursor(v.bytes, v.cursor, Movement::Line, TextDirection::Left);
    (EditView { bytes: v.bytes, cursor: m.0, selection: sel }, m.1)
}

/// An arrow key: moves the cursor by `kind`; with `shift` the selection
/// follows, otherwise it is dropped and (for a glyph step) the cursor lands
/// on its edge in the direction of the arrow.
pub open spec fn v_arrow(v: EditView, dir: TextDirection, kind: Movement, shift: bool) -> (
    EditView,
    bool,
) {
    let m = moved_cursor(v.bytes, v.cursor, kind, dir);
    if shift {
        (
            EditView {
                bytes: v.bytes,
                cursor: m.0,
                selection: extended_selection(v.selection, v.cursor, m.0),
            },
            m.1,
        )
    } else {
        let c = match v.selection {
            Some((s, e)) => if kind == Movement::Glyph {
                if dir == TextDirection::Left {
                    s
                } else {
                    e
                }
            } else {
                m.0
            },
            None => m.0,
        };
        (EditView { bytes: v.bytes, cursor: c, selection: None }, m.1)
    }
}

/// Selects the whole text and puts the cursor at its end (an empty text is
/// left as it is).
pub open spec fn v_select_all(v: EditView) -> EditView {
    if v.bytes.len() == 0 {
        v
    } else {
        EditView { bytes: v.bytes, cursor: v.bytes.len() as int, selection: Some((0, v.bytes.len() as int)) }
    }
}

/// The characters that a copy of the selection takes: the buffer's
/// characters from index `s` to index `e` (the byte offsets of the
/// selection, used as character counts), cut at the end of the text.
pub open spec fn copied_chars(chars: Seq<char>, s: int, e: int) -> Seq<char> {
    let n = chars.len() as int;
    let a = if s <= n { s } else { n };
    let z = if e <= n { e } else { n };
    chars.subrange(a, if a <= z { z } else { a })
}

/// The pasted text without its line breaks.
pub open spec fn without_line_breaks(s: Seq<char>) -> Seq<char> {
    s.filter(|c: char| c != '\r' && c != '\n')
}

/// Pasting `content` (already stripped of line breaks): replaces the
/// selection, or goes in at the cursor, and the cursor ends after it.
pub open spec fn v_paste(v: EditView, content: Seq<u8>) -> (EditView, bool) {
    if content.len() == 0 {
        (v, false)
    } else {
        let v1 = v_delete_selection(v);
        (
            EditView {
                bytes: bytes_inserted(v1, content),
                cursor: v1.cursor + content.len(),
                selection: None,
            },
            true,
        )
    }
}

/// End puts the cursor at the end of the text. With Shift, an existing
/// selection keeps its start edge and now reaches the end of the text;
/// without one, the cursor's old place is the start. Without Shift nothing
/// stays selected.
pub proof fn lemma_end_selects_to_text_end(v: EditView)
    requires
        v.wf(),
    ensures
        v_end(v, true).0.bytes == v.bytes,
        v_end(v, true).0.cursor == v.bytes.len(),
        v_end(v, false).0.cursor == v.bytes.len(),
        v_end(v, false).0.selection is None,
        match v.selection {
            Some((s, e)) => s < v.bytes.len() ==> v_end(v, true).0.selection == Some((s, v.bytes.len() as int)),
            None => v.cursor < v.bytes.len() ==> v_end(v, true).0.selection == Some(
                (v.cursor, v.bytes.len() as int),
            ),
        },
{
}

/// Home puts the cursor at the start of the text. With Shift, an existing
/// selection keeps its end edge and now reaches back to the start; without
/// one, the selection runs from the start to the cursor's old place.
pub proof fn lemma_home_selects_to_text_start(v: EditView)
    requires
        v.wf(),
    ensures
        v_home(v, true).0.bytes == v.bytes,
        v_home(v, true).0.cursor == 0,
        v_home(v, false).0.cursor == 0,
        v_home(v, false).0.selection is None,
        match v.selection {
            Some((s, e)) => 0 < e ==> v_home(v, true).0.selection == Some((0int, e)),
            None => 0 < v.cursor ==> v_home(v, true).0.selection == Some((0int, v.cursor)),
        },
{
}

/// Pasting non-empty bytes `p` replaces exactly the selected bytes (or goes
/// in at the cursor when nothing is selected): nothing of the selection
/// remains, the bytes around it are kept, and the cursor ends right after
/// `p`. Pasting nothing changes nothing.
pub proof fn lemma_paste_replaces_selection(v: EditView, p: Seq<u8>)
    requires
        v.wf(),
    ensures
        p.len() == 0 ==> v_paste(v, p) == (v, false),
        p.len() > 0 ==> {
            let r = v_paste(v, p).0;
            &&& v_paste(v, p).1
            &&& r.selection is None
            &&& match v.selection {
                Some((s, e)) => r.bytes == v.bytes.take(s) + p + v.bytes.skip(e) && r.cursor == s
                    + p.len(),
                None => r.bytes == v.bytes.take(v.cursor) + p + v.bytes.skip(v.cursor) && r.cursor
                    == v.cursor + p.len(),
            }
        },
{
    if let Some((s, e)) = v.selection {
        let d = v.bytes.take(s) + v.bytes.skip(e);
        assert(d.take(s) =~= v.bytes.take(s));
        assert(d.skip(s) =~= v.bytes.skip(e));
    }
}

/// The motion of a word-wise key chord: Control elsewhere; Alt (by word) or
/// Meta (by line) on macOS.
pub open spec fn word_based_motion(mods: Modifiers, mac: bool) -> Option<Movement> {
    if !mac {
        if mods.has(CONTROL) {
            Some(Movement::Word)
        } else {
            None
        }
    } else if mods.has(ALT) {
        Some(Movement::Word)
    } else if mods.has(META) {
        Some(Movement::Line)
    } else {
        None
    }
}

/// The editing command of a shortcut: exactly the platform's command
/// modifier (Meta on macOS, Control elsewhere) with A, C, X or V.
pub open spec fn text_command_of(mods: Modifiers, key: PhysicalKey, mac: bool) -> TextCommand {
    let cmd = if mac {
        META
    } else {
        CONTROL
    };
    if mods.bits == cmd {
        match key {
            PhysicalKey::Code(KeyCode::KeyA) => TextCommand::SelectAll,
            PhysicalKey::Code(KeyCode::KeyC) => TextCommand::Copy,
            PhysicalKey::Code(KeyCode::KeyX) => TextCommand::Cut,
            PhysicalKey::Code(KeyCode::KeyV) => TextCommand::Paste,
            _ => TextCommand::Unbound,
        }
    } else {
        TextCommand::Unbound
    }
}

proof fn lemma_next_word_end_after(words: Seq<(usize, usize)>, c: int, k: int)
    ensures
        next_word_end(words, c, k) matches Some(e) ==> e > c,
    decreases words.len() - k,
{
    if 0 <= k < words.len() && words[k].0 + words[k].1 <= c {
        lemma_next_word_end_after(words, c, k + 1);
    }
}

proof fn lemma_prev_word_start_before(words: Seq<(usize, usize)>, c: int, k: int, acc: int)
    requires
        acc <= c,
    ensures
        prev_word_start(words, c, k, acc) <= c,
    decreases words.len() - k,
{
    if 0 <= k < words.len() && words[k].0 < c {
        lemma_prev_word_start_before(words, c, k + 1, words[k].0 as int);
    }
}

proof fn lemma_next_word_end_first(words: Seq<(usize, usize)>, c: int, k: int)
    requires
        0 <= k,
    ensures
        next_word_end(words, c, k) matches Some(e) ==> exists|i: int|
            #![trigger words[i]]
            k <= i < words.len() && e == words[i].0 + words[i].1 && e > c && forall|j: int|
                k <= j < i ==> #[trigger] words[j].0 + words[j].1 <= c,
        next_word_end(words, c, k) is None ==> forall|j: int|
            k <= j < words.len() ==> #[trigger] words[j].0 + words[j].1 <= c,
    decreases words.len() - k,
{
    if k < words.len() && words[k].0 + words[k].1 <= c {
        lemma_next_word_end_first(words, c, k + 1);
        if let Some(e) = next_word_end(words, c, k + 1) {
            let i = choose|i: int|
                #![trigger words[i]]
                k + 1 <= i < words.len() && e == words[i].0 + words[i].1 && e > c && forall|j: int|
                    k + 1 <= j < i ==> #[trigger] words[j].0 + words[j].1 <= c;
            assert(forall|j: int| k <= j < i ==> #[trigger] words[j].0 + words[j].1 <= c);
        }
    }
}

proof fn lemma_prev_word_start_last(words: Seq<(usize, usize)>, c: int, k: int, acc: int)
    requires
        0 <= k,
    ensures
        prev_word_start(words, c, k, acc) == acc && (k >= words.len() || words[k].0 >= c) || exists|i: int|
            #![trigger words[i]]
            k <= i < words.len() && prev_word_start(words, c, k, acc) == words[i].0 && (forall|j: int|
                k <= j <= i ==> #[trigger] words[j].0 < c) && (i + 1 == words.len() || words[i + 1].0 >= c),
    decreases words.len() - k,
{
    if k < words.len() && words[k].0 < c {
        lemma_prev_word_start_last(words, c, k + 1, words[k].0 as int);
        if prev_word_start(words, c, k + 1, words[k].0 as int) == words[k].0 && (k + 1 >= words.len()
            || words[k + 1].0 >= c) {
            assert(forall|j: int| k <= j <= k ==> #[trigger] words[j].0 < c);
        } else {
            let i = choose|i: int|
                #![trigger words[i]]
                k + 1 <= i < words.len() && prev_word_start(words, c, k + 1, words[k].0 as int) == words[i].0
                    && (forall|j: int| k + 1 <= j <= i ==> #[trigger] words[j].0 < c) && (i + 1 == words.len()
                    || words[i + 1].0 >= c);
            assert(forall|j: int| k <= j <= i ==> #[trigger] words[j].0 < c);
        }
    }
}

/// Where the word moves land: a move right goes to the end of the first
/// word that ends after the cursor (no earlier word does), or stays when
/// none does; a move left goes to the start of the last word of the leading
/// run of words that start before the cursor, or to the start of the text
/// when no word does.
pub proof fn lemma_word_motion_targets(words: Seq<(usize, usize)>, c: int)
    ensures
        next_word_end(words, c, 0) matches Some(e) ==> exists|i: int|
            #![trigger words[i]]
            0 <= i < words.len() && e == words[i].0 + words[i].1 && e > c && forall|j: int|
                0 <= j < i ==> #[trigger] words[j].0 + words[j].1 <= c,
        next_word_end(words, c, 0) is None ==> forall|j: int|
            0 <= j < words.len() ==> #[trigger] words[j].0 + words[j].1 <= c,
        prev_word_start(words, c, 0, 0) == 0 && (words.len() == 0 || words[0].0 >= c) || exists|i: int|
            #![trigger words[i]]
            0 <= i < words.len() && prev_word_start(words, c, 0, 0) == words[i].0 && (forall|j: int|
                0 <= j <= i ==> #[trigger] words[j].0 < c) && (i + 1 == words.len() || words[i + 1].0 >= c),
{
    lemma_next_word_end_first(words, c, 0);
    lemma_prev_word_start_last(words, c, 0, 0);
}

/// A move to the left never puts the cursor further right, and a move to
/// the right never puts it further left.
pub proof fn lemma_moved_cursor_direction(b: Seq<u8>, c: int, kind: Movement, dir: TextDirection)
    requires
        0 <= c,
    ensures
        dir == TextDirection::Left ==> moved_cursor(b, c, kind, dir).0 <= c,
        dir == TextDirection::Right ==> moved_cursor(b, c, kind, dir).0 >= c,
{
    lemma_next_word_end_after(words_of(b), c, 0);
    lemma_prev_word_start_before(words_of(b), c, 0, 0);
}

/// What the host is asked to do, as abstract values.
pub enum ActionView {
    Nothing,
    ClearFocus,
    Submit,
    SetClipboard(Seq<char>),
    Paste,
}

pub open spec fn action_view(a: TextInputAction) -> ActionView {
    match a {
        TextInputAction::Nothing => ActionView::Nothing,
        TextInputAction::ClearFocus => ActionView::ClearFocus,
        TextInputAction::Submit => ActionView::Submit,
        TextInputAction::SetClipboard(s) => ActionView::SetClipboard(s@),
        TextInputAction::Paste => ActionView::Paste,
    }
}

/// The characters of the selection as a copy takes them.
pub open spec fn v_selected_chars(v: EditView) -> Option<Seq<char>> {
    match v.selection {
        Some((s, e)) => Some(copied_chars(decode_utf8(v.bytes), s, e)),
        None => None,
    }
}

/// The space bar: deletes the selection, or puts a space in at the cursor,
/// then steps the cursor right.
pub open spec fn v_space(v: EditView) -> (EditView, bool) {
    let v1 = if v.selection is Some {
        v_delete_selection(v)
    } else {
        EditView { bytes: bytes_inserted(v, text_bytes(seq![' '])), cursor: v.cursor, selection: v.selection }
    };
    let m = moved_cursor(v1.bytes, v1.cursor, Movement::Glyph, TextDirection::Right);
    (EditView { bytes: v1.bytes, cursor: m.0, selection: v1.selection }, m.1)
}

/// A shortcut with modifiers: the state after it, whether it was handled
/// and what the host is to do (a paste is decided by the host).
pub open spec fn v_modifier_cmd(v: EditView, mods: Modifiers, key: PhysicalKey, mac: bool) -> (
    EditView,
    bool,
    ActionView,
) {
    if mods.bits == 0 || mods.bits == SHIFT {
        (v, false, ActionView::Nothing)
    } else {
        match text_command_of(mods, key, mac) {
            TextCommand::SelectAll => (v_select_all(v), true, ActionView::Nothing),
            TextCommand::Copy => match v_selected_chars(v) {
                Some(t) => (v, true, ActionView::SetClipboard(t)),
                None => (v, true, ActionView::Nothing),
            },
            TextCommand::Cut => match v_selected_chars(v) {
                Some(t) => (v_delete_selection(v), true, ActionView::SetClipboard(t)),
                None => (v, true, ActionView::Nothing),
            },
            TextCommand::Paste => (v, false, ActionView::Paste),
            TextCommand::Unbound => (
                EditView { bytes: v.bytes, cursor: v.cursor, selection: None },
                false,
                ActionView::Nothing,
            ),
        }
    }
}

/// The modifier bits other than Shift.
pub open spec fn non_shift_bits(mods: Modifiers) -> bool {
    mods.bits & (ALL_MODIFIERS & !SHIFT) != 0
}

/// A key press: the state after it, whether it was handled and what the
/// host is to do.
pub open spec fn v_key_down(v: EditView, ev: KeyEvent, mac: bool) -> (EditView, bool, ActionView) {
    let motion = match word_based_motion(ev.modifiers, mac) {
        Some(m) => m,
        None => Movement::Glyph,
    };
    let shift = ev.modifiers.has(SHIFT);
    let first: (EditView, bool, ActionView) = match ev.key {
        Key::Character(c) => if c@ == seq![' '] {
            let r = v_space(v);
            (r.0, r.1, ActionView::Nothing)
        } else {
            (v, false, ActionView::Nothing)
        },
        Key::Named(NamedKey::Backspace) => {
            let r = v_backspace(v, motion);
            (r.0, r.1, ActionView::Nothing)
        },
        Key::Named(NamedKey::Delete) => {
            let r = v_delete_forward(v, motion);
            (r.0, r.1, ActionView::Nothing)
        },
        Key::Named(NamedKey::Escape) => (v, true, ActionView::ClearFocus),
        Key::Named(NamedKey::Enter) => (v, true, ActionView::Submit),
        Key::Named(NamedKey::End) => {
            let r = v_end(v, shift);
            (r.0, r.1, ActionView::Nothing)
        },
        Key::Named(NamedKey::Home) => {
            let r = v_home(v, shift);
            (r.0, r.1, ActionView::Nothing)
        },
        Key::Named(NamedKey::ArrowLeft) => {
            let r = v_arrow(v, TextDirection::Left, motion, shift);
            (r.0, r.1, ActionView::Nothing)
        },
        Key::Named(NamedKey::ArrowRight) => {
            let r = v_arrow(v, TextDirection::Right, motion, shift);
            (r.0, r.1, ActionView::Nothing)
        },
        _ => (v, false, ActionView::Nothing),
    };
    if first.1 {
        first
    } else {
        match ev.key {
            Key::Character(ch) => {
                let m = v_modifier_cmd(first.0, ev.modifiers, ev.physical_key, mac);
                if m.1 {
                    m
                } else if non_shift_bits(ev.modifiers) {
                    (m.0, false, m.2)
                } else {
                    let r = v_insert_text(m.0, text_bytes(ch@));
                    (r.0, r.1, m.2)
                }
            },
            _ => (first.0, false, ActionView::Nothing),
        }
    }
}

/// Shift alone, or no modifier, leaves no bit besides Shift.
proof fn lemma_plain_or_shift(bits: u32)
    by (bit_vector)
    requires
        bits == 0 || bits == 0x200,
    ensures
        bits & (0x3fffu32 & !0x200u32) == 0,
{
}

/// What the keys of a text input do to a state that holds a selection
/// `s..e`: Backspace and Delete remove exactly the selected bytes and put
/// the cursor where they began; typing a character (alone or with Shift)
/// puts its bytes in their place; End and Home move the cursor to the end
/// or start of the text, with Shift keeping the selection's far edge and
/// without it dropping the selection; Escape and Enter leave the text as it
/// is and ask the host to drop the focus or to submit.
pub proof fn lemma_key_down_with_selection(v: EditView, ev: KeyEvent, mac: bool, s: int, e: int)
    requires
        v.wf(),
        v.selection == Some((s, e)),
    ensures
        ({
            let r = v_key_down(v, ev, mac);
            let len = v.bytes.len() as int;
            &&& (ev.key == Key::Named(NamedKey::Backspace) || ev.key == Key::Named(NamedKey::Delete))
                ==> r.0 == (EditView { bytes: v.bytes.take(s) + v.bytes.skip(e), cursor: s, selection: None })
                && r.1
            &&& (ev.key matches Key::Character(c) && c@ != seq![' '] && (ev.modifiers.bits == 0
                || ev.modifiers.bits == SHIFT)) ==> r.0.bytes == v.bytes.take(s) + text_bytes(
                ev.key->Character_0@,
            ) + v.bytes.skip(e) && r.0.selection is None
            &&& ev.key == Key::Named(NamedKey::End) ==> r.0.bytes == v.bytes && r.0.cursor == len
                && (if ev.modifiers.has(SHIFT) {
                s < len ==> r.0.selection == Some((s, len))
            } else {
                r.0.selection is None
            })
            &&& ev.key == Key::Named(NamedKey::Home) ==> r.0.bytes == v.bytes && r.0.cursor == 0
                && (if ev.modifiers.has(SHIFT) {
                0 < e ==> r.0.selection == Some((0int, e))
            } else {
                r.0.selection is None
            })
            &&& ev.key == Key::Named(NamedKey::Escape) ==> r == (v, true, ActionView::ClearFocus)
            &&& ev.key == Key::Named(NamedKey::Enter) ==> r == (v, true, ActionView::Submit)
        }),
{
    if ev.modifiers.bits == 0 || ev.modifiers.bits == SHIFT {
        lemma_plain_or_shift(ev.modifiers.bits);
    }
}

/// Without a selection, Backspace removes the bytes between where the
/// cursor lands on its move left and where it was, Delete those between the
/// cursor and where a move right would land (the cursor stays), and typing
/// a character puts its bytes in at the cursor. Each reports a change
/// exactly when something was removed.
pub proof fn lemma_key_down_without_selection(v: EditView, ev: KeyEvent, mac: bool)
    requires
        v.wf(),
        v.selection is None,
    ensures
        ({
            let r = v_key_down(v, ev, mac);
            let c = v.cursor;
            &&& ev.key == Key::Named(NamedKey::Backspace) ==> r.0.cursor <= c && r.0.bytes == v.bytes.take(
                r.0.cursor,
            ) + v.bytes.skip(c) && r.0.selection is None && r.1 == (r.0.cursor < c)
            &&& ev.key == Key::Named(NamedKey::Delete) ==> r.0.cursor == c && r.0.selection is None
                && exists|m: int| m >= c && r.0.bytes == v.bytes.take(c) + v.bytes.skip(m) && r.1 == (m > c)
            &&& (ev.key matches Key::Character(ch) && ch@ != seq![' '] && (ev.modifiers.bits == 0
                || ev.modifiers.bits == SHIFT)) ==> r.0.bytes == v.bytes.take(c) + text_bytes(
                ev.key->Character_0@,
            ) + v.bytes.skip(c) && r.0.selection is None
        }),
{
    if ev.modifiers.bits == 0 || ev.modifiers.bits == SHIFT {
        lemma_plain_or_shift(ev.modifiers.bits);
    }
    let motion = match word_based_motion(ev.modifiers, mac) {
        Some(m) => m,
        None => Movement::Glyph,
    };
    lemma_moved_cursor_direction(v.bytes, v.cursor, motion, TextDirection::Left);
    lemma_moved_cursor_direction(v.bytes, v.cursor, motion, TextDirection::Right);
    assert(v.bytes.take(v.cursor) + v.bytes.skip(v.cursor) =~= v.bytes);
    let m = moved_cursor(v.bytes, v.cursor, motion, TextDirection::Right).0;
    if ev.key == Key::Named(NamedKey::Delete) {
        assert(v_key_down(v, ev, mac).0.bytes == v.bytes.take(v.cursor) + v.bytes.skip(if m == v.cursor {
            v.cursor
        } else {
            m
        }));
    }
}

/// The arrow keys leave the text as it is. With Shift the selection runs
/// from its anchor (the edge the cursor was not on, or the cursor's old
/// place when nothing was selected) to where the cursor lands, and is
/// dropped when the two meet. Without Shift a selection is dropped, and a
/// one-character step puts the cursor on its edge in the arrow's direction.
pub proof fn lemma_arrows_extend_from_anchor(v: EditView, dir: TextDirection, kind: Movement)
    requires
        v.wf(),
    ensures
        ({
            let r = v_arrow(v, dir, kind, true).0;
            let anchor = match v.selection {
                Some((s, e)) => if v.cursor == s {
                    e
                } else {
                    s
                },
                None => v.cursor,
            };
            &&& r.bytes == v.bytes
            &&& r.cursor == moved_cursor(v.bytes, v.cursor, kind, dir).0
            &&& (r.selection is None <==> anchor == r.cursor)
            &&& (r.selection matches Some((a, b)) ==> a < b && ((a == anchor && b == r.cursor) || (a
                == r.cursor && b == anchor)))
        }),
        ({
            let r = v_arrow(v, dir, kind, false).0;
            &&& r.bytes == v.bytes
            &&& r.selection is None
            &&& (v.selection matches Some((s, e)) ==> (kind == Movement::Glyph ==> r.cursor == (if dir
                == TextDirection::Left {
                s
            } else {
                e
            })))
            &&& (v.selection is None || kind != Movement::Glyph ==> r.cursor == moved_cursor(
                v.bytes,
                v.cursor,
                kind,
                dir,
            ).0)
        }),
{
}

/// The clipboard shortcuts (Control, or Meta on macOS, with A, C, X or V):
/// select-all selects the whole text with the cursor at its end; copy leaves
/// the state as it is and hands the selection to the clipboard; cut does
/// the same and removes exactly the selected bytes; paste leaves the state
/// to the host.
pub proof fn lemma_clipboard_shortcuts(v: EditView, key: PhysicalKey, mac: bool)
    requires
        v.wf(),
    ensures
        ({
            let mods = Modifiers { bits: if mac { META } else { CONTROL } };
            let r = v_modifier_cmd(v, mods, key, mac);
            let len = v.bytes.len() as int;
            &&& key == PhysicalKey::Code(KeyCode::KeyA) && len > 0 ==> r.0 == (EditView {
                bytes: v.bytes,
                cursor: len,
                selection: Some((0int, len)),
            }) && r.1
            &&& key == PhysicalKey::Code(KeyCode::KeyC) ==> r.0 == v && r.1 && (v.selection matches Some(
                (s, e),
            ) ==> r.2 == ActionView::SetClipboard(copied_chars(decode_utf8(v.bytes), s, e)))
            &&& key == PhysicalKey::Code(KeyCode::KeyX) ==> r.1 && (v.selection matches Some((s, e))
                ==> r.0 == (EditView { bytes: v.bytes.take(s) + v.bytes.skip(e), cursor: s, selection: None })
                && r.2 == ActionView::SetClipboard(copied_chars(decode_utf8(v.bytes), s, e)))
            &&& key == PhysicalKey::Code(KeyCode::KeyV) ==> r == (v, false, ActionView::Paste)
        }),
{
}

/// The editing state of a text input.
pub struct TextEditState {
    buffer: String,
    cursor_glyph_idx: usize,
    selection: Option<Range<usize>>,
}

impl View for TextEditState {
    type V = EditView;

    closed spec fn view(&self) -> EditView {
        EditView {
            bytes: text_bytes(self.buffer@),
            cursor: self.cursor_glyph_idx as int,
            selection: match self.selection {
                Some(r) => Some((r.start as int, r.end as int)),
                None => None,
            },
        }
    }
}

proof fn lemma_text_valid(s: Seq<char>)
    ensures
        valid_utf8(text_bytes(s)),
        decode_utf8(text_bytes(s)) == s,
        is_char_boundary(text_bytes(s), 0),
        is_char_boundary(text_bytes(s), text_bytes(s).len() as int),
{
    encode_utf8_valid_utf8(s);
    encode_utf8_decode_utf8(s);
    is_char_boundary_start_end_of_seq(text_bytes(s));
}

impl TextEditState {
    /// A state holding `buffer`, with the cursor at its start and nothing
    /// selected.
    pub fn new(buffer: String) -> (r: TextEditState)
        ensures
            r@.bytes == text_bytes(buffer@),
            r@.cursor == 0,
            r@.selection is None,
            r@.wf(),
    {
        proof {
            lemma_text_valid(buffer@);
        }
        let _len = buffer.as_str().as_bytes().len();
        TextEditState { buffer, cursor_glyph_idx: 0, selection: None }
    }

    pub fn buffer(&self) -> (r: &String)
        ensures
            text_bytes(r@) == self@.bytes,
    {
        &self.buffer
    }

    pub fn cursor(&self) -> (r: usize)
        ensures
            r == self@.cursor,
    {
        self.cursor_glyph_idx
    }

    pub fn selection(&self) -> (r: Option<Range<usize>>)
        ensures
            match r {
                Some(x) => self@.selection == Some((x.start as int, x.end as int)),
                None => self@.selection is None,
            },
    {
        match &self.selection {
            Some(r) => Some(Range { start: r.start, end: r.end }),
            None => None,
        }
    }

    /// Moves the cursor; returns whether it moved.
    pub fn move_cursor(&mut self, move_kind: Movement, direction: TextDirection) -> (r: bool)
        requires
            old(self)@.wf(),
        ensures
            (final(self)@.cursor, r) == moved_cursor(
                old(self)@.bytes,
                old(self)@.cursor,
                move_kind,
                direction,
            ),
            final(self)@.bytes == old(self)@.bytes,
            final(self)@.selection == old(self)@.selection,
            final(self)@.wf(),
            direction == TextDirection::Left ==> final(self)@.cursor <= old(self)@.cursor,
            direction == TextDirection::Right ==> final(self)@.cursor >= old(self)@.cursor,
    {
        proof {
            lemma_moved_cursor_direction(self@.bytes, self@.cursor, move_kind, direction);
        }
        match (move_kind, direction) {
            (Movement::Glyph, TextDirection::Left) => self.move_glyph_left(),
            (Movement::Glyph, TextDirection::Right) => self.move_glyph_right(),
            (Movement::Line, TextDirection::Right) => {
                let len = self.buffer.as_str().as_bytes().len();
                proof {
                    lemma_text_valid(self.buffer@);
                }
                if self.cursor_glyph_idx < len {
                    self.cursor_glyph_idx = len;
                    return true;
                }
                false
            },
            (Movement::Line, TextDirection::Left) => {
                proof {
                    lemma_text_valid(self.buffer@);
                }
                if self.cursor_glyph_idx > 0 {
                    self.cursor_glyph_idx = 0;
                    return true;
                }
                false
            },
            (Movement::Word, TextDirection::Right) => self.move_word_right(),
            (Movement::Word, TextDirection::Left) => self.move_word_left(),
        }
    }

    /// Deletes the selected bytes and puts the cursor where they began.
    fn delete_selection(&mut self)
        requires
            old(self)@.wf(),
            old(self)@.selection is Some,
        ensures
            final(self)@ == v_delete_selection(old(self)@),
            final(self)@.wf(),
    {
        let ghost v = self@;
        proof {
            lemma_text_valid(self.buffer@);
        }
        let sel = match &self.selection {
            Some(r) => Range { start: r.start, end: r.end },
            None => {
                return;
            },
        };
        let start = sel.start;
        let ghost e = sel.end as int;
        replace_range(&mut self.buffer, sel, None);
        self.cursor_glyph_idx = start;
        self.selection = None;
        proof {
            lemma_splice_boundaries(v.bytes, start as int, e, Seq::empty());
            assert(v.bytes.take(start as int) + Seq::<u8>::empty() =~= v.bytes.take(start as int));
            lemma_text_valid(self.buffer@);
        }
        let _len = self.buffer.as_str().as_bytes().len();
    }

    /// Types `ch`: replaces the selection (or inserts at the cursor) and
    /// steps the cursor over the next cluster; returns whether it moved.
    pub fn insert_text(&mut self, ch: &str) -> (r: bool)
        requires
            old(self)@.wf(),
        ensures
            (final(self)@, r) == v_insert_text(old(self)@, text_bytes(ch@)),
            final(self)@.wf(),
    {
        if self.selection.is_some() {
            self.delete_selection();
        }
        let ghost v1 = self@;
        proof {
            lemma_text_valid(self.buffer@);
            lemma_text_valid(ch@);
        }
        insert_str_at(&mut self.buffer, self.cursor_glyph_idx, ch);
        proof {
            lemma_splice_boundaries(v1.bytes, v1.cursor, v1.cursor, text_bytes(ch@));
            lemma_text_valid(self.buffer@);
        }
        let _len = self.buffer.as_str().as_bytes().len();
        self.move_cursor(Movement::Glyph, TextDirection::Right)
    }

    /// Sets the selection to the range spanned by two positions.
    pub fn update_selection(&mut self, selection_start: usize, selection_end: usize)
        requires
            old(self)@.wf(),
            selection_start <= old(self)@.bytes.len(),
            selection_end <= old(self)@.bytes.len(),
            is_char_boundary(old(self)@.bytes, selection_start as int),
            is_char_boundary(old(self)@.bytes, selection_end as int),
        ensures
            final(self)@.bytes == old(self)@.bytes,
            final(self)@.cursor == old(self)@.cursor,
            final(self)@.selection == spanned_selection(
                selection_start as int,
                selection_end as int,
            ),
            final(self)@.wf(),
    {
        self.selection = if selection_start < selection_end {
            Some(Range { start: selection_start, end: selection_end })
        } else if selection_start > selection_end {
            Some(Range { start: selection_end, end: selection_start })
        } else {
            None
        };
    }

    /// Extends the selection after the cursor moved from `old_glyph_idx` to
    /// `curr_glyph_idx`, keeping the edge opposite the cursor anchored.
    pub fn move_selection(&mut self, old_glyph_idx: usize, curr_glyph_idx: usize)
        requires
            old(self)@.wf(),
            old_glyph_idx <= old(self)@.bytes.len(),
            curr_glyph_idx <= old(self)@.bytes.len(),
            is_char_boundary(old(self)@.bytes, old_glyph_idx as int),
            is_char_boundary(old(self)@.bytes, curr_glyph_idx as int),
        ensures
            final(self)@.bytes == old(self)@.bytes,
            final(self)@.cursor == old(self)@.cursor,
            final(self)@.selection == extended_selection(
                old(self)@.selection,
                old_glyph_idx as int,
                curr_glyph_idx as int,
            ),
            final(self)@.wf(),
    {
        let new_selection = match &self.selection {
            Some(selection) => {
                let anchor = if selection.start == old_glyph_idx {
                    selection.end
                } else {
                    selection.start
                };
                if anchor < curr_glyph_idx {
                    Range { start: anchor, end: curr_glyph_idx }
                } else {
                    Range { start: curr_glyph_idx, end: anchor }
                }
            },
            None => if old_glyph_idx < curr_glyph_idx {
                Range { start: old_glyph_idx, end: curr_glyph_idx }
            } else {
                Range { start: curr_glyph_idx, end: old_glyph_idx }
            },
        };
        self.selection = if new_selection.start >= new_selection.end {
            None
        } else {
            Some(new_selection)
        };
    }

    /// Selects the whole text and puts the cursor at its end.
    pub fn select_all(&mut self)
        requires
            old(self)@.wf(),
        ensures
            final(self)@ == v_select_all(old(self)@),
            final(self)@.wf(),
    {
        proof {
            lemma_text_valid(self.buffer@);
        }
        let len = self.buffer.as_str().as_bytes().len();
        if len == 0 {
            return;
        }
        self.cursor_glyph_idx = len;
        self.selection = Some(Range { start: 0, end: len });
    }

    /// Backspace, moving left by `motion` when nothing is selected; returns
    /// whether anything was deleted.
    pub fn backspace(&mut self, motion: Movement) -> (r: bool)
        requires
            old(self)@.wf(),
        ensures
            (final(self)@, r) == v_backspace(old(self)@, motion),
            final(self)@.wf(),
    {
        if self.selection.is_some() {
            self.delete_selection();
            return true;
        }
        let ghost v = self@;
        let prev_cursor_idx = self.cursor_glyph_idx;
        self.move_cursor(motion, TextDirection::Left);
        if self.cursor_glyph_idx == prev_cursor_idx {
            return false;
        }
        let ghost c = self@.cursor;
        proof {
            lemma_text_valid(self.buffer@);
            lemma_splice_boundaries(v.bytes, c, prev_cursor_idx as int, Seq::empty());
            assert(v.bytes.take(c) + Seq::<u8>::empty() =~= v.bytes.take(c));
        }
        replace_range(
            &mut self.buffer,
            Range { start: self.cursor_glyph_idx, end: prev_cursor_idx },
            None,
        );
        proof {
            lemma_text_valid(self.buffer@);
        }
        let _len = self.buffer.as_str().as_bytes().len();
        true
    }

    /// Delete, moving right by `motion` when nothing is selected; returns
    /// whether anything was deleted.
    pub fn delete_forward(&mut self, motion: Movement) -> (r: bool)
        requires
            old(self)@.wf(),
        ensures
            (final(self)@, r) == v_delete_forward(old(self)@, motion),
            final(self)@.wf(),
    {
        if self.selection.is_some() {
            self.delete_selection();
            return true;
        }
        let ghost v = self@;
        let prev_cursor_idx = self.cursor_glyph_idx;
        self.move_cursor(motion, TextDirection::Right);
        if self.cursor_glyph_idx == prev_cursor_idx {
            return false;
        }
        let ghost c = self@.cursor;
        proof {
            lemma_text_valid(self.buffer@);
            lemma_splice_boundaries(v.bytes, prev_cursor_idx as int, c, Seq::empty());
            assert(v.bytes.take(prev_cursor_idx as int) + Seq::<u8>::empty() =~= v.bytes.take(
                prev_cursor_idx as int,
            ));
        }
        replace_range(
            &mut self.buffer,
            Range { start: prev_cursor_idx, end: self.cursor_glyph_idx },
            None,
        );
        self.cursor_glyph_idx = prev_cursor_idx;
        proof {
            lemma_text_valid(self.buffer@);
        }
        let _len = self.buffer.as_str().as_bytes().len();
        true
    }

    /// The End key; with `shift` the selection grows to the end of the text.
    pub fn press_end(&mut self, shift: bool) -> (r: bool)
        requires
            old(self)@.wf(),
        ensures
            (final(self)@, r) == v_end(old(self)@, shift),
            final(self)@.wf(),
    {
        proof {
            lemma_text_valid(self.buffer@);
        }
        let len = self.buffer.as_str().as_bytes().len();
        if shift {
            match &self.selection {
                Some(selection_value) => {
                    let s = selection_value.start;
                    self.update_selection(s, len);
                },
                None => {
                    let c = self.cursor_glyph_idx;
                    self.update_selection(c, len);
                },
            }
        } else {
            self.selection = None;
        }
        self.move_cursor(Movement::Line, TextDirection::Right)
    }

    /// The Home key; with `shift` the selection grows to the start of the
    /// text.
    pub fn press_home(&mut self, shift: bool) -> (r: bool)
        requires
            old(self)@.wf(),
        ensures
            (final(self)@, r) == v_home(old(self)@, shift),
            final(self)@.wf(),
    {
        proof {
            lemma_text_valid(self.buffer@);
        }
        if shift {
            match &self.selection {
                Some(selection_value) => {
                    let e = selection_value.end;
                    self.update_selection(0, e);
                },
                None => {
                    let c = self.cursor_glyph_idx;
                    self.update_selection(0, c);
                },
            }
        } else {
            self.selection = None;
        }
        self.move_cursor(Movement::Line, TextDirection::Left)
    }

    /// An arrow key moving by `move_kind` in `direction`, extending the
    /// selection with `shift`; returns whether the cursor moved.
    pub fn press_arrow(&mut self, direction: TextDirection, move_kind: Movement, shift: bool) -> (r: bool)
        requires
            old(self)@.wf(),
        ensures
            (final(self)@, r) == v_arrow(old(self)@, direction, move_kind, shift),
            final(self)@.wf(),
    {
        let old_glyph_idx = self.cursor_glyph_idx;
        let cursor_moved = self.move_cursor(move_kind, direction);
        if shift {
            let c = self.cursor_glyph_idx;
            self.move_selection(old_glyph_idx, c);
        } else {
            let taken = match &self.selection {
                Some(r) => Some(Range { start: r.start, end: r.end }),
                None => None,
            };
            self.selection = None;
            if let Some(selection) = taken {
                if move_kind == Movement::Glyph {
                    self.cursor_glyph_idx = if direction == TextDirection::Left {
                        selection.start
                    } else {
                        selection.end
                    };
                }
            }
        }
        cursor_moved
    }

    /// The selected text as a copy takes it.
    pub fn selected_text(&self) -> (r: Option<String>)
        ensures
            match r {
                Some(t) => v_selected_chars(self@) == Some(t@),
                None => v_selected_chars(self@) is None,
            },
    {
        proof {
            lemma_text_valid(self.buffer@);
        }
        match &self.selection {
            Some(selection) => {
                let text = self.buffer.as_str();
                let n = text.unicode_len();
                let a = if selection.start <= n {
                    selection.start
                } else {
                    n
                };
                let z = if selection.end <= n {
                    selection.end
                } else {
                    n
                };
                let z = if a <= z {
                    z
                } else {
                    a
                };
                Some(String::from_str(text.substring_char(a, z)))
            },
            None => None,
        }
    }

    /// Pastes `content` (line breaks are dropped): replaces the selection,
    /// or inserts at the cursor; returns whether anything was pasted.
    pub fn paste(&mut self, content: &str) -> (r: bool)
        requires
            old(self)@.wf(),
        ensures
            (final(self)@, r) == v_paste(old(self)@, text_bytes(without_line_breaks(content@))),
            final(self)@.wf(),
    {
        let clipboard_content = strip_line_breaks(content);
        proof {
            lemma_text_valid(clipboard_content@);
        }
        let clen = clipboard_content.as_str().as_bytes().len();
        if clen == 0 {
            return false;
        }
        if self.selection.is_some() {
            self.delete_selection();
        }
        let ghost v1 = self@;
        proof {
            lemma_text_valid(self.buffer@);
        }
        insert_str_at(&mut self.buffer, self.cursor_glyph_idx, clipboard_content.as_str());
        proof {
            lemma_splice_boundaries(v1.bytes, v1.cursor, v1.cursor, text_bytes(clipboard_content@));
            lemma_text_valid(self.buffer@);
        }
        let _len = self.buffer.as_str().as_bytes().len();
        self.cursor_glyph_idx = self.cursor_glyph_idx + clen;
        true
    }

    /// The space bar.
    fn press_space(&mut self) -> (r: bool)
        requires
            old(self)@.wf(),
        ensures
            (final(self)@, r) == v_space(old(self)@),
            final(self)@.wf(),
    {
        if self.selection.is_some() {
            self.delete_selection();
        } else {
            let ghost v = self@;
            let sp = " ";
            proof {
                lemma_text_valid(self.buffer@);
                reveal_strlit(" ");
                assert(sp@ =~= seq![' ']);
                lemma_text_valid(seq![' ']);
            }
            insert_str_at(&mut self.buffer, self.cursor_glyph_idx, sp);
            proof {
                lemma_splice_boundaries(v.bytes, v.cursor, v.cursor, text_bytes(seq![' ']));
                lemma_text_valid(self.buffer@);
            }
            let _len = self.buffer.as_str().as_bytes().len();
        }
        self.move_cursor(Movement::Glyph, TextDirection::Right)
    }

    /// A shortcut with modifiers (select all, copy, cut, paste).
    pub fn handle_modifier_cmd(&mut self, modifiers: Modifiers, physical_key: PhysicalKey, mac: bool) -> (r: (bool, TextInputAction))
        requires
            old(self)@.wf(),
        ensures
            (final(self)@, r.0, action_view(r.1)) == v_modifier_cmd(
                old(self)@,
                modifiers,
                physical_key,
                mac,
            ),
            final(self)@.wf(),
    {
        if modifiers.is_empty() || modifiers.bits == SHIFT {
            return (false, TextInputAction::Nothing);
        }
        match text_command(modifiers, physical_key, mac) {
            TextCommand::SelectAll => {
                self.select_all();
                (true, TextInputAction::Nothing)
            },
            TextCommand::Copy => match self.selected_text() {
                Some(t) => (true, TextInputAction::SetClipboard(t)),
                None => (true, TextInputAction::Nothing),
            },
            TextCommand::Cut => match self.selected_text() {
                Some(t) => {
                    self.delete_selection();
                    (true, TextInputAction::SetClipboard(t))
                },
                None => (true, TextInputAction::Nothing),
            },
            TextCommand::Paste => (false, TextInputAction::Paste),
            TextCommand::Unbound => {
                self.selection = None;
                (false, TextInputAction::Nothing)
            },
        }
    }

    /// A key press; `mac` selects the macOS shortcuts.
    pub fn handle_key_down(&mut self, event: &KeyEvent, mac: bool) -> (r: KeyDownOutcome)
        requires
            old(self)@.wf(),
        ensures
            (final(self)@, r.handled, action_view(r.action)) == v_key_down(old(self)@, *event, mac),
            final(self)@.wf(),
    {
        let motion = match get_word_based_motion(event.modifiers, mac) {
            Some(m) => m,
            None => Movement::Glyph,
        };
        let shift = event.modifiers.contains(SHIFT);
        let handled = match &event.key {
            Key::Character(c) => {
                let cs = c.as_str();
                let is_space = cs.unicode_len() == 1 && cs.get_char(0) == ' ';
                proof {
                    if is_space {
                        assert(c@ =~= seq![' ']);
                    }
                }
                if is_space {
                    self.press_space()
                } else {
                    false
                }
            },
            Key::Named(NamedKey::Backspace) => self.backspace(motion),
            Key::Named(NamedKey::Delete) => self.delete_forward(motion),
            Key::Named(NamedKey::Escape) => {
                return KeyDownOutcome { handled: true, action: TextInputAction::ClearFocus };
            },
            Key::Named(NamedKey::Enter) => {
                return KeyDownOutcome { handled: true, action: TextInputAction::Submit };
            },
            Key::Named(NamedKey::End) => self.press_end(shift),
            Key::Named(NamedKey::Home) => self.press_home(shift),
            Key::Named(NamedKey::ArrowLeft) => self.press_arrow(TextDirection::Left, motion, shift),
            Key::Named(NamedKey::ArrowRight) => self.press_arrow(
                TextDirection::Right,
                motion,
                shift,
            ),
            _ => false,
        };
        if handled {
            return KeyDownOutcome { handled: true, action: TextInputAction::Nothing };
        }
        match &event.key {
            Key::Character(ch) => {
                let (handled_modifier_cmd, action) = self.handle_modifier_cmd(
                    event.modifiers,
                    event.physical_key,
                    mac,
                );
                if handled_modifier_cmd {
                    return KeyDownOutcome { handled: true, action };
                }
                if event.modifiers.intersects(ALL_MODIFIERS & !SHIFT) {
                    return KeyDownOutcome { handled: false, action };
                }
                let moved = self.insert_text(ch.as_str());
                KeyDownOutcome { handled: moved, action }
            },
            _ => KeyDownOutcome { handled: false, action: TextInputAction::Nothing },
        }
    }

    /// A double click on byte `glyph_idx`: selects the word (or run of other
    /// characters) under it and puts the cursor at its end.
    pub fn handle_double_click(&mut self, glyph_idx: usize)
        requires
            old(self)@.wf(),
        ensures
            final(self)@.bytes == old(self)@.bytes,
            ({
                let r = dbl_click_range(
                    words_of(old(self)@.bytes),
                    old(self)@.bytes.len() as int,
                    glyph_idx as int,
                );
                if r.0 != r.1 {
                    final(self)@.cursor == r.1 && final(self)@.selection == Some(r)
                } else {
                    final(self)@ == old(self)@
                }
            }),
            final(self)@.wf(),
    {
        proof {
            lemma_text_valid(self.buffer@);
        }
        let selection = get_dbl_click_selection(glyph_idx, self.buffer.as_str());
        if selection.start != selection.end {
            self.cursor_glyph_idx = selection.end;
            self.selection = Some(selection);
        }
    }

    fn move_glyph_left(&mut self) -> (r: bool)
        requires
            old(self)@.wf(),
        ensures
            (final(self)@.cursor, r) == moved_cursor(
                old(self)@.bytes,
                old(self)@.cursor,
                Movement::Glyph,
                TextDirection::Left,
            ),
            final(self)@.bytes == old(self)@.bytes,
            final(self)@.selection == old(self)@.selection,
            final(self)@.wf(),
    {
        let ghost b = self@.bytes;
        let ghost c = self@.cursor;
        proof {
            lemma_text_valid(self.buffer@);
        }
        let (before, _) = self.buffer.as_str().split_at(self.cursor_glyph_idx);
        proof {
            lemma_text_valid(before@);
            assert(b.take(c) =~= b.subrange(0, c));
        }
        match last_grapheme_len(before) {
            None => false,
            Some(n) => {
                proof {
                    lemma_boundary_of_prefix(b, c, c - n);
                }
                self.cursor_glyph_idx = self.cursor_glyph_idx - n;
                true
            },
        }
    }

    fn move_glyph_right(&mut self) -> (r: bool)
        requires
            old(self)@.wf(),
        ensures
            (final(self)@.cursor, r) == moved_cursor(
                old(self)@.bytes,
                old(self)@.cursor,
                Movement::Glyph,
                TextDirection::Right,
            ),
            final(self)@.bytes == old(self)@.bytes,
            final(self)@.selection == old(self)@.selection,
            final(self)@.wf(),
    {
        let ghost b = self@.bytes;
        let ghost c = self@.cursor;
        proof {
            lemma_text_valid(self.buffer@);
        }
        let (_, after) = self.buffer.as_str().split_at(self.cursor_glyph_idx);
        proof {
            lemma_text_valid(after@);
            assert(b.skip(c) =~= b.subrange(c, b.len() as int));
        }
        match first_grapheme_len(after) {
            None => false,
            Some(n) => {
                proof {
                    lemma_boundary_of_suffix(b, c, n as int);
                }
                self.cursor_glyph_idx = self.cursor_glyph_idx + n;
                true
            },
        }
    }

    fn move_word_right(&mut self) -> (r: bool)
        requires
            old(self)@.wf(),
        ensures
            (final(self)@.cursor, r) == moved_cursor(
                old(self)@.bytes,
                old(self)@.cursor,
                Movement::Word,
                TextDirection::Right,
            ),
            final(self)@.bytes == old(self)@.bytes,
            final(self)@.selection == old(self)@.selection,
            final(self)@.wf(),
    {
        proof {
            lemma_text_valid(self.buffer@);
        }
        let words = unicode_word_spans(self.buffer.as_str());
        let len = self.buffer.as_str().as_bytes().len();
        proof {
            lemma_next_word_end_boundary(words@, self@.cursor, 0, self@.bytes);
        }
        match next_word_end_in(&words, len, self.cursor_glyph_idx) {
            Some(e) => {
                self.cursor_glyph_idx = e;
                true
            },
            None => false,
        }
    }

    fn move_word_left(&mut self) -> (r: bool)
        requires
            old(self)@.wf(),
        ensures
            (final(self)@.cursor, r) == moved_cursor(
                old(self)@.bytes,
                old(self)@.cursor,
                Movement::Word,
                TextDirection::Left,
            ),
            final(self)@.bytes == old(self)@.bytes,
            final(self)@.selection == old(self)@.selection,
            final(self)@.wf(),
    {
        proof {
            lemma_text_valid(self.buffer@);
        }
        if self.cursor_glyph_idx == 0 {
            return false;
        }
        let words = unicode_word_spans(self.buffer.as_str());
        proof {
            is_char_boundary_start_end_of_seq(self@.bytes);
            lemma_prev_word_start_boundary(words@, self@.cursor, 0, 0, self@.bytes);
        }
        let target = prev_word_start_in(&words, self.cursor_glyph_idx);
        self.cursor_glyph_idx = target;
        true
    }
}


/// The selection after the text became `b`: its byte range stays as it was
/// while both ends still fall on character starts of `b`; a range with an
/// end inside a character of `b` is dropped, since no later deletion or copy
/// could cut the text there.
pub open spec fn kept_selection(sel: Option<(int, int)>, b: Seq<u8>) -> Option<(int, int)> {
    match sel {
        Some((s, e)) => if is_char_boundary(b, s) && is_char_boundary(b, e) {
            sel
        } else {
            None
        },
        None => None,
    }
}

/// The composition as abstract values: its text, the range the input
/// method marks in it, and its offset.
pub open spec fn preedit_view(p: Option<Preedit>) -> Option<(Seq<char>, Option<(usize, usize)>, usize)> {
    match p {
        Some(p) => Some((p.text@, p.cursor, p.offset)),
        None => None,
    }
}

/// Where the cursor is drawn: inside the composition, at the input
/// method's cursor, or after it.
pub open spec fn visual_cursor(cursor: int, p: Option<Preedit>) -> int {
    match p {
        None => cursor,
        Some(p) => match p.cursor {
            None => cursor + text_bytes(p.text@).len(),
            Some(c) => cursor + c.0,
        },
    }
}

/// `ins` put in at the cursor, the cursor moving past it when `advance`;
/// the selection keeps its byte range (see `kept_selection`).
pub open spec fn v_insert_at_cursor(v: EditView, ins: Seq<u8>, advance: bool) -> EditView {
    EditView {
        bytes: bytes_inserted(v, ins),
        cursor: if advance {
            v.cursor + ins.len()
        } else {
            v.cursor
        },
        selection: kept_selection(v.selection, bytes_inserted(v, ins)),
    }
}

/// The start of what the input method deletes before the cursor `c`: the
/// last character start below `i + 1` that lies at least `n` bytes before
/// `c`, or 0.
pub open spec fn surrounding_start(b: Seq<u8>, c: int, n: int, i: int) -> int
    decreases i + 1,
{
    if i < 0 {
        0
    } else if is_char_boundary(b, i) && c - i >= n {
        i
    } else {
        surrounding_start(b, c, n, i - 1)
    }
}

/// The end of what the input method deletes after the cursor `c`: the
/// first character start from `j` on that lies at least `n` bytes after
/// `c`, or the end of the text.
pub open spec fn surrounding_end(b: Seq<u8>, c: int, n: int, j: int) -> int
    decreases b.len() - j,
{
    if j >= b.len() {
        b.len() as int
    } else if is_char_boundary(b, j) && j - c >= n {
        j
    } else {
        surrounding_end(b, c, n, j + 1)
    }
}

/// The input method's request to delete `before` bytes before the cursor
/// and `after` bytes after it, the selection going first; the ends move
/// out to character starts.
pub open spec fn v_delete_surrounding(v: EditView, before: int, after: int) -> EditView {
    let v1 = v_delete_selection(v);
    let s = surrounding_start(v1.bytes, v1.cursor, before, v1.cursor - 1);
    let e = surrounding_end(v1.bytes, v1.cursor, after, v1.cursor);
    EditView { bytes: v1.bytes.take(s) + v1.bytes.skip(e), cursor: s, selection: None }
}

proof fn lemma_surrounding_start(b: Seq<u8>, c: int, n: int, i: int)
    requires
        valid_utf8(b),
        0 <= c <= b.len(),
        i < c,
    ensures
        0 <= surrounding_start(b, c, n, i) <= c,
        is_char_boundary(b, surrounding_start(b, c, n, i)),
    decreases i + 1,
{
    is_char_boundary_start_end_of_seq(b);
    if i >= 0 && !(is_char_boundary(b, i) && c - i >= n) {
        lemma_surrounding_start(b, c, n, i - 1);
    }
}

proof fn lemma_surrounding_end(b: Seq<u8>, c: int, n: int, j: int)
    requires
        valid_utf8(b),
        0 <= c <= j,
    ensures
        c <= surrounding_end(b, c, n, j) <= b.len() || j > b.len(),
        j <= b.len() ==> is_char_boundary(b, surrounding_end(b, c, n, j)),
    decreases b.len() - j,
{
    is_char_boundary_start_end_of_seq(b);
    if j < b.len() && !(is_char_boundary(b, j) && j - c >= n) {
        lemma_surrounding_end(b, c, n, j + 1);
    }
}

/// A text input's editing state with the input method's composition that
/// is under way, if any.
pub struct TextInputState {
    pub edit: TextEditState,
    pub preedit: Option<Preedit>,
}

impl TextEditState {
    /// Puts `text` in at the cursor, the cursor moving past it when
    /// `advance`; the selection keeps its byte range where that still cuts
    /// the text at character starts.
    fn insert_at_cursor(&mut self, text: &str, advance: bool)
        requires
            old(self)@.wf(),
        ensures
            final(self)@ == v_insert_at_cursor(old(self)@, text_bytes(text@), advance),
            final(self)@.wf(),
    {
        let ghost v = self@;
        proof {
            lemma_text_valid(self.buffer@);
            lemma_text_valid(text@);
        }
        let n = text.as_bytes().len();
        insert_str_at(&mut self.buffer, self.cursor_glyph_idx, text);
        proof {
            lemma_splice_boundaries(v.bytes, v.cursor, v.cursor, text_bytes(text@));
            lemma_text_valid(self.buffer@);
        }
        let _len = self.buffer.as_str().as_bytes().len();
        if advance {
            self.cursor_glyph_idx = self.cursor_glyph_idx + n;
        }
        let kept = match &self.selection {
            Some(r) => self.buffer.as_str().is_char_boundary(r.start)
                && self.buffer.as_str().is_char_boundary(r.end),
            None => false,
        };
        if !kept {
            self.selection = None;
        }
    }

    /// Selects everything, as a triple click does.
    pub fn handle_triple_click(&mut self)
        requires
            old(self)@.wf(),
        ensures
            final(self)@ == v_select_all(old(self)@),
            final(self)@.wf(),
    {
        self.select_all();
    }

    /// Deletes around the cursor as the input method asks: first the
    /// selection, then back to the last character start at least `before`
    /// bytes before the cursor (or the start of the text) and on to the
    /// first character start at least `after` bytes after it (or the end).
    fn delete_surrounding(&mut self, before: usize, after: usize)
        requires
            old(self)@.wf(),
        ensures
            final(self)@ == v_delete_surrounding(old(self)@, before as int, after as int),
            final(self)@.wf(),
    {
        if self.selection.is_some() {
            self.delete_selection();
        }
        let ghost v1 = self@;
        proof {
            lemma_text_valid(self.buffer@);
        }
        let c = self.cursor_glyph_idx;
        let text = self.buffer.as_str();
        let len = text.as_bytes().len();
        let mut start: usize = 0;
        let mut i: usize = c;
        while i > 0
            invariant_except_break
                i <= c,
                start == 0,
                surrounding_start(v1.bytes, c as int, before as int, i - 1) == surrounding_start(
                    v1.bytes,
                    c as int,
                    before as int,
                    c - 1,
                ),
            invariant
                c <= len,
                len == v1.bytes.len(),
                c == v1.cursor,
                text.spec_bytes() == v1.bytes,
            ensures
                start == surrounding_start(v1.bytes, c as int, before as int, c - 1),
            decreases i,
        {
            if text.is_char_boundary(i - 1) && c - (i - 1) >= before {
                start = i - 1;
                break;
            }
            i = i - 1;
        }
        proof {
            lemma_surrounding_start(v1.bytes, c as int, before as int, c - 1);
        }
        let mut end: usize = len;
        let mut j: usize = c;
        while j < len
            invariant_except_break
                c <= j <= len,
                end == len,
                surrounding_end(v1.bytes, c as int, after as int, j as int) == surrounding_end(
                    v1.bytes,
                    c as int,
                    after as int,
                    c as int,
                ),
            invariant
                c <= len,
                len == v1.bytes.len(),
                text.spec_bytes() == v1.bytes,
            ensures
                end == surrounding_end(v1.bytes, c as int, after as int, c as int),
            decreases len - j,
        {
            if text.is_char_boundary(j) && j - c >= after {
                end = j;
                break;
            }
            j = j + 1;
        }
        proof {
            lemma_surrounding_end(v1.bytes, c as int, after as int, c as int);
        }
        replace_range(&mut self.buffer, Range { start, end }, None);
        self.cursor_glyph_idx = start;
        proof {
            lemma_splice_boundaries(v1.bytes, start as int, end as int, Seq::empty());
            assert(v1.bytes.take(start as int) + Seq::<u8>::empty() =~= v1.bytes.take(start as int));
            lemma_text_valid(self.buffer@);
        }
        let _len = self.buffer.as_str().as_bytes().len();
    }
}

impl TextInputState {
    /// Where the cursor is drawn, the composition counted in.
    pub fn cursor_visual_idx(&self) -> (r: usize)
        requires
            visual_cursor(self.edit@.cursor, self.preedit) <= usize::MAX,
        ensures
            r == visual_cursor(self.edit@.cursor, self.preedit),
    {
        let cursor = self.edit.cursor_glyph_idx;
        match &self.preedit {
            None => cursor,
            Some(preedit) => match preedit.cursor {
                None => cursor + preedit.text.as_str().as_bytes().len(),
                Some(c) => cursor + c.0,
            },
        }
    }

    /// Puts the composition's text in at the cursor (the cursor stays) and
    /// ends the composition; returns whether there was one.
    pub fn commit_preedit(&mut self) -> (r: bool)
        requires
            old(self).edit@.wf(),
        ensures
            r == old(self).preedit is Some,
            final(self).preedit is None,
            r ==> final(self).edit@ == v_insert_at_cursor(
                old(self).edit@,
                text_bytes(old(self).preedit->0.text@),
                false,
            ),
            !r ==> final(self).edit@ == old(self).edit@,
            final(self).edit@.wf(),
    {
        let p = self.preedit.take();
        match p {
            Some(preedit) => {
                self.edit.insert_at_cursor(preedit.text.as_str(), false);
                true
            },
            None => false,
        }
    }

    /// The input method shows `text` as the composition (with `cursor`
    /// marked in it): when focused and `text` is not empty, the selection is
    /// deleted and the composition set, keeping its offset; otherwise the
    /// composition ends. Returns whether anything changed that is shown.
    pub fn ime_preedit(&mut self, focused: bool, text: &str, cursor: Option<(usize, usize)>) -> (r: bool)
        requires
            old(self).edit@.wf(),
        ensures
            final(self).edit@.wf(),
            if focused && text@.len() > 0 {
                &&& r
                &&& final(self).edit@ == v_delete_selection(old(self).edit@)
                &&& preedit_view(final(self).preedit) == Some(
                    (
                        text@,
                        cursor,
                        match old(self).preedit {
                            Some(p) => p.offset,
                            None => 0,
                        },
                    ),
                )
            } else {
                &&& r == old(self).preedit is Some
                &&& final(self).edit@ == old(self).edit@
                &&& final(self).preedit is None
            },
    {
        if focused && !text.is_empty() {
            if self.edit.selection.is_some() {
                self.edit.delete_selection();
            }
            let offset = match &self.preedit {
                Some(p) => p.offset,
                None => 0,
            };
            self.preedit = Some(Preedit { text: String::from_str(text), cursor, offset });
            true
        } else {
            let had = self.preedit.is_some();
            self.preedit = None;
            had
        }
    }

    /// The input method commits `text`: when focused, it goes in at the
    /// cursor, the cursor moves past it and the composition ends. Returns
    /// whether it was taken.
    pub fn ime_commit(&mut self, focused: bool, text: &str) -> (r: bool)
        requires
            old(self).edit@.wf(),
        ensures
            r == focused,
            final(self).edit@.wf(),
            focused ==> final(self).edit@ == v_insert_at_cursor(old(self).edit@, text_bytes(text@), true)
                && final(self).preedit is None,
            !focused ==> final(self).edit@ == old(self).edit@ && preedit_view(final(self).preedit)
                == preedit_view(old(self).preedit),
    {
        if focused {
            self.edit.insert_at_cursor(text, true);
            self.preedit = None;
            true
        } else {
            false
        }
    }

    /// The input method asks to delete `before_bytes` before the cursor and
    /// `after_bytes` after it; done when focused. Returns whether it was.
    pub fn ime_delete_surrounding(&mut self, focused: bool, before_bytes: usize, after_bytes: usize) -> (r: bool)
        requires
            old(self).edit@.wf(),
        ensures
            r == focused,
            final(self).edit@.wf(),
            focused ==> final(self).edit@ == v_delete_surrounding(
                old(self).edit@,
                before_bytes as int,
                after_bytes as int,
            ),
            !focused ==> final(self).edit@ == old(self).edit@,
            preedit_view(final(self).preedit) == preedit_view(old(self).preedit),
    {
        if focused {
            self.edit.delete_surrounding(before_bytes, after_bytes);
            true
        } else {
            false
        }
    }

    /// The pointer moves while the input holds it: unless the text is
    /// empty, the composition is committed and the selection spans from the
    /// cursor to `stop`, the character start under the pointer in the
    /// committed text. Returns whether a composition was committed (the
    /// layout then changes).
    pub fn pointer_move(&mut self, active: bool, stop: usize) -> (r: bool)
        requires
            old(self).edit@.wf(),
            active && old(self).edit@.bytes.len() > 0 ==> stop <= committed_view(*old(self)).bytes.len()
                && is_char_boundary(committed_view(*old(self)).bytes, stop as int),
        ensures
            final(self).edit@.wf(),
            if active && old(self).edit@.bytes.len() > 0 {
                &&& r == old(self).preedit is Some
                &&& final(self).preedit is None
                &&& final(self).edit@ == EditView {
                    selection: spanned_selection(committed_view(*old(self)).cursor, stop as int),
                    ..committed_view(*old(self))
                }
            } else {
                &&& !r
                &&& final(self).edit@ == old(self).edit@
                &&& preedit_view(final(self).preedit) == preedit_view(old(self).preedit)
            },
    {
        if active && self.edit.buffer.as_str().as_bytes().len() > 0 {
            let committed = self.commit_preedit();
            let c = self.edit.cursor_glyph_idx;
            self.edit.update_selection(c, stop);
            committed
        } else {
            false
        }
    }
}

/// The editing state once the composition, if any, is committed.
pub open spec fn committed_view(st: TextInputState) -> EditView {
    match st.preedit {
        Some(p) => v_insert_at_cursor(st.edit@, text_bytes(p.text@), false),
        None => st.edit@,
    }
}

impl TextEditState {
    /// A press of the primary pointer button, `count` clicks in a row, once
    /// the composition is committed, at the character start `box_position`
    /// under the pointer: unless the text is empty, a double click selects
    /// the word there, a triple click everything, and another click puts
    /// the cursor there and drops the selection.
    pub fn pointer_down(&mut self, count: u8, box_position: usize)
        requires
            old(self)@.wf(),
            count != 2 && count != 3 && old(self)@.bytes.len() > 0 ==> is_char_boundary(
                old(self)@.bytes,
                box_position as int,
            ),
        ensures
            final(self)@.wf(),
            old(self)@.bytes.len() == 0 ==> final(self)@ == old(self)@,
            old(self)@.bytes.len() > 0 && count == 3 ==> final(self)@ == v_select_all(old(self)@),
            old(self)@.bytes.len() > 0 && count != 2 && count != 3 ==> final(self)@ == (EditView {
                bytes: old(self)@.bytes,
                cursor: box_position as int,
                selection: None,
            }),
            old(self)@.bytes.len() > 0 && count == 2 ==> final(self)@.bytes == old(self)@.bytes && ({
                let r = dbl_click_range(
                    words_of(old(self)@.bytes),
                    old(self)@.bytes.len() as int,
                    box_position as int,
                );
                if r.0 != r.1 {
                    final(self)@.cursor == r.1 && final(self)@.selection == Some(r)
                } else {
                    final(self)@ == old(self)@
                }
            }),
    {
        proof {
            lemma_text_valid(self.buffer@);
        }
        let len = self.buffer.as_str().as_bytes().len();
        if len > 0 {
            if count == 2 {
                self.handle_double_click(box_position);
            } else if count == 3 {
                self.handle_triple_click();
            } else {
                proof {
                    vstd::utf8::is_char_boundary_start_end_of_seq(self@.bytes);
                    if box_position > len {
                        assert(!is_char_boundary(self@.bytes, box_position as int));
                    }
                }
                self.cursor_glyph_idx = box_position;
                self.selection = None;
            }
        }
    }
}

/// Puts `s` into `buf` at byte `idx`.
fn insert_str_at(buf: &mut String, idx: usize, s: &str)
    requires
        idx <= text_bytes(old(buf)@).len(),
        is_char_boundary(text_bytes(old(buf)@), idx as int),
    ensures
        text_bytes(final(buf)@) == text_bytes(old(buf)@).take(idx as int) + text_bytes(s@)
            + text_bytes(old(buf)@).skip(idx as int),
{
    replace_range(buf, Range { start: idx, end: idx }, Some(s));
}

/// The motion of a word-wise key chord (Control, or on macOS Alt by word
/// and Meta by line).
pub fn get_word_based_motion(modifiers: Modifiers, mac: bool) -> (r: Option<Movement>)
    ensures
        r == word_based_motion(modifiers, mac),
{
    if !mac {
        if modifiers.contains(CONTROL) {
            Some(Movement::Word)
        } else {
            None
        }
    } else if modifiers.contains(ALT) {
        Some(Movement::Word)
    } else if modifiers.contains(META) {
        Some(Movement::Line)
    } else {
        None
    }
}

/// The editing command of a shortcut.
pub fn text_command(modifiers: Modifiers, physical_key: PhysicalKey, mac: bool) -> (r: TextCommand)
    ensures
        r == text_command_of(modifiers, physical_key, mac),
{
    let cmd = if mac {
        META
    } else {
        CONTROL
    };
    if modifiers.bits == cmd {
        match physical_key {
            PhysicalKey::Code(KeyCode::KeyA) => TextCommand::SelectAll,
            PhysicalKey::Code(KeyCode::KeyC) => TextCommand::Copy,
            PhysicalKey::Code(KeyCode::KeyX) => TextCommand::Cut,
            PhysicalKey::Code(KeyCode::KeyV) => TextCommand::Paste,
            _ => TextCommand::Unbound,
        }
    } else {
        TextCommand::Unbound
    }
}

/// `content` without its `\r` and `\n` characters.
pub fn strip_line_breaks(content: &str) -> (r: String)
    ensures
        r@ == without_line_breaks(content@),
{
    let n = content.unicode_len();
    let mut out = String::new();
    let mut i: usize = 0;
    while i < n
        invariant
            i <= n,
            n == content@.len(),
            out@ == without_line_breaks(content@.take(i as int)),
        decreases n - i,
    {
        let c = content.get_char(i);
        proof {
            reveal(Seq::filter);
            assert(content@.take(i + 1).drop_last() =~= content@.take(i as int));
            assert(content@.take(i + 1).last() == c);
        }
        if c != '\r' && c != '\n' {
            push_char(&mut out, c);
        }
        i = i + 1;
    }
    proof {
        assert(content@.take(n as int) =~= content@);
    }
    out
}

/// Where a move one word right from `c` lands, given the words of the
/// text (each as byte offset and length): the end of the first word that
/// ends after `c`, if any.
pub fn next_word_end_in(words: &Vec<(usize, usize)>, len: usize, c: usize) -> (r: Option<usize>)
    requires
        word_spans_well_formed(words@, len as int),
    ensures
        match r {
            Some(e) => next_word_end(words@, c as int, 0) == Some(e as int) && e <= len,
            None => next_word_end(words@, c as int, 0) is None,
        },
{
    let ghost ws = words@;
    let mut k: usize = 0;
    while k < words.len()
        invariant
            k <= ws.len(),
            ws == words@,
            word_spans_well_formed(ws, len as int),
            next_word_end(ws, c as int, k as int) == next_word_end(ws, c as int, 0),
        decreases ws.len() - k,
    {
        let (idx, wlen) = words[k];
        proof {
            assert(ws[k as int].1 > 0);
        }
        let word_end_idx = idx + wlen;
        if word_end_idx > c {
            return Some(word_end_idx);
        }
        k = k + 1;
    }
    None
}

/// Where a move one word left from `c` lands, given the words of the text:
/// the start of the last word of the leading run of words that start
/// before `c`, or 0.
pub fn prev_word_start_in(words: &Vec<(usize, usize)>, c: usize) -> (r: usize)
    ensures
        r == prev_word_start(words@, c as int, 0, 0),
{
    let ghost ws = words@;
    let mut prev_word_idx: usize = 0;
    let mut k: usize = 0;
    while k < words.len()
        invariant_except_break
            prev_word_start(ws, c as int, k as int, prev_word_idx as int) == prev_word_start(
                ws,
                c as int,
                0,
                0,
            ),
        invariant
            k <= ws.len(),
            ws == words@,
        ensures
            prev_word_idx == prev_word_start(ws, c as int, 0, 0),
        decreases ws.len() - k,
    {
        let (idx, _) = words[k];
        if idx < c {
            prev_word_idx = idx;
        } else {
            break;
        }
        k = k + 1;
    }
    prev_word_idx
}

/// The end a move one word right lands on is a character boundary.
proof fn lemma_next_word_end_boundary(ws: Seq<(usize, usize)>, c: int, k: int, b: Seq<u8>)
    requires
        0 <= k,
        word_spans_well_formed(ws, b.len() as int),
        word_spans_on_boundaries(ws, b),
    ensures
        next_word_end(ws, c, k) matches Some(e) ==> e <= b.len() && is_char_boundary(b, e),
    decreases ws.len() - k,
{
    if k < ws.len() && !(ws[k].0 + ws[k].1 > c) {
        lemma_next_word_end_boundary(ws, c, k + 1, b);
    }
}

/// The start a move one word left lands on is a character boundary.
proof fn lemma_prev_word_start_boundary(ws: Seq<(usize, usize)>, c: int, k: int, acc: int, b: Seq<u8>)
    requires
        0 <= k,
        0 <= acc <= b.len(),
        is_char_boundary(b, acc),
        word_spans_well_formed(ws, b.len() as int),
        word_spans_on_boundaries(ws, b),
    ensures
        prev_word_start(ws, c, k, acc) <= b.len(),
        is_char_boundary(b, prev_word_start(ws, c, k, acc)),
    decreases ws.len() - k,
{
    if k < ws.len() && ws[k].0 < c {
        assert(ws[k].1 > 0);
        lemma_prev_word_start_boundary(ws, c, k + 1, ws[k].0 as int, b);
    }
}

} // verus!
