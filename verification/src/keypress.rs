//! Key chords: a key with modifiers, parsed from text such as
//! `"ctrl+shift+z"` or `"Meta+ArrowUp Meta+k"`.
use crate::keyboard::{ALT, ALT_GRAPH, CONTROL, Key, KeyCode, KeyEvent, META, Modifiers, NamedKey, PhysicalKey, SHIFT};
use crate::segmentation::push_char;
use std::str::FromStr;
use vstd::prelude::*;
use vstd::string::{StrSliceExecFns, StringExecFns};

verus! {

/// A pointer button that can be bound like a key.
#[derive(Clone, Copy, Debug, PartialEq, Eq, Hash, Structural)]
pub enum PointerButton {
    Primary,
    Secondary,
    Auxiliary,
    X1,
    X2,
    Other,
}

/// The input half of a key chord: a key (logical and physical) or a pointer
/// button.
#[derive(Clone, Debug, PartialEq, Eq, Hash)]
pub enum KeyInput {
    Keyboard(Key, PhysicalKey),
    Pointer(PointerButton),
}

/// A key chord.
#[derive(Clone, Debug, PartialEq, Eq, Hash)]
pub struct KeyPress {
    pub key: KeyInput,
    pub mods: Modifiers,
}

/// The logical key as abstract values.
pub enum KeyView {
    Character(Seq<char>),
    Named(NamedKey),
    Other(Seq<char>),
}

pub open spec fn key_view(k: Key) -> KeyView {
    match k {
        Key::Character(s) => KeyView::Character(s@),
        Key::Named(n) => KeyView::Named(n),
        Key::Other(s) => KeyView::Other(s@),
    }
}

/// A key chord as abstract values.
pub enum KeyInputView {
    Keyboard(KeyView, PhysicalKey),
    Pointer(PointerButton),
}

pub struct KeyPressView {
    pub key: KeyInputView,
    pub mods: Modifiers,
}

pub open spec fn key_input_view(k: KeyInput) -> KeyInputView {
    match k {
        KeyInput::Keyboard(key, p) => KeyInputView::Keyboard(key_view(key), p),
        KeyInput::Pointer(b) => KeyInputView::Pointer(b),
    }
}

pub open spec fn key_press_view(k: KeyPress) -> KeyPressView {
    KeyPressView { key: key_input_view(k.key), mods: k.mods }
}

/// How the key-name parser classifies a text: `None` when it names no key,
/// `Some(true)` when it is a character string, `Some(false)` when it is the
/// name of a named key.
pub uninterp spec fn key_name_class(s: Seq<char>) -> Option<bool>;

/// The names of the named keys that the views react to.
pub open spec fn is_listed_key_name(s: Seq<char>) -> bool {
    listed_named_key(s) is Some
}

/// A character that `char::is_control` accepts: the control codes
/// U+0000 to U+001F and U+007F to U+009F.
pub open spec fn is_control_char(c: char) -> bool {
    (c as u32) <= 0x1f || (0x7f <= (c as u32) && (c as u32) <= 0x9f)
}

/// A text that the keyboard types take for the text a key produces: no
/// control character, and no ASCII character after the first.
pub open spec fn is_key_string(s: Seq<char>) -> bool {
    &&& forall|i: int| 0 <= i < s.len() ==> !is_control_char(#[trigger] s[i])
    &&& forall|i: int| 1 <= i < s.len() ==> (#[trigger] s[i] as u32) >= 0x80
}

/// A text of one lower-case ASCII letter.
pub open spec fn is_single_lowercase_letter(s: Seq<char>) -> bool {
    s.len() == 1 && 'a' <= s[0] && s[0] <= 'z'
}

/// Calls `Key::from_str` of the keyboard types and reports only how the
/// text was classified. Claimed of it: the result is a function of the text
/// alone; the source returns `Character` with the text itself, or `Named`
/// for the key whose name is the text. As its source shows, a single
/// lower-case letter is a character string (no control character, nothing
/// after the first character), and each listed name, whose second
/// character is ASCII, is the name of a named key.
#[verifier::external_body]
pub(crate) fn classify_key_name(s: &str) -> (r: Option<bool>)
    ensures
        r == key_name_class(s@),
        (r == Some(true)) == is_key_string(s@),
        is_listed_key_name(s@) ==> r == Some(false),
{
    match ui_events::keyboard::Key::from_str(s) {
        Ok(ui_events::keyboard::Key::Character(_)) => Some(true),
        Ok(ui_events::keyboard::Key::Named(_)) => Some(false),
        Err(_) => None,
    }
}

/// The lower-case form of a text under Unicode's case mapping.
pub uninterp spec fn lowercase_of(s: Seq<char>) -> Seq<char>;

/// The lower-case form of an ASCII character: `A` to `Z` become `a` to
/// `z`, the others stay.
pub open spec fn ascii_lower(c: char) -> char {
    if 'A' <= c && c <= 'Z' {
        ((c as u32) + 32) as char
    } else {
        c
    }
}

/// A text of ASCII characters only.
pub open spec fn is_ascii_text(s: Seq<char>) -> bool {
    forall|i: int| 0 <= i < s.len() ==> (#[trigger] s[i] as u32) < 0x80
}

/// An ASCII text in lower case.
pub open spec fn ascii_lowered(s: Seq<char>) -> Seq<char> {
    Seq::new(s.len(), |i: int| ascii_lower(s[i]))
}

/// Calls `str::to_lowercase`. Claimed of it: the result is a function of
/// the text alone, and an ASCII text is lowered character by character,
/// `A` to `Z` becoming `a` to `z` (Unicode's lower-case mapping of those
/// letters) and other ASCII characters staying as they are.
#[verifier::external_body]
fn lowercase(s: &str) -> (r: String)
    ensures
        r@ == lowercase_of(s@),
        is_ascii_text(s@) ==> r@ == ascii_lowered(s@),
{
    s.to_lowercase()
}

/// The characters of a text.
pub(crate) fn chars_of(s: &str) -> (r: Vec<char>)
    ensures
        r@ == s@,
{
    let n = s.unicode_len();
    let mut out: Vec<char> = Vec::new();
    let mut i: usize = 0;
    while i < n
        invariant
            i <= n,
            n == s@.len(),
            out@ == s@.take(i as int),
        decreases n - i,
    {
        out.push(s.get_char(i));
        i = i + 1;
        assert(out@ =~= s@.take(i as int));
    }
    assert(s@.take(n as int) =~= s@);
    out
}

/// A text made of these characters.
fn string_of(v: &Vec<char>) -> (r: String)
    ensures
        r@ == v@,
{
    let mut out = String::new();
    let mut i: usize = 0;
    while i < v.len()
        invariant
            i <= v@.len(),
            out@ == v@.take(i as int),
        decreases v@.len() - i,
    {
        push_char(&mut out, v[i]);
        i = i + 1;
        assert(out@ =~= v@.take(i as int));
    }
    assert(v@.take(v@.len() as int) =~= v@);
    out
}

/// Whether two texts are equal.
pub(crate) fn chars_eq(a: &Vec<char>, b: &str) -> (r: bool)
    ensures
        r == (a@ == b@),
{
    let n = b.unicode_len();
    if a.len() != n {
        return false;
    }
    let mut i: usize = 0;
    while i < n
        invariant
            i <= n,
            n == b@.len(),
            a@.len() == n,
            forall|j: int| 0 <= j < i ==> a@[j] == b@[j],
        decreases n - i,
    {
        if a[i] != b.get_char(i) {
            return false;
        }
        i = i + 1;
    }
    assert(a@ =~= b@);
    true
}

/// The pieces of a text between the separators (`str::split`).
pub open spec fn split_on(s: Seq<char>, sep: char) -> Seq<Seq<char>>
    decreases s.len(),
{
    if s.len() == 0 {
        seq![Seq::<char>::empty()]
    } else {
        let rest = split_on(s.drop_last(), sep);
        if s.last() == sep {
            rest.push(Seq::<char>::empty())
        } else {
            rest.update(rest.len() - 1, rest.last().push(s.last()))
        }
    }
}

proof fn lemma_split_on_nonempty(s: Seq<char>, sep: char)
    ensures
        split_on(s, sep).len() > 0,
    decreases s.len(),
{
    if s.len() > 0 {
        lemma_split_on_nonempty(s.drop_last(), sep);
    }
}

fn split_chars(s: &Vec<char>, sep: char) -> (r: Vec<Vec<char>>)
    ensures
        r@.len() == split_on(s@, sep).len(),
        forall|k: int| 0 <= k < r@.len() ==> #[trigger] r@[k]@ == split_on(s@, sep)[k],
{
    let mut pieces: Vec<Vec<char>> = Vec::new();
    let mut cur: Vec<char> = Vec::new();
    let mut i: usize = 0;
    while i < s.len()
        invariant
            i <= s@.len(),
            pieces@.len() + 1 == split_on(s@.take(i as int), sep).len(),
            forall|k: int|
                0 <= k < pieces@.len() ==> #[trigger] pieces@[k]@ == split_on(
                    s@.take(i as int),
                    sep,
                )[k],
            cur@ == split_on(s@.take(i as int), sep).last(),
        decreases s@.len() - i,
    {
        let c = s[i];
        proof {
            assert(s@.take(i + 1).drop_last() =~= s@.take(i as int));
            assert(s@.take(i + 1).last() == c);
            lemma_split_on_nonempty(s@.take(i as int), sep);
        }
        if c == sep {
            pieces.push(cur);
            cur = Vec::new();
        } else {
            cur.push(c);
        }
        i = i + 1;
        proof {
            let t = split_on(s@.take(i as int), sep);
            assert forall|k: int| 0 <= k < pieces@.len() implies #[trigger] pieces@[k]@ == t[k] by {}
        }
    }
    proof {
        assert(s@.take(s@.len() as int) =~= s@);
    }
    pieces.push(cur);
    proof {
        let t = split_on(s@, sep);
        assert forall|k: int| 0 <= k < pieces@.len() implies #[trigger] pieces@[k]@ == t[k] by {}
    }
    pieces
}

/// Index of the last occurrence of `c` in `s`.
pub open spec fn last_index_of(s: Seq<char>, c: char) -> Option<int>
    decreases s.len(),
{
    if s.len() == 0 {
        None
    } else if s.last() == c {
        Some(s.len() - 1)
    } else {
        last_index_of(s.drop_last(), c)
    }
}

proof fn lemma_last_index_of_bounds(s: Seq<char>, c: char)
    ensures
        last_index_of(s, c) matches Some(j) ==> 0 <= j < s.len() && s[j] == c,
    decreases s.len(),
{
    if s.len() > 0 && s.last() != c {
        lemma_last_index_of_bounds(s.drop_last(), c);
    }
}

/// The text split at its last `c` (`str::rsplit_once`).
pub open spec fn rsplit_once(s: Seq<char>, c: char) -> Option<(Seq<char>, Seq<char>)> {
    match last_index_of(s, c) {
        Some(j) => Some((s.take(j), s.skip(j + 1))),
        None => None,
    }
}

fn find_last(s: &Vec<char>, c: char) -> (r: Option<usize>)
    ensures
        match r {
            Some(j) => last_index_of(s@, c) == Some(j as int),
            None => last_index_of(s@, c) is None,
        },
{
    let mut i = s.len();
    proof {
        assert(s@.take(i as int) =~= s@);
    }
    while i > 0
        invariant
            i <= s@.len(),
            last_index_of(s@.take(i as int), c) == last_index_of(s@, c),
        decreases i,
    {
        proof {
            assert(s@.take(i as int).drop_last() =~= s@.take(i - 1));
            assert(s@.take(i as int).last() == s@[i - 1]);
        }
        if s[i - 1] == c {
            return Some(i - 1);
        }
        i = i - 1;
    }
    proof {
        assert(s@.take(0) =~= Seq::<char>::empty());
    }
    None
}

fn sub_chars(s: &Vec<char>, from: usize, to: usize) -> (r: Vec<char>)
    requires
        from <= to <= s@.len(),
    ensures
        r@ == s@.subrange(from as int, to as int),
{
    let mut out: Vec<char> = Vec::new();
    let mut i = from;
    while i < to
        invariant
            from <= i <= to <= s@.len(),
            out@ == s@.subrange(from as int, i as int),
        decreases to - i,
    {
        out.push(s[i]);
        i = i + 1;
        assert(out@ =~= s@.subrange(from as int, i as int));
    }
    out
}

/// The modifier bit that a (lower-case) modifier name stands for.
pub open spec fn modifier_bit(name: Seq<char>) -> u32 {
    if name == "ctrl"@ {
        CONTROL
    } else if name == "meta"@ {
        META
    } else if name == "shift"@ {
        SHIFT
    } else if name == "alt"@ {
        ALT
    } else if name == "altgr"@ {
        ALT
    } else {
        0
    }
}

/// The modifiers named by the pieces.
pub open spec fn modifier_bits(parts: Seq<Seq<char>>) -> u32
    decreases parts.len(),
{
    if parts.len() == 0 {
        0
    } else {
        modifier_bits(parts.drop_last()) | modifier_bit(parts.last())
    }
}

/// How the bit of one modifier name sits among the four modifier bits.
proof fn lemma_name_bit(x: u32)
    by (bit_vector)
    requires
        x == 0 || x == 1 || x == 8 || x == 0x40 || x == 0x200,
    ensures
        (x & 1 != 0) == (x == 1),
        (x & 8 != 0) == (x == 8),
        (x & 0x40 != 0) == (x == 0x40),
        (x & 0x200 != 0) == (x == 0x200),
        x & 0x249 == x,
{
}

/// A flag is in `b | x` exactly when it is in `b` or in `x`, and bits
/// outside the four modifier bits come from neither.
proof fn lemma_or_flags(b: u32, x: u32)
    by (bit_vector)
    ensures
        ((b | x) & 1 != 0) == ((b & 1 != 0) || (x & 1 != 0)),
        ((b | x) & 8 != 0) == ((b & 8 != 0) || (x & 8 != 0)),
        ((b | x) & 0x40 != 0) == ((b & 0x40 != 0) || (x & 0x40 != 0)),
        ((b | x) & 0x200 != 0) == ((b & 0x200 != 0) || (x & 0x200 != 0)),
        (b & 0x249 == b && x & 0x249 == x) ==> (b | x) & 0x249 == b | x,
        0u32 & 0x249 == 0u32,
        0u32 & 1 == 0 && 0u32 & 8 == 0 && 0u32 & 0x40 == 0 && 0u32 & 0x200 == 0,
        0u32 | 0u32 == 0u32,
        ALT | CONTROL | META | SHIFT == 0x249,
{
}

/// Each modifier name sets its own flag and no other: the parsed bits hold
/// Alt exactly when a piece is `alt` or `altgr`, Control exactly when one
/// is `ctrl`, Meta exactly when one is `meta`, Shift exactly when one is
/// `shift`, and nothing besides these four flags. Other pieces are ignored.
pub proof fn lemma_modifier_names_set_their_flags(parts: Seq<Seq<char>>)
    ensures
        (modifier_bits(parts) & ALT != 0) == exists|j: int|
            0 <= j < parts.len() && (#[trigger] parts[j] == "alt"@ || parts[j] == "altgr"@),
        (modifier_bits(parts) & CONTROL != 0) == exists|j: int|
            0 <= j < parts.len() && #[trigger] parts[j] == "ctrl"@,
        (modifier_bits(parts) & META != 0) == exists|j: int|
            0 <= j < parts.len() && #[trigger] parts[j] == "meta"@,
        (modifier_bits(parts) & SHIFT != 0) == exists|j: int|
            0 <= j < parts.len() && #[trigger] parts[j] == "shift"@,
        modifier_bits(parts) & (ALT | CONTROL | META | SHIFT) == modifier_bits(parts),
    decreases parts.len(),
{
    lemma_or_flags(0, 0);
    if parts.len() > 0 {
        reveal_strlit("alt");
        reveal_strlit("altgr");
        reveal_strlit("ctrl");
        reveal_strlit("meta");
        reveal_strlit("shift");
        assert("meta"@[0] != "ctrl"@[0]);
        assert("altgr"@[0] != "shift"@[0]);
        let init = parts.drop_last();
        let x = parts.last();
        lemma_modifier_names_set_their_flags(init);
        let b = modifier_bits(init);
        let xb = modifier_bit(x);
        lemma_name_bit(xb);
        lemma_or_flags(b, xb);
        assert(modifier_bits(parts) == b | xb);
        assert forall|j: int| 0 <= j < init.len() implies #[trigger] init[j] == parts[j] by {}
        assert(parts[parts.len() - 1] == x);
        if xb & 1 != 0 {
            assert(parts[parts.len() - 1] == "alt"@ || parts[parts.len() - 1] == "altgr"@);
        }
        if xb & 8 != 0 {
            assert(parts[parts.len() - 1] == "ctrl"@);
        }
        if xb & 0x40 != 0 {
            assert(parts[parts.len() - 1] == "meta"@);
        }
        if xb & 0x200 != 0 {
            assert(parts[parts.len() - 1] == "shift"@);
        }
        if exists|j: int| 0 <= j < parts.len() && (#[trigger] parts[j] == "alt"@ || parts[j] == "altgr"@) {
            let j = choose|j: int| 0 <= j < parts.len() && (#[trigger] parts[j] == "alt"@ || parts[j] == "altgr"@);
            if j < init.len() {
                assert(init[j] == parts[j]);
            }
        }
        if exists|j: int| 0 <= j < parts.len() && #[trigger] parts[j] == "ctrl"@ {
            let j = choose|j: int| 0 <= j < parts.len() && #[trigger] parts[j] == "ctrl"@;
            if j < init.len() {
                assert(init[j] == parts[j]);
            }
        }
        if exists|j: int| 0 <= j < parts.len() && #[trigger] parts[j] == "meta"@ {
            let j = choose|j: int| 0 <= j < parts.len() && #[trigger] parts[j] == "meta"@;
            if j < init.len() {
                assert(init[j] == parts[j]);
            }
        }
        if exists|j: int| 0 <= j < parts.len() && #[trigger] parts[j] == "shift"@ {
            let j = choose|j: int| 0 <= j < parts.len() && #[trigger] parts[j] == "shift"@;
            if j < init.len() {
                assert(init[j] == parts[j]);
            }
        }
    }
}

/// The modifiers named in a `+`-separated text, in any case (an ASCII text
/// is lowered letter by letter).
pub open spec fn parsed_modifiers(s: Seq<char>) -> u32 {
    if is_ascii_text(s) {
        modifier_bits(split_on(ascii_lowered(s), '+'))
    } else {
        modifier_bits(split_on(lowercase_of(s), '+'))
    }
}

fn modifier_bit_exec(name: &Vec<char>) -> (r: u32)
    ensures
        r == modifier_bit(name@),
{
    if chars_eq(name, "ctrl") {
        CONTROL
    } else if chars_eq(name, "meta") {
        META
    } else if chars_eq(name, "shift") {
        SHIFT
    } else if chars_eq(name, "alt") {
        ALT
    } else if chars_eq(name, "altgr") {
        ALT
    } else {
        0
    }
}

/// Parses the modifier names of a `+`-separated text (case-insensitive);
/// unknown names are ignored.
pub fn parse_modifiers(s: &str) -> (r: Modifiers)
    ensures
        r.bits == parsed_modifiers(s@),
        r.bits == modifier_bits(split_on(lowercase_of(s@), '+')),
        is_ascii_text(s@) ==> r.bits == modifier_bits(split_on(ascii_lowered(s@), '+')),
{
    let lower = lowercase(s);
    lowercase_modifiers(lower.as_str())
}

/// The modifiers named in a `+`-separated text already in lower case;
/// unknown names are ignored.
pub fn lowercase_modifiers(lower: &str) -> (r: Modifiers)
    ensures
        r.bits == modifier_bits(split_on(lower@, '+')),
{
    let chars = chars_of(lower);
    let parts = split_chars(&chars, '+');
    let ghost ps = split_on(lower@, '+');
    let mut bits: u32 = 0;
    let mut k: usize = 0;
    while k < parts.len()
        invariant
            k <= parts@.len(),
            parts@.len() == ps.len(),
            forall|j: int| 0 <= j < parts@.len() ==> #[trigger] parts@[j]@ == ps[j],
            bits == modifier_bits(ps.take(k as int)),
        decreases parts@.len() - k,
    {
        let b = modifier_bit_exec(&parts[k]);
        proof {
            assert(ps.take(k + 1).drop_last() =~= ps.take(k as int));
            assert(ps.take(k + 1).last() == ps[k as int]);
        }
        bits = bits | b;
        k = k + 1;
    }
    proof {
        assert(ps.take(ps.len() as int) =~= ps);
    }
    Modifiers { bits }
}

/// The listed named key a name stands for, if any.
pub open spec fn listed_named_key(s: Seq<char>) -> Option<NamedKey> {
    if s == "Alt"@ {
        Some(NamedKey::Alt)
    } else if s == "AltGraph"@ {
        Some(NamedKey::AltGraph)
    } else if s == "ArrowDown"@ {
        Some(NamedKey::ArrowDown)
    } else if s == "ArrowLeft"@ {
        Some(NamedKey::ArrowLeft)
    } else if s == "ArrowRight"@ {
        Some(NamedKey::ArrowRight)
    } else if s == "ArrowUp"@ {
        Some(NamedKey::ArrowUp)
    } else if s == "Backspace"@ {
        Some(NamedKey::Backspace)
    } else if s == "Control"@ {
        Some(NamedKey::Control)
    } else if s == "Delete"@ {
        Some(NamedKey::Delete)
    } else if s == "End"@ {
        Some(NamedKey::End)
    } else if s == "Enter"@ {
        Some(NamedKey::Enter)
    } else if s == "Escape"@ {
        Some(NamedKey::Escape)
    } else if s == "Home"@ {
        Some(NamedKey::Home)
    } else if s == "Insert"@ {
        Some(NamedKey::Insert)
    } else if s == "Meta"@ {
        Some(NamedKey::Meta)
    } else if s == "PageDown"@ {
        Some(NamedKey::PageDown)
    } else if s == "PageUp"@ {
        Some(NamedKey::PageUp)
    } else if s == "Shift"@ {
        Some(NamedKey::Shift)
    } else if s == "Tab"@ {
        Some(NamedKey::Tab)
    } else {
        None
    }
}

/// The listed named key a name stands for, if any.
pub fn named_key_from_name(s: &Vec<char>) -> (r: Option<NamedKey>)
    ensures
        r == listed_named_key(s@),
{
    if chars_eq(s, "Alt") {
        Some(NamedKey::Alt)
    } else if chars_eq(s, "AltGraph") {
        Some(NamedKey::AltGraph)
    } else if chars_eq(s, "ArrowDown") {
        Some(NamedKey::ArrowDown)
    } else if chars_eq(s, "ArrowLeft") {
        Some(NamedKey::ArrowLeft)
    } else if chars_eq(s, "ArrowRight") {
        Some(NamedKey::ArrowRight)
    } else if chars_eq(s, "ArrowUp") {
        Some(NamedKey::ArrowUp)
    } else if chars_eq(s, "Backspace") {
        Some(NamedKey::Backspace)
    } else if chars_eq(s, "Control") {
        Some(NamedKey::Control)
    } else if chars_eq(s, "Delete") {
        Some(NamedKey::Delete)
    } else if chars_eq(s, "End") {
        Some(NamedKey::End)
    } else if chars_eq(s, "Enter") {
        Some(NamedKey::Enter)
    } else if chars_eq(s, "Escape") {
        Some(NamedKey::Escape)
    } else if chars_eq(s, "Home") {
        Some(NamedKey::Home)
    } else if chars_eq(s, "Insert") {
        Some(NamedKey::Insert)
    } else if chars_eq(s, "Meta") {
        Some(NamedKey::Meta)
    } else if chars_eq(s, "PageDown") {
        Some(NamedKey::PageDown)
    } else if chars_eq(s, "PageUp") {
        Some(NamedKey::PageUp)
    } else if chars_eq(s, "Shift") {
        Some(NamedKey::Shift)
    } else if chars_eq(s, "Tab") {
        Some(NamedKey::Tab)
    } else {
        None
    }
}

/// The key a key name stands for, if any.
pub open spec fn key_of_name(s: Seq<char>) -> Option<KeyView> {
    match key_name_class(s) {
        Some(true) => Some(KeyView::Character(s)),
        Some(false) => Some(
            match listed_named_key(s) {
                Some(n) => KeyView::Named(n),
                None => KeyView::Other(s),
            },
        ),
        None => None,
    }
}

/// One chord: `mods+key`, where everything before the last `+` names
/// modifiers; `None` when the key is not recognized.
pub open spec fn parsed_chord(part: Seq<char>) -> Option<KeyPressView> {
    let (mods, key) = match rsplit_once(part, '+') {
        Some(pair) => pair,
        None => (Seq::<char>::empty(), part),
    };
    match key_of_name(key) {
        Some(k) => Some(
            KeyPressView {
                key: KeyInputView::Keyboard(k, PhysicalKey::Unidentified),
                mods: Modifiers { bits: parsed_modifiers(mods) },
            },
        ),
        None => None,
    }
}

/// The recognized chords of the pieces, in order.
pub open spec fn parsed_chords(parts: Seq<Seq<char>>) -> Seq<KeyPressView>
    decreases parts.len(),
{
    if parts.len() == 0 {
        seq![]
    } else {
        let rest = parsed_chords(parts.drop_last());
        match parsed_chord(parts.last()) {
            Some(k) => rest.push(k),
            None => rest,
        }
    }
}

proof fn lemma_last_index_of_is_last(s: Seq<char>, c: char)
    ensures
        last_index_of(s, c) matches Some(j) ==> 0 <= j < s.len() && s[j] == c && forall|i: int|
            j < i < s.len() ==> s[i] != c,
        last_index_of(s, c) is None ==> forall|i: int| 0 <= i < s.len() ==> s[i] != c,
    decreases s.len(),
{
    if s.len() > 0 && s.last() != c {
        lemma_last_index_of_is_last(s.drop_last(), c);
        assert forall|i: int| 0 <= i < s.len() - 1 implies s.drop_last()[i] == s[i] by {}
    }
}

/// Splitting at the last `c` (as `str::rsplit_once` does) cuts the text
/// into what comes before that `c` and what comes after it, the latter
/// holding no `c`; a text without `c` is not split.
pub proof fn lemma_rsplit_once_splits_at_last(s: Seq<char>, c: char)
    ensures
        rsplit_once(s, c) matches Some((a, b)) ==> s == a + seq![c] + b && !b.contains(c),
        rsplit_once(s, c) is None ==> !s.contains(c),
{
    lemma_last_index_of_is_last(s, c);
    if let Some(j) = last_index_of(s, c) {
        assert(s == s.take(j) + seq![c] + s.skip(j + 1));
        if s.skip(j + 1).contains(c) {
            let i = choose|i: int| 0 <= i < s.skip(j + 1).len() && #[trigger] s.skip(j + 1)[i] == c;
            assert(s[j + 1 + i] == c);
        }
    }
}

/// The piece before the last `+` names modifiers, the rest is the key:
/// for a key text without `+`, the chord written `mods+key` (with ASCII
/// `mods`) has that key and exactly the modifiers named by the lower-cased
/// pieces of `mods`, and the key written alone has no modifiers. A key
/// that is not recognized gives no chord.
pub proof fn lemma_chord_of_modifiers_and_key(m: Seq<char>, k: Seq<char>)
    requires
        !k.contains('+'),
        is_ascii_text(m),
    ensures
        parsed_chord(m + seq!['+'] + k) == match key_of_name(k) {
            Some(kv) => Some(
                KeyPressView {
                    key: KeyInputView::Keyboard(kv, PhysicalKey::Unidentified),
                    mods: Modifiers { bits: modifier_bits(split_on(ascii_lowered(m), '+')) },
                },
            ),
            None => None,
        },
        parsed_chord(k) == match key_of_name(k) {
            Some(kv) => Some(
                KeyPressView {
                    key: KeyInputView::Keyboard(kv, PhysicalKey::Unidentified),
                    mods: Modifiers { bits: 0 },
                },
            ),
            None => None,
        },
{
    let s = m + seq!['+'] + k;
    lemma_last_index_of_is_last(s, '+');
    lemma_last_index_of_is_last(k, '+');
    assert(s[m.len() as int] == '+');
    assert forall|i: int| m.len() < i < s.len() implies s[i] != '+' by {
        assert(s[i] == k[i - m.len() - 1]);
        if k[i - m.len() - 1] == '+' {
            assert(k.contains('+'));
        }
    }
    assert(k.contains('+') == false);
    if last_index_of(k, '+') matches Some(j) {
        assert(k.contains('+'));
    }
    match last_index_of(s, '+') {
        Some(j) => {
            assert(j == m.len());
            assert(s.take(j) =~= m);
            assert(s.skip(j + 1) =~= k);
        },
        None => {
            assert(false);
        },
    }
    let e = Seq::<char>::empty();
    assert(is_ascii_text(e));
    assert(ascii_lowered(e) =~= e);
    assert(split_on(e, '+') == seq![e]);
    assert(seq![e].drop_last() =~= Seq::<Seq<char>>::empty());
    reveal_strlit("ctrl");
    reveal_strlit("meta");
    reveal_strlit("shift");
    reveal_strlit("alt");
    reveal_strlit("altgr");
    assert(e != "ctrl"@ && e != "meta"@ && e != "shift"@ && e != "alt"@ && e != "altgr"@) by {
        assert("ctrl"@.len() == 4 && "meta"@.len() == 4 && "shift"@.len() == 5 && "alt"@.len() == 3
            && "altgr"@.len() == 5);
    }
    assert(modifier_bit(e) == 0);
    lemma_or_flags(0, 0);
    assert(seq![e].last() == e);
    assert(modifier_bits(Seq::<Seq<char>>::empty()) == 0);
    assert(modifier_bits(seq![e]) == modifier_bits(seq![e].drop_last()) | modifier_bit(seq![e].last()));
    assert(modifier_bits(seq![e]) == 0);
}

fn parse_chord(part: &Vec<char>) -> (r: Option<KeyPress>)
    ensures
        match r {
            Some(k) => parsed_chord(part@) == Some(key_press_view(k)),
            None => parsed_chord(part@) is None,
        },
{
    let n = part.len();
    let (mods, key) = match find_last(part, '+') {
        Some(j) => {
            proof {
                lemma_last_index_of_bounds(part@, '+');
                assert(j < n);
            }
            (sub_chars(part, 0, j), sub_chars(part, j + 1, n))
        },
        None => (Vec::new(), sub_chars(part, 0, part.len())),
    };
    proof {
        assert(part@.subrange(0, part@.len() as int) =~= part@);
        lemma_last_index_of_bounds(part@, '+');
        if let Some(j) = last_index_of(part@, '+') {
            assert(part@.take(j) =~= part@.subrange(0, j));
            assert(part@.skip(j + 1) =~= part@.subrange(j + 1, part@.len() as int));
        } else {
            assert(mods@ =~= Seq::<char>::empty());
        }
    }
    let key_text = string_of(&key);
    let class = classify_key_name(key_text.as_str());
    let key = match class {
        Some(true) => Key::Character(key_text),
        Some(false) => match named_key_from_name(&key) {
            Some(n) => Key::Named(n),
            None => Key::Other(key_text),
        },
        None => {
            return None;
        },
    };
    let mods_text = string_of(&mods);
    let mods = parse_modifiers(mods_text.as_str());
    Some(KeyPress { key: KeyInput::Keyboard(key, PhysicalKey::Unidentified), mods })
}

impl KeyPress {
    pub fn new(key: KeyInput, mods: Modifiers) -> (r: Self)
        ensures
            r.key == key,
            r.mods == mods,
    {
        KeyPress { key, mods }
    }

    /// The chord with a character key put in lower case.
    pub fn to_lowercase(&self) -> (r: Self)
        ensures
            r.mods == self.mods,
            key_input_view(r.key) == match self.key {
                KeyInput::Keyboard(Key::Character(c), p) => KeyInputView::Keyboard(
                    KeyView::Character(lowercase_of(c@)),
                    p,
                ),
                _ => key_input_view(self.key),
            },
    {
        let key = match &self.key {
            KeyInput::Keyboard(Key::Character(c), key_code) => KeyInput::Keyboard(
                Key::Character(lowercase(c.as_str())),
                *key_code,
            ),
            KeyInput::Keyboard(k, key_code) => KeyInput::Keyboard(copy_key(k), *key_code),
            KeyInput::Pointer(b) => KeyInput::Pointer(*b),
        };
        KeyPress { key, mods: self.mods }
    }

    /// Whether the chord types a character: a character key with no
    /// modifier but Shift.
    pub fn is_char(&self) -> (r: bool)
        ensures
            r == ((self.mods.bits & !SHIFT) == 0 && self.key matches KeyInput::Keyboard(
                Key::Character(_),
                _,
            )),
    {
        let mut mods = self.mods;
        mods.set(SHIFT, false);
        if mods.is_empty() {
            if let KeyInput::Keyboard(Key::Character(_c), _) = &self.key {
                return true;
            }
        }
        false
    }

    /// Whether the chord's key is itself a modifier key.
    pub fn is_modifiers(&self) -> (r: bool)
        ensures
            r == (self.key matches KeyInput::Keyboard(_, PhysicalKey::Code(c)) && (c
                == KeyCode::MetaLeft || c == KeyCode::MetaRight || c == KeyCode::ShiftLeft || c
                == KeyCode::ShiftRight || c == KeyCode::ControlLeft || c == KeyCode::ControlRight
                || c == KeyCode::AltLeft || c == KeyCode::AltRight)),
    {
        if let KeyInput::Keyboard(_, scancode) = &self.key {
            match scancode {
                PhysicalKey::Code(KeyCode::MetaLeft)
                | PhysicalKey::Code(KeyCode::MetaRight)
                | PhysicalKey::Code(KeyCode::ShiftLeft)
                | PhysicalKey::Code(KeyCode::ShiftRight)
                | PhysicalKey::Code(KeyCode::ControlLeft)
                | PhysicalKey::Code(KeyCode::ControlRight)
                | PhysicalKey::Code(KeyCode::AltLeft)
                | PhysicalKey::Code(KeyCode::AltRight) => true,
                _ => false,
            }
        } else {
            false
        }
    }

    /// Parses space-separated chords; chords whose key is not recognized
    /// are skipped.
    pub fn parse(key: &str) -> (r: Vec<KeyPress>)
        ensures
            r@.len() == parsed_chords(split_on(key@, ' ')).len(),
            forall|k: int|
                0 <= k < r@.len() ==> key_press_view(#[trigger] r@[k]) == parsed_chords(
                    split_on(key@, ' '),
                )[k],
    {
        let chars = chars_of(key);
        let parts = split_chars(&chars, ' ');
        let ghost ps = split_on(key@, ' ');
        let mut out: Vec<KeyPress> = Vec::new();
        let mut i: usize = 0;
        while i < parts.len()
            invariant
                i <= parts@.len(),
                parts@.len() == ps.len(),
                forall|j: int| 0 <= j < parts@.len() ==> #[trigger] parts@[j]@ == ps[j],
                out@.len() == parsed_chords(ps.take(i as int)).len(),
                forall|j: int|
                    0 <= j < out@.len() ==> key_press_view(#[trigger] out@[j]) == parsed_chords(
                        ps.take(i as int),
                    )[j],
            decreases parts@.len() - i,
        {
            proof {
                assert(ps.take(i + 1).drop_last() =~= ps.take(i as int));
                assert(ps.take(i + 1).last() == ps[i as int]);
            }
            match parse_chord(&parts[i]) {
                Some(k) => out.push(k),
                None => {},
            }
            i = i + 1;
        }
        proof {
            assert(ps.take(ps.len() as int) =~= ps);
        }
        out
    }
}

/// The modifier bits of a key event, without the one that the key itself
/// is.
pub open spec fn event_modifiers(key_event: KeyEvent) -> u32 {
    match key_event.key {
        Key::Named(NamedKey::Shift) => key_event.modifiers.bits & !SHIFT,
        Key::Named(NamedKey::Alt) => key_event.modifiers.bits & !ALT,
        Key::Named(NamedKey::Meta) => key_event.modifiers.bits & !META,
        Key::Named(NamedKey::Control) => key_event.modifiers.bits & !CONTROL,
        _ => key_event.modifiers.bits,
    }
}

/// The modifiers of a key event, without the one that the key itself is.
pub fn get_key_modifiers(key_event: &KeyEvent) -> (r: Modifiers)
    ensures
        r.bits == event_modifiers(*key_event),
{
    let mut mods = key_event.modifiers;
    match &key_event.key {
        Key::Named(NamedKey::Shift) => mods.set(SHIFT, false),
        Key::Named(NamedKey::Alt) => mods.set(ALT, false),
        Key::Named(NamedKey::Meta) => mods.set(META, false),
        Key::Named(NamedKey::Control) => mods.set(CONTROL, false),
        _ => {},
    }
    mods
}

/// A copy of a key.
pub(crate) fn copy_key(k: &Key) -> (r: Key)
    ensures
        key_view(r) == key_view(*k),
{
    match k {
        Key::Character(s) => Key::Character(s.clone()),
        Key::Named(n) => Key::Named(*n),
        Key::Other(s) => Key::Other(s.clone()),
    }
}

impl KeyPress {
    /// The chord of a key event: its logical and physical key, with the
    /// modifiers held but the one that the key itself is. Never fails.
    pub fn try_from(ev: &KeyEvent) -> (r: Result<KeyPress, ()>)
        ensures
            r matches Ok(k) && key_input_view(k.key) == KeyInputView::Keyboard(
                key_view(ev.key),
                ev.physical_key,
            ) && k.mods.bits == event_modifiers(*ev),
    {
        Ok(KeyPress {
            key: KeyInput::Keyboard(copy_key(&ev.key), ev.physical_key),
            mods: get_key_modifiers(ev),
        })
    }
}

/// The modifier bits that keep a key press from typing text: all but
/// Shift and AltGraph, and on macOS Alt too.
pub open spec fn typing_blockers(bits: u32, mac: bool) -> u32 {
    let b = bits & !SHIFT & !ALT_GRAPH;
    if mac {
        b & !ALT
    } else {
        b
    }
}

/// The text that a key press types into the editor: the character of a
/// character key, when no modifier but Shift and AltGraph (and, on macOS,
/// Alt) is held.
pub fn typed_text(keypress: &KeyPress, modifiers: Modifiers, mac: bool) -> (r: Option<String>)
    ensures
        match r {
            Some(t) => typing_blockers(modifiers.bits, mac) == 0 && match keypress.key {
                KeyInput::Keyboard(Key::Character(c), _) => t@ == c@,
                _ => false,
            },
            None => typing_blockers(modifiers.bits, mac) != 0 || !(keypress.key matches KeyInput::Keyboard(
                Key::Character(_),
                _,
            )),
        },
{
    let mut mods = modifiers;
    mods.set(SHIFT, false);
    mods.set(ALT_GRAPH, false);
    if mac {
        mods.set(ALT, false);
    }
    if mods.is_empty() {
        if let KeyInput::Keyboard(Key::Character(c), _) = &keypress.key {
            return Some(c.clone());
        }
    }
    None
}

/// The bits a mask leaves and clears.
proof fn lemma_mask_bits(b: u32)
    by (bit_vector)
    ensures
        (b & !0x200u32) & 0x200 == 0,
        (b & !0x01u32) & 0x01 == 0,
        (b & !0x40u32) & 0x40 == 0,
        (b & !0x08u32) & 0x08 == 0,
        (b & !0x200u32) & 0x08 == b & 0x08,
        (b & !0x200u32) & 0x01 == b & 0x01,
        (b & !0x200u32) & 0x40 == b & 0x40,
        (b & !0x08u32) & 0x200 == b & 0x200,
        (b & !0x08u32) & 0x01 == b & 0x01,
        (b & !0x08u32) & 0x40 == b & 0x40,
        (b & !0x01u32) & 0x200 == b & 0x200,
        (b & !0x01u32) & 0x08 == b & 0x08,
        (b & !0x01u32) & 0x40 == b & 0x40,
        (b & !0x40u32) & 0x200 == b & 0x200,
        (b & !0x40u32) & 0x08 == b & 0x08,
        (b & !0x40u32) & 0x01 == b & 0x01,
{
}

/// Pressing a modifier key reports the other modifiers held but not the
/// key itself: the Shift key's event has no Shift bit and keeps Control,
/// Alt and Meta as held, and likewise for the Control, Alt and Meta keys;
/// any other key reports the modifiers as held.
pub proof fn lemma_event_modifiers_drop_the_key_itself(ev: KeyEvent)
    ensures
        ({
            let b = ev.modifiers.bits;
            let m = event_modifiers(ev);
            &&& ev.key == Key::Named(NamedKey::Shift) ==> m & SHIFT == 0 && m & CONTROL == b & CONTROL && m
                & ALT == b & ALT && m & META == b & META
            &&& ev.key == Key::Named(NamedKey::Control) ==> m & CONTROL == 0 && m & SHIFT == b & SHIFT && m
                & ALT == b & ALT && m & META == b & META
            &&& ev.key == Key::Named(NamedKey::Alt) ==> m & ALT == 0 && m & SHIFT == b & SHIFT && m & CONTROL
                == b & CONTROL && m & META == b & META
            &&& ev.key == Key::Named(NamedKey::Meta) ==> m & META == 0 && m & SHIFT == b & SHIFT && m & CONTROL
                == b & CONTROL && m & ALT == b & ALT
            &&& ev.key is Character ==> m == b
        }),
{
    lemma_mask_bits(ev.modifiers.bits);
}

/// Which held modifiers keep a key from typing: none, Shift or AltGraph
/// alone let it type; Control or Meta always stop it; Alt stops it except
/// on macOS, where Alt picks other characters.
pub proof fn lemma_typing_blockers(bits: u32, mac: bool)
    ensures
        typing_blockers(0, mac) == 0,
        typing_blockers(SHIFT, mac) == 0,
        typing_blockers(ALT_GRAPH, mac) == 0,
        typing_blockers(SHIFT | ALT_GRAPH, mac) == 0,
        bits & CONTROL != 0 ==> typing_blockers(bits, mac) != 0,
        bits & META != 0 ==> typing_blockers(bits, mac) != 0,
        typing_blockers(ALT, mac) == 0 <==> mac,
        typing_blockers(ALT | SHIFT, mac) == 0 <==> mac,
{
    assert(bits & 0x08 != 0 ==> (bits & !0x200u32 & !0x02u32) != 0 && (bits & !0x200u32 & !0x02u32 & !0x01u32)
        != 0) by (bit_vector);
    assert(bits & 0x40 != 0 ==> (bits & !0x200u32 & !0x02u32) != 0 && (bits & !0x200u32 & !0x02u32 & !0x01u32)
        != 0) by (bit_vector);
    assert(0u32 & !0x200u32 & !0x02u32 == 0 && 0x200u32 & !0x200u32 & !0x02u32 == 0 && 0x02u32 & !0x200u32
        & !0x02u32 == 0 && (0x200u32 | 0x02u32) & !0x200u32 & !0x02u32 == 0 && (0u32 & !0x01u32) == 0)
        by (bit_vector);
    assert(0x01u32 & !0x200u32 & !0x02u32 == 0x01 && (0x01u32 & !0x200u32 & !0x02u32) & !0x01u32 == 0
        && (0x01u32 | 0x200u32) & !0x200u32 & !0x02u32 == 0x01) by (bit_vector);
}

} // verus!
