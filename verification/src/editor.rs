//! Plain data of the code editor: colors, IME preedit, clipboard marker,
//! command-handling document wrapper and the cursor's blink state.
use crate::keyboard::Modifiers;
use crate::keymap::Command;
use vstd::prelude::*;

verus! {

/// The colors an editor theme provides.
#[derive(Clone, Copy, Debug, PartialEq, Eq, Hash, Structural)]
pub enum EditorColor {
    Background,
    Scrollbar,
    DropdownShadow,
    Foreground,
    Dim,
    Focus,
    Caret,
    Selection,
    CurrentLine,
    Link,
    VisibleWhitespace,
    IndentGuide,
    StickyHeaderBackground,
    PreeditUnderline,
}

/// An 8-bit-per-channel RGBA color.
#[derive(Clone, Copy, Debug, PartialEq, Eq, Hash, Structural)]
pub struct Rgba8 {
    pub r: u8,
    pub g: u8,
    pub b: u8,
    pub a: u8,
}

pub open spec fn rgb(r: u8, g: u8, b: u8) -> Rgba8 {
    Rgba8 { r, g, b, a: 0xFF }
}

fn rgb8(r: u8, g: u8, b: u8) -> (c: Rgba8)
    ensures
        c == rgb(r, g, b),
{
    Rgba8 { r, g, b, a: 0xFF }
}

fn rgba8(r: u8, g: u8, b: u8, a: u8) -> (c: Rgba8)
    ensures
        c == (Rgba8 { r, g, b, a }),
{
    Rgba8 { r, g, b, a }
}

/// The light theme's colors.
pub open spec fn light_color(color: EditorColor) -> Rgba8 {
    let fg = rgb(0x38, 0x3A, 0x42);
    let bg = rgb(0xFA, 0xFA, 0xFA);
    let blue = rgb(0x40, 0x78, 0xF2);
    let grey = rgb(0xE5, 0xE5, 0xE6);
    match color {
        EditorColor::Background => bg,
        EditorColor::Scrollbar => Rgba8 { r: 0xB4, g: 0xB4, b: 0xB4, a: 0xBB },
        EditorColor::DropdownShadow => rgb(0xB4, 0xB4, 0xB4),
        EditorColor::Foreground => fg,
        EditorColor::Dim => rgb(0xA0, 0xA1, 0xA7),
        EditorColor::Focus => rgb(0, 0, 0),
        EditorColor::Caret => rgb(0x52, 0x6F, 0xFF),
        EditorColor::Selection => grey,
        EditorColor::CurrentLine => rgb(0xF2, 0xF2, 0xF2),
        EditorColor::Link => blue,
        EditorColor::VisibleWhitespace => grey,
        EditorColor::IndentGuide => grey,
        EditorColor::StickyHeaderBackground => bg,
        EditorColor::PreeditUnderline => fg,
    }
}

/// The dark theme's colors.
pub open spec fn dark_color(color: EditorColor) -> Rgba8 {
    let fg = rgb(0xAB, 0xB2, 0xBF);
    let bg = rgb(0x28, 0x2C, 0x34);
    let blue = rgb(0x61, 0xAF, 0xEF);
    let grey = rgb(0x3E, 0x44, 0x51);
    match color {
        EditorColor::Background => bg,
        EditorColor::Scrollbar => Rgba8 { r: 0x3E, g: 0x44, b: 0x51, a: 0xBB },
        EditorColor::DropdownShadow => rgb(0, 0, 0),
        EditorColor::Foreground => fg,
        EditorColor::Dim => rgb(0x5C, 0x63, 0x70),
        EditorColor::Focus => rgb(0xCC, 0xCC, 0xCC),
        EditorColor::Caret => rgb(0x52, 0x8B, 0xFF),
        EditorColor::Selection => grey,
        EditorColor::CurrentLine => rgb(0x2C, 0x31, 0x3c),
        EditorColor::Link => blue,
        EditorColor::VisibleWhitespace => grey,
        EditorColor::IndentGuide => grey,
        EditorColor::StickyHeaderBackground => bg,
        EditorColor::PreeditUnderline => fg,
    }
}

/// The light theme's color for `color`.
pub fn default_light_color(color: EditorColor) -> (c: Rgba8)
    ensures
        c == light_color(color),
{
    let fg = rgb8(0x38, 0x3A, 0x42);
    let bg = rgb8(0xFA, 0xFA, 0xFA);
    let blue = rgb8(0x40, 0x78, 0xF2);
    let grey = rgb8(0xE5, 0xE5, 0xE6);
    match color {
        EditorColor::Background => bg,
        EditorColor::Scrollbar => rgba8(0xB4, 0xB4, 0xB4, 0xBB),
        EditorColor::DropdownShadow => rgb8(0xB4, 0xB4, 0xB4),
        EditorColor::Foreground => fg,
        EditorColor::Dim => rgb8(0xA0, 0xA1, 0xA7),
        EditorColor::Focus => rgb8(0, 0, 0),
        EditorColor::Caret => rgb8(0x52, 0x6F, 0xFF),
        EditorColor::Selection => grey,
        EditorColor::CurrentLine => rgb8(0xF2, 0xF2, 0xF2),
        EditorColor::Link => blue,
        EditorColor::VisibleWhitespace => grey,
        EditorColor::IndentGuide => grey,
        EditorColor::StickyHeaderBackground => bg,
        EditorColor::PreeditUnderline => fg,
    }
}

/// The dark theme's color for `color`.
pub fn default_dark_color(color: EditorColor) -> (c: Rgba8)
    ensures
        c == dark_color(color),
{
    let fg = rgb8(0xAB, 0xB2, 0xBF);
    let bg = rgb8(0x28, 0x2C, 0x34);
    let blue = rgb8(0x61, 0xAF, 0xEF);
    let grey = rgb8(0x3E, 0x44, 0x51);
    match color {
        EditorColor::Background => bg,
        EditorColor::Scrollbar => rgba8(0x3E, 0x44, 0x51, 0xBB),
        EditorColor::DropdownShadow => rgb8(0, 0, 0),
        EditorColor::Foreground => fg,
        EditorColor::Dim => rgb8(0x5C, 0x63, 0x70),
        EditorColor::Focus => rgb8(0xCC, 0xCC, 0xCC),
        EditorColor::Caret => rgb8(0x52, 0x8B, 0xFF),
        EditorColor::Selection => grey,
        EditorColor::CurrentLine => rgb8(0x2C, 0x31, 0x3c),
        EditorColor::Link => blue,
        EditorColor::VisibleWhitespace => grey,
        EditorColor::IndentGuide => grey,
        EditorColor::StickyHeaderBackground => bg,
        EditorColor::PreeditUnderline => fg,
    }
}

/// The editor's resolved style, as far as its colors are plain values:
/// the text color, if a style sets one.
#[derive(Clone, Copy, Debug)]
pub struct EditorStyle {
    pub text_color: Option<Rgba8>,
}

impl EditorStyle {
    /// The color of the editor's text: the one set, else black.
    pub fn ed_text_color(&self) -> (r: Rgba8)
        ensures
            r == match self.text_color {
                Some(c) => c,
                None => rgb(0, 0, 0),
            },
    {
        match self.text_color {
            Some(c) => c,
            None => Rgba8 { r: 0, g: 0, b: 0, a: 0xFF },
        }
    }
}

/// The system clipboard as the editor's register sees it.
#[derive(Clone, Copy, Debug)]
pub struct SystemClipboard;

impl SystemClipboard {
    pub fn new() -> (r: Self) {
        SystemClipboard
    }
}

impl Default for SystemClipboard {
    fn default() -> (r: Self) {
        SystemClipboard::new()
    }
}

/// Text being composed by an input method: the text, the selected range
/// within it, and the byte offset in the document where it is shown.
#[derive(Clone, Debug)]
pub struct Preedit {
    pub text: String,
    pub cursor: Option<(usize, usize)>,
    pub offset: usize,
}

/// The IME preedit state that a document owns.
#[derive(Clone, Debug)]
pub struct PreeditData {
    pub preedit: Option<Preedit>,
}

impl PreeditData {
    pub fn new() -> (r: PreeditData)
        ensures
            r.preedit is None,
    {
        PreeditData { preedit: None }
    }
}

/// Which whitespace characters an editor draws.
#[derive(Debug, Default, Clone, Copy, PartialEq, Eq, Structural)]
pub enum RenderWhitespace {
    /// No whitespace is drawn.
    #[default]
    Off,
    All,
    Boundary,
    Trailing,
}

/// What an editor reads of and does to its document, on plain values. The
/// text's revision stands for the revision signal the editor watches. Each
/// spec function names the document's own answer: an implementation states
/// it, and where it does not, Verus knows nothing of it.
pub trait Document: Sized {
    /// The document's text.
    closed spec fn text_of(&self) -> Seq<char> {
        arbitrary()
    }

    /// The revision of the cached layout of the text.
    closed spec fn cache_rev_of(&self) -> u64 {
        arbitrary()
    }

    /// Where the bracket `ch` that `offset` lies inside is left unmatched,
    /// looking back when `previous`.
    closed spec fn unmatched_of(&self, offset: usize, previous: bool, ch: char) -> usize {
        arbitrary()
    }

    /// The offset of the bracket matching the one at `offset`.
    closed spec fn matching_pair_of(&self, offset: usize) -> usize {
        arbitrary()
    }

    /// The document after the text `c` was typed into it.
    closed spec fn after_char(&self, c: Seq<char>) -> Self {
        arbitrary()
    }

    fn text(&self) -> (r: String)
        ensures
            r@ == self.text_of(),
    ;

    fn cache_rev(&self) -> (r: u64)
        ensures
            r == self.cache_rev_of(),
    ;

    fn find_unmatched(&self, offset: usize, previous: bool, ch: char) -> (r: usize)
        ensures
            r == self.unmatched_of(offset, previous, ch),
    ;

    fn find_matching_pair(&self, offset: usize) -> (r: usize)
        ensures
            r == self.matching_pair_of(offset),
    ;

    fn receive_char(&mut self, c: &str)
        ensures
            *final(self) == old(self).after_char(c@),
    ;
}

/// A document wrapper whose `handler` gets every command first.
pub struct ExtCmdDocument<D, F> {
    pub doc: D,
    /// Called for every command; when it reports the command executed, the
    /// wrapped document's own handling is skipped.
    pub handler: F,
}

impl<D, F> ExtCmdDocument<D, F> {
    pub fn new(doc: D, handler: F) -> (r: ExtCmdDocument<D, F>)
        ensures
            r.doc == doc,
            r.handler == handler,
    {
        ExtCmdDocument { doc, handler }
    }
}

/// The wrapper hands every document request on to the wrapped document
/// unchanged; only commands go to the handler first.
impl<D: Document, F> Document for ExtCmdDocument<D, F> {
    open spec fn text_of(&self) -> Seq<char> {
        self.doc.text_of()
    }

    open spec fn cache_rev_of(&self) -> u64 {
        self.doc.cache_rev_of()
    }

    open spec fn unmatched_of(&self, offset: usize, previous: bool, ch: char) -> usize {
        self.doc.unmatched_of(offset, previous, ch)
    }

    open spec fn matching_pair_of(&self, offset: usize) -> usize {
        self.doc.matching_pair_of(offset)
    }

    open spec fn after_char(&self, c: Seq<char>) -> Self {
        ExtCmdDocument { doc: self.doc.after_char(c), handler: self.handler }
    }

    fn text(&self) -> (r: String) {
        self.doc.text()
    }

    fn cache_rev(&self) -> (r: u64) {
        self.doc.cache_rev()
    }

    fn find_unmatched(&self, offset: usize, previous: bool, ch: char) -> (r: usize) {
        self.doc.find_unmatched(offset, previous, ch)
    }

    fn find_matching_pair(&self, offset: usize) -> (r: usize) {
        self.doc.find_matching_pair(offset)
    }

    fn receive_char(&mut self, c: &str) {
        self.doc.receive_char(c)
    }
}

/// A wrapper built from `doc` and `handler` answers every document request
/// as `doc` does, and typing into it types into `doc` and keeps the handler.
pub proof fn lemma_ext_cmd_document_forwards<D: Document, F>(
    doc: D,
    handler: F,
    offset: usize,
    previous: bool,
    ch: char,
    c: Seq<char>,
)
    ensures
        ({
            let e = ExtCmdDocument { doc, handler };
            &&& e.text_of() == doc.text_of()
            &&& e.cache_rev_of() == doc.cache_rev_of()
            &&& e.unmatched_of(offset, previous, ch) == doc.unmatched_of(offset, previous, ch)
            &&& e.matching_pair_of(offset) == doc.matching_pair_of(offset)
            &&& e.after_char(c).doc == doc.after_char(c)
            &&& e.after_char(c).handler == handler
        }),
{
}

/// Whether a command was carried out.
#[derive(Clone, Copy, Debug, PartialEq, Eq, Structural)]
pub enum CommandExecuted {
    Yes,
    No,
}

impl<D, F: Fn(Command, Option<usize>, Modifiers) -> CommandExecuted> ExtCmdDocument<D, F> {
    /// Runs a command: the handler first, then, unless the handler carried
    /// it out, the wrapped document's own handling (`run_own`, given the
    /// wrapped document).
    pub fn run_command<G: FnOnce(&D) -> CommandExecuted>(
        &self,
        cmd: Command,
        count: Option<usize>,
        modifiers: Modifiers,
        run_own: G,
    ) -> (r: CommandExecuted)
        requires
            self.handler.requires((cmd, count, modifiers)),
            run_own.requires((&self.doc,)),
        ensures
            exists|h: CommandExecuted|
                #[trigger] self.handler.ensures((cmd, count, modifiers), h) && if h
                    == CommandExecuted::Yes {
                    r == CommandExecuted::Yes
                } else {
                    run_own.ensures((&self.doc,), r)
                },
    {
        let h = (self.handler)(cmd, count, modifiers);
        if h == CommandExecuted::Yes {
            return CommandExecuted::Yes;
        }
        run_own(&self.doc)
    }
}

/// The kind of a diff section shown beside the text.
#[derive(Clone, Copy, Debug, PartialEq, Eq, Structural)]
pub enum DiffSectionKind {
    NoCode,
    Added,
    Removed,
}

/// A diff section: its vertical slot index, its height in lines and its
/// kind.
#[derive(Clone, Copy, Debug, PartialEq, Eq, Structural)]
pub struct DiffSection {
    pub y_idx: usize,
    pub height: usize,
    pub kind: DiffSectionKind,
}

/// A timer handle; `INVALID` is no timer.
#[derive(Clone, Copy, Debug, PartialEq, Eq, Hash, Structural)]
pub struct TimerToken {
    pub id: u64,
}

impl TimerToken {
    pub fn invalid() -> (r: TimerToken)
        ensures
            r.id == 0,
    {
        TimerToken { id: 0 }
    }
}

/// Cursor rendering information: whether the caret is currently hidden, the
/// timer that drives its blinking, and the blink settings.
#[derive(Clone, Copy, Debug)]
pub struct CursorInfo {
    pub hidden: bool,
    pub blink_timer: TimerToken,
    pub should_blink: bool,
    /// Milliseconds between blinks; 0 turns blinking off.
    pub blink_interval: u64,
}

impl CursorInfo {
    /// A visible caret that blinks every 500 ms, with no timer running.
    pub fn new() -> (r: CursorInfo)
        ensures
            !r.hidden,
            r.blink_timer.id == 0,
            r.should_blink,
            r.blink_interval == 500,
    {
        CursorInfo {
            hidden: false,
            blink_timer: TimerToken::invalid(),
            should_blink: true,
            blink_interval: 500,
        }
    }

    /// The delay, if any, after which the host is to fire the blink timer;
    /// it then hands the timer's token to `set_blink_timer`.
    pub fn blink(&self) -> (r: Option<u64>)
        ensures
            r == if self.blink_interval > 0 && self.should_blink {
                Some(self.blink_interval)
            } else {
                None
            },
    {
        if self.blink_interval > 0 && self.should_blink {
            Some(self.blink_interval)
        } else {
            None
        }
    }

    /// Records the timer that the host started for the next blink.
    pub fn set_blink_timer(&mut self, token: TimerToken)
        ensures
            *final(self) == (CursorInfo { blink_timer: token, ..*old(self) }),
    {
        self.blink_timer = token;
    }

    /// A blink timer fired: if it is the current one, the caret flips and
    /// the next blink is asked for; a stale timer changes nothing.
    pub fn on_blink_timer(&mut self, token: TimerToken) -> (r: Option<u64>)
        ensures
            token == old(self).blink_timer ==> {
                &&& final(self).hidden == !old(self).hidden
                &&& final(self).blink_timer == old(self).blink_timer
                &&& final(self).should_blink == old(self).should_blink
                &&& final(self).blink_interval == old(self).blink_interval
                &&& r == if old(self).blink_interval > 0 && old(self).should_blink {
                    Some(old(self).blink_interval)
                } else {
                    None
                }
            },
            token != old(self).blink_timer ==> *final(self) == *old(self) && r is None,
    {
        if self.blink_timer == token {
            self.hidden = !self.hidden;
            self.blink()
        } else {
            None
        }
    }

    /// Shows the caret, drops the running timer and asks for a new blink.
    pub fn reset(&mut self) -> (r: Option<u64>)
        ensures
            !final(self).hidden,
            final(self).blink_timer.id == 0,
            final(self).should_blink == old(self).should_blink,
            final(self).blink_interval == old(self).blink_interval,
            r == if old(self).blink_interval > 0 && old(self).should_blink {
                Some(old(self).blink_interval)
            } else {
                None
            },
    {
        if self.hidden {
            self.hidden = false;
        }
        self.blink_timer = TimerToken::invalid();
        self.blink()
    }
}

} // verus!
