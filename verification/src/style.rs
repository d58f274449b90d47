//! Styles as maps from (class, property) to value, and the custom-style
//! builders of the built-in views that set non-numeric properties.
use crate::assoc::{assoc_map, keys_distinct, lemma_assoc_at, lemma_assoc_dom, lemma_assoc_push, lemma_assoc_update};
use crate::editor::RenderWhitespace;
use vstd::prelude::*;

verus! {

/// The style classes that the builders address.
#[derive(Clone, Copy, Debug, PartialEq, Eq, Hash, Structural)]
pub enum StyleClass {
    /// The editor's gutter.
    Gutter,
    /// The editor's text view.
    EditorView,
    /// A scroll bar's handle.
    ScrollHandle,
    /// A scroll bar's track.
    ScrollTrack,
}

/// The properties that the builders set.
#[derive(Clone, Copy, Debug, PartialEq, Eq, Hash, Structural)]
pub enum StyleProp {
    Display,
    ScrollBeyondLastLine,
    RenderWhitespace,
    CursorSurroundingLines,
    ShowIndentGuide,
    Modal,
    ModalRelativeLine,
    SmartTab,
    Rounded,
    HideBars,
    PropagatePointerWheel,
    VerticalScrollAsHorizontal,
    ShowBarsWhenIdle,
    EdgeAlign,
    Selectable,
    HandleCursorStyle,
    IndentStyle,
}

/// The mouse cursor shown over an element.
#[derive(Clone, Copy, Debug, PartialEq, Eq, Hash, Structural)]
pub enum CursorStyle {
    Default,
    Pointer,
    Text,
    ColResize,
    RowResize,
}

/// How a line is indented.
#[derive(Clone, Copy, Debug, PartialEq, Eq, Hash, Structural)]
pub enum IndentStyle {
    /// Tab characters.
    Tabs,
    /// This many spaces.
    Spaces(u8),
}

/// A property's value.
#[derive(Clone, Copy, Debug, PartialEq, Eq, Structural)]
pub enum StyleValue {
    Bool(bool),
    Count(usize),
    Whitespace(RenderWhitespace),
    Cursor(Option<CursorStyle>),
    Indent(IndentStyle),
    /// The element is not displayed.
    DisplayNone,
}

/// A set of property values, each at most once per class.
#[derive(Debug)]
pub struct Style {
    entries: Vec<((Option<StyleClass>, StyleProp), StyleValue)>,
}

fn same_class(a: Option<StyleClass>, b: Option<StyleClass>) -> (r: bool)
    ensures
        r == (a == b),
{
    match (a, b) {
        (Some(x), Some(y)) => x == y,
        (None, None) => true,
        _ => false,
    }
}

impl View for Style {
    type V = Map<(Option<StyleClass>, StyleProp), StyleValue>;

    closed spec fn view(&self) -> Map<(Option<StyleClass>, StyleProp), StyleValue> {
        assoc_map(self.entries@)
    }
}

impl Style {
    #[verifier::type_invariant]
    closed spec fn keys_unique(self) -> bool {
        keys_distinct(self.entries@)
    }

    /// A style that sets nothing.
    pub fn new() -> (r: Style)
        ensures
            r@ == Map::<(Option<StyleClass>, StyleProp), StyleValue>::empty(),
    {
        Style { entries: Vec::new() }
    }

    /// The value set for `prop` (in `class`, or directly when `class` is
    /// `None`).
    pub fn get(&self, class: Option<StyleClass>, prop: StyleProp) -> (r: Option<StyleValue>)
        ensures
            match r {
                Some(v) => self@.dom().contains((class, prop)) && self@[(class, prop)] == v,
                None => !self@.dom().contains((class, prop)),
            },
    {
        proof {
            use_type_invariant(self);
            lemma_assoc_dom(self.entries@, (class, prop));
        }
        let mut i: usize = 0;
        while i < self.entries.len()
            invariant
                i <= self.entries@.len(),
                keys_distinct(self.entries@),
                forall|j: int| 0 <= j < i ==> (#[trigger] self.entries@[j]).0 != (class, prop),
            decreases self.entries@.len() - i,
        {
            let ((c, p), v) = self.entries[i];
            if same_class(c, class) && p == prop {
                proof {
                    lemma_assoc_at(self.entries@, i as int);
                }
                return Some(v);
            }
            i = i + 1;
        }
        None
    }

    /// The style with `prop` set to `value` (in `class`, or directly when
    /// `class` is `None`); a value set before for the same key is replaced.
    pub fn set(self, class: Option<StyleClass>, prop: StyleProp, value: StyleValue) -> (r: Style)
        ensures
            r@ == self@.insert((class, prop), value),
    {
        proof {
            use_type_invariant(&self);
        }
        let mut entries = self.entries;
        let e = ((class, prop), value);
        let mut i: usize = 0;
        while i < entries.len()
            invariant
                i <= entries@.len(),
                keys_distinct(entries@),
                assoc_map(entries@) == self@,
                e == ((class, prop), value),
                forall|j: int| 0 <= j < i ==> (#[trigger] entries@[j]).0 != (class, prop),
            decreases entries@.len() - i,
        {
            let ((c, p), _) = entries[i];
            if same_class(c, class) && p == prop {
                proof {
                    lemma_assoc_update(entries@, i as int, e);
                }
                entries.set(i, e);
                return Style { entries };
            }
            i = i + 1;
        }
        proof {
            lemma_assoc_push(entries@, e);
        }
        entries.push(e);
        Style { entries }
    }
}

/// The value a property has where no style sets it, for the properties
/// whose default the views declare (scroll handles are rounded by default
/// on macOS only).
pub open spec fn prop_default(prop: StyleProp, mac: bool) -> Option<StyleValue> {
    match prop {
        StyleProp::ScrollBeyondLastLine => Some(StyleValue::Bool(false)),
        StyleProp::RenderWhitespace => Some(StyleValue::Whitespace(RenderWhitespace::Off)),
        StyleProp::CursorSurroundingLines => Some(StyleValue::Count(1)),
        StyleProp::ShowIndentGuide => Some(StyleValue::Bool(false)),
        StyleProp::Modal => Some(StyleValue::Bool(false)),
        StyleProp::ModalRelativeLine => Some(StyleValue::Bool(false)),
        StyleProp::SmartTab => Some(StyleValue::Bool(false)),
        StyleProp::Rounded => Some(StyleValue::Bool(mac)),
        StyleProp::HideBars => Some(StyleValue::Bool(false)),
        StyleProp::PropagatePointerWheel => Some(StyleValue::Bool(true)),
        StyleProp::VerticalScrollAsHorizontal => Some(StyleValue::Bool(false)),
        StyleProp::ShowBarsWhenIdle => Some(StyleValue::Bool(true)),
        StyleProp::EdgeAlign => Some(StyleValue::Bool(false)),
        StyleProp::HandleCursorStyle => Some(StyleValue::Cursor(None)),
        StyleProp::IndentStyle => Some(StyleValue::Indent(IndentStyle::Spaces(4))),
        _ => None,
    }
}

/// The value a property has in a style: the one set for the key, else
/// its default.
pub open spec fn resolved_value(
    m: Map<(Option<StyleClass>, StyleProp), StyleValue>,
    class: Option<StyleClass>,
    prop: StyleProp,
    mac: bool,
) -> Option<StyleValue> {
    if m.dom().contains((class, prop)) {
        Some(m[(class, prop)])
    } else {
        prop_default(prop, mac)
    }
}

/// Where no style sets the lines kept around the cursor, there is one.
pub proof fn lemma_cursor_surrounding_lines_default(
    m: Map<(Option<StyleClass>, StyleProp), StyleValue>,
    class: Option<StyleClass>,
    mac: bool,
)
    requires
        !m.dom().contains((class, StyleProp::CursorSurroundingLines)),
    ensures
        resolved_value(m, class, StyleProp::CursorSurroundingLines, mac) == Some(
            StyleValue::Count(1),
        ),
{
}

impl StyleProp {
    /// The value the property has where no style sets it, if the views
    /// declare one.
    pub fn default_value(self, mac: bool) -> (r: Option<StyleValue>)
        ensures
            r == prop_default(self, mac),
    {
        match self {
            StyleProp::ScrollBeyondLastLine => Some(StyleValue::Bool(false)),
            StyleProp::RenderWhitespace => Some(StyleValue::Whitespace(RenderWhitespace::Off)),
            StyleProp::CursorSurroundingLines => Some(StyleValue::Count(1)),
            StyleProp::ShowIndentGuide => Some(StyleValue::Bool(false)),
            StyleProp::Modal => Some(StyleValue::Bool(false)),
            StyleProp::ModalRelativeLine => Some(StyleValue::Bool(false)),
            StyleProp::SmartTab => Some(StyleValue::Bool(false)),
            StyleProp::Rounded => Some(StyleValue::Bool(mac)),
            StyleProp::HideBars => Some(StyleValue::Bool(false)),
            StyleProp::PropagatePointerWheel => Some(StyleValue::Bool(true)),
            StyleProp::VerticalScrollAsHorizontal => Some(StyleValue::Bool(false)),
            StyleProp::ShowBarsWhenIdle => Some(StyleValue::Bool(true)),
            StyleProp::EdgeAlign => Some(StyleValue::Bool(false)),
            StyleProp::HandleCursorStyle => Some(StyleValue::Cursor(None)),
            StyleProp::IndentStyle => Some(StyleValue::Indent(IndentStyle::Spaces(4))),
            _ => None,
        }
    }
}

impl Style {
    /// The value of `prop` for `class`: the one set, else the property's
    /// default (on macOS when `mac`).
    pub fn resolved(&self, class: Option<StyleClass>, prop: StyleProp, mac: bool) -> (r: Option<StyleValue>)
        ensures
            r == resolved_value(self@, class, prop, mac),
    {
        match self.get(class, prop) {
            Some(v) => Some(v),
            None => prop.default_value(mac),
        }
    }
}

/// Setting a property twice keeps only the later value, and setting two
/// different properties gives the same style in either order.
pub proof fn lemma_style_set_laws(
    m: Map<(Option<StyleClass>, StyleProp), StyleValue>,
    k1: (Option<StyleClass>, StyleProp),
    v1: StyleValue,
    k2: (Option<StyleClass>, StyleProp),
    v2: StyleValue,
)
    ensures
        k1 == k2 ==> m.insert(k1, v1).insert(k2, v2) == m.insert(k2, v2),
        k1 != k2 ==> m.insert(k1, v1).insert(k2, v2) == m.insert(k2, v2).insert(k1, v1),
{
    assert(k1 == k2 ==> m.insert(k1, v1).insert(k2, v2) =~= m.insert(k2, v2));
    assert(k1 != k2 ==> m.insert(k1, v1).insert(k2, v2) =~= m.insert(k2, v2).insert(k1, v1));
}

/// The custom style elements that are specific to an editor.
pub struct EditorCustomStyle(pub Style);

impl EditorCustomStyle {
    /// Sets whether the gutter should be hidden.
    pub fn hide_gutter(self, hide: bool) -> (r: Self)
        ensures
            hide ==> r.0@ == self.0@.insert(
                (Some(StyleClass::Gutter), StyleProp::Display),
                StyleValue::DisplayNone,
            ),
            !hide ==> r.0@ == self.0@,
    {
        if hide {
            EditorCustomStyle(
                self.0.set(Some(StyleClass::Gutter), StyleProp::Display, StyleValue::DisplayNone),
            )
        } else {
            self
        }
    }

    /// Sets how the editor indents lines.
    pub fn indent_style(self, indent_style: IndentStyle) -> (r: Self)
        ensures
            r.0@ == self.0@.insert(
                (Some(StyleClass::EditorView), StyleProp::IndentStyle),
                StyleValue::Indent(indent_style),
            ),
    {
        EditorCustomStyle(
            self.0.set(
                Some(StyleClass::EditorView),
                StyleProp::IndentStyle,
                StyleValue::Indent(indent_style),
            ),
        )
    }

    /// Allow scrolling beyond the last line of the document.
    pub fn scroll_beyond_last_line(self, scroll_beyond: bool) -> (r: Self)
        ensures
            r.0@ == self.0@.insert(
                (Some(StyleClass::EditorView), StyleProp::ScrollBeyondLastLine),
                StyleValue::Bool(scroll_beyond),
            ),
    {
        EditorCustomStyle(
            self.0.set(
                Some(StyleClass::EditorView),
                StyleProp::ScrollBeyondLastLine,
                StyleValue::Bool(scroll_beyond),
            ),
        )
    }

    /// Sets which white space characters should be rendered.
    pub fn render_white_space(self, render_white_space: RenderWhitespace) -> (r: Self)
        ensures
            r.0@ == self.0@.insert(
                (Some(StyleClass::EditorView), StyleProp::RenderWhitespace),
                StyleValue::Whitespace(render_white_space),
            ),
    {
        EditorCustomStyle(
            self.0.set(
                Some(StyleClass::EditorView),
                StyleProp::RenderWhitespace,
                StyleValue::Whitespace(render_white_space),
            ),
        )
    }

    /// Set the number of lines to keep visible above and below the cursor
    /// (1 where it is not set).
    pub fn cursor_surrounding_lines(self, lines: usize) -> (r: Self)
        ensures
            forall|mac: bool|
                resolved_value(
                    r.0@,
                    Some(StyleClass::EditorView),
                    StyleProp::CursorSurroundingLines,
                    mac,
                ) == Some(StyleValue::Count(lines)),
            r.0@ == self.0@.insert(
                (Some(StyleClass::EditorView), StyleProp::CursorSurroundingLines),
                StyleValue::Count(lines),
            ),
    {
        EditorCustomStyle(
            self.0.set(
                Some(StyleClass::EditorView),
                StyleProp::CursorSurroundingLines,
                StyleValue::Count(lines),
            ),
        )
    }

    /// Sets whether the indent guides should be displayed.
    pub fn indent_guide(self, show: bool) -> (r: Self)
        ensures
            r.0@ == self.0@.insert(
                (Some(StyleClass::EditorView), StyleProp::ShowIndentGuide),
                StyleValue::Bool(show),
            ),
    {
        EditorCustomStyle(
            self.0.set(
                Some(StyleClass::EditorView),
                StyleProp::ShowIndentGuide,
                StyleValue::Bool(show),
            ),
        )
    }

    /// Sets the editor's mode to modal or non-modal.
    pub fn modal(self, modal: bool) -> (r: Self)
        ensures
            r.0@ == self.0@.insert(
                (Some(StyleClass::EditorView), StyleProp::Modal),
                StyleValue::Bool(modal),
            ),
    {
        EditorCustomStyle(
            self.0.set(Some(StyleClass::EditorView), StyleProp::Modal, StyleValue::Bool(modal)),
        )
    }

    /// Determines if line numbers are relative in modal mode.
    pub fn modal_relative_line(self, modal_relative_line: bool) -> (r: Self)
        ensures
            r.0@ == self.0@.insert(
                (Some(StyleClass::EditorView), StyleProp::ModalRelativeLine),
                StyleValue::Bool(modal_relative_line),
            ),
    {
        EditorCustomStyle(
            self.0.set(
                Some(StyleClass::EditorView),
                StyleProp::ModalRelativeLine,
                StyleValue::Bool(modal_relative_line),
            ),
        )
    }

    /// Enables or disables smart tab behavior, which inserts the indent
    /// style detected in the file when the tab key is pressed.
    pub fn smart_tab(self, smart_tab: bool) -> (r: Self)
        ensures
            r.0@ == self.0@.insert(
                (Some(StyleClass::EditorView), StyleProp::SmartTab),
                StyleValue::Bool(smart_tab),
            ),
    {
        EditorCustomStyle(
            self.0.set(Some(StyleClass::EditorView), StyleProp::SmartTab, StyleValue::Bool(smart_tab)),
        )
    }
}

/// Represents a custom style for a `Scroll`.
pub struct ScrollCustomStyle(pub Style);

impl ScrollCustomStyle {
    /// Creates a new `ScrollCustomStyle`.
    pub fn new() -> (r: Self)
        ensures
            r.0@ == Map::<(Option<StyleClass>, StyleProp), StyleValue>::empty(),
    {
        ScrollCustomStyle(Style::new())
    }

    /// Sets whether the handle should have rounded corners.
    pub fn handle_rounded(self, rounded: bool) -> (r: Self)
        ensures
            r.0@ == self.0@.insert(
                (Some(StyleClass::ScrollHandle), StyleProp::Rounded),
                StyleValue::Bool(rounded),
            ),
    {
        ScrollCustomStyle(
            self.0.set(Some(StyleClass::ScrollHandle), StyleProp::Rounded, StyleValue::Bool(rounded)),
        )
    }

    /// Sets whether the track should have rounded corners.
    pub fn track_rounded(self, rounded: bool) -> (r: Self)
        ensures
            r.0@ == self.0@.insert(
                (Some(StyleClass::ScrollTrack), StyleProp::Rounded),
                StyleValue::Bool(rounded),
            ),
    {
        ScrollCustomStyle(
            self.0.set(Some(StyleClass::ScrollTrack), StyleProp::Rounded, StyleValue::Bool(rounded)),
        )
    }

    /// Controls the visibility of the scroll bars.
    pub fn hide_bars(self, hide: bool) -> (r: Self)
        ensures
            r.0@ == self.0@.insert((None, StyleProp::HideBars), StyleValue::Bool(hide)),
    {
        ScrollCustomStyle(self.0.set(None, StyleProp::HideBars, StyleValue::Bool(hide)))
    }

    /// Sets whether the pointer wheel events should be propagated.
    pub fn propagate_pointer_wheel(self, propagate: bool) -> (r: Self)
        ensures
            r.0@ == self.0@.insert(
                (None, StyleProp::PropagatePointerWheel),
                StyleValue::Bool(propagate),
            ),
    {
        ScrollCustomStyle(
            self.0.set(None, StyleProp::PropagatePointerWheel, StyleValue::Bool(propagate)),
        )
    }

    /// Sets whether vertical scrolling should be interpreted as horizontal
    /// scrolling.
    pub fn vertical_scroll_as_horizontal(self, vert_as_horiz: bool) -> (r: Self)
        ensures
            r.0@ == self.0@.insert(
                (None, StyleProp::VerticalScrollAsHorizontal),
                StyleValue::Bool(vert_as_horiz),
            ),
    {
        ScrollCustomStyle(
            self.0.set(None, StyleProp::VerticalScrollAsHorizontal, StyleValue::Bool(vert_as_horiz)),
        )
    }

    /// Controls whether scroll bars are shown when not scrolling. When
    /// false, bars are only shown during scroll interactions.
    pub fn show_bars_when_idle(self, show: bool) -> (r: Self)
        ensures
            r.0@ == self.0@.insert((None, StyleProp::ShowBarsWhenIdle), StyleValue::Bool(show)),
    {
        ScrollCustomStyle(self.0.set(None, StyleProp::ShowBarsWhenIdle, StyleValue::Bool(show)))
    }
}

/// Represents a custom style for a `Slider`.
pub struct SliderCustomStyle(pub Style);

impl SliderCustomStyle {
    pub fn new() -> (r: Self)
        ensures
            r.0@ == Map::<(Option<StyleClass>, StyleProp), StyleValue>::empty(),
    {
        SliderCustomStyle(Style::new())
    }

    /// Sets the edge alignment of the slider handle: when `true` the
    /// handle's edges stay within the bar at 0% and 100%.
    pub fn edge_align(self, align: bool) -> (r: Self)
        ensures
            r.0@ == self.0@.insert((None, StyleProp::EdgeAlign), StyleValue::Bool(align)),
    {
        SliderCustomStyle(self.0.set(None, StyleProp::EdgeAlign, StyleValue::Bool(align)))
    }
}

/// Represents a custom style for a `Label`.
pub struct LabelCustomStyle(pub Style);

impl LabelCustomStyle {
    pub fn new() -> (r: Self)
        ensures
            r.0@ == Map::<(Option<StyleClass>, StyleProp), StyleValue>::empty(),
    {
        LabelCustomStyle(Style::new())
    }

    /// Sets whether the label's text can be selected.
    pub fn selectable(self, selectable: bool) -> (r: Self)
        ensures
            r.0@ == self.0@.insert((None, StyleProp::Selectable), StyleValue::Bool(selectable)),
    {
        LabelCustomStyle(self.0.set(None, StyleProp::Selectable, StyleValue::Bool(selectable)))
    }
}

/// A custom style for a `Label` whose values depend on context.
pub struct LabelCustomExprStyle(pub Style);

impl LabelCustomExprStyle {
    pub fn new() -> (r: Self)
        ensures
            r.0@ == Map::<(Option<StyleClass>, StyleProp), StyleValue>::empty(),
    {
        LabelCustomExprStyle(Style::new())
    }
}

/// Represents a custom style for the handles of a `Resizable`.
pub struct ResizableCustomStyle(pub Style);

impl ResizableCustomStyle {
    pub fn new() -> (r: Self)
        ensures
            r.0@ == Map::<(Option<StyleClass>, StyleProp), StyleValue>::empty(),
    {
        ResizableCustomStyle(Style::new())
    }

    /// Sets the cursor style over the handle; `None` uses the automatic
    /// cursor style.
    pub fn handle_cursor_style(self, cursor_style: Option<CursorStyle>) -> (r: Self)
        ensures
            r.0@ == self.0@.insert(
                (None, StyleProp::HandleCursorStyle),
                StyleValue::Cursor(cursor_style),
            ),
    {
        ResizableCustomStyle(
            self.0.set(None, StyleProp::HandleCursorStyle, StyleValue::Cursor(cursor_style)),
        )
    }
}

/// A custom style for the handles of a `Resizable` whose values depend on
/// context.
pub struct ResizableCustomExprStyle(pub Style);

impl ResizableCustomExprStyle {
    pub fn new() -> (r: Self)
        ensures
            r.0@ == Map::<(Option<StyleClass>, StyleProp), StyleValue>::empty(),
    {
        ResizableCustomExprStyle(Style::new())
    }
}

/// Represents a custom style for a toggle button.
pub struct ToggleButtonCustomStyle(pub Style);

impl ToggleButtonCustomStyle {
    /// Create new styles for a toggle button.
    pub fn new() -> (r: Self)
        ensures
            r.0@ == Map::<(Option<StyleClass>, StyleProp), StyleValue>::empty(),
    {
        ToggleButtonCustomStyle(Style::new())
    }

    /// Applies `f` to the style if `cond` is `true`.
    pub fn apply_if<F: FnOnce(Self) -> Self>(self, cond: bool, f: F) -> (r: Self)
        requires
            cond ==> f.requires((self,)),
        ensures
            cond ==> f.ensures((self,), r),
            !cond ==> r == self,
    {
        if cond {
            f(self)
        } else {
            self
        }
    }
}

impl Default for ScrollCustomStyle {
    fn default() -> (r: Self)
        ensures
            r.0@ == Map::<(Option<StyleClass>, StyleProp), StyleValue>::empty(),
    {
        ScrollCustomStyle::new()
    }
}

impl Default for SliderCustomStyle {
    fn default() -> (r: Self)
        ensures
            r.0@ == Map::<(Option<StyleClass>, StyleProp), StyleValue>::empty(),
    {
        SliderCustomStyle::new()
    }
}

impl Default for LabelCustomStyle {
    fn default() -> (r: Self)
        ensures
            r.0@ == Map::<(Option<StyleClass>, StyleProp), StyleValue>::empty(),
    {
        LabelCustomStyle::new()
    }
}

impl Default for LabelCustomExprStyle {
    fn default() -> (r: Self)
        ensures
            r.0@ == Map::<(Option<StyleClass>, StyleProp), StyleValue>::empty(),
    {
        LabelCustomExprStyle::new()
    }
}

impl Default for ResizableCustomStyle {
    fn default() -> (r: Self)
        ensures
            r.0@ == Map::<(Option<StyleClass>, StyleProp), StyleValue>::empty(),
    {
        ResizableCustomStyle::new()
    }
}

impl Default for ResizableCustomExprStyle {
    fn default() -> (r: Self)
        ensures
            r.0@ == Map::<(Option<StyleClass>, StyleProp), StyleValue>::empty(),
    {
        ResizableCustomExprStyle::new()
    }
}

impl Default for ToggleButtonCustomStyle {
    fn default() -> (r: Self)
        ensures
            r.0@ == Map::<(Option<StyleClass>, StyleProp), StyleValue>::empty(),
    {
        ToggleButtonCustomStyle::new()
    }
}

} // verus!
