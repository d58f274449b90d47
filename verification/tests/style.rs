use floem_views::editor::RenderWhitespace;
use floem_views::style::{
    CursorStyle, EditorCustomStyle, IndentStyle, LabelCustomExprStyle, LabelCustomStyle, ResizableCustomExprStyle,
    ResizableCustomStyle, ScrollCustomStyle, SliderCustomStyle, Style, StyleClass, StyleProp, StyleValue,
    ToggleButtonCustomStyle,
};
use floem_views::widgets::{ImageLayoutData, ToggleChanged};

#[test]
fn editor_custom_style_sets_editor_view_props() {
    let s = EditorCustomStyle(Style::new())
        .hide_gutter(true)
        .scroll_beyond_last_line(true)
        .render_white_space(RenderWhitespace::Boundary)
        .cursor_surrounding_lines(3)
        .indent_guide(false)
        .modal(true)
        .modal_relative_line(false)
        .smart_tab(true);
    let st = &s.0;
    assert_eq!(st.get(Some(StyleClass::Gutter), StyleProp::Display), Some(StyleValue::DisplayNone));
    assert_eq!(
        st.get(Some(StyleClass::EditorView), StyleProp::CursorSurroundingLines),
        Some(StyleValue::Count(3))
    );
    assert_eq!(
        st.get(Some(StyleClass::EditorView), StyleProp::RenderWhitespace),
        Some(StyleValue::Whitespace(RenderWhitespace::Boundary))
    );
    assert_eq!(st.get(Some(StyleClass::EditorView), StyleProp::Modal), Some(StyleValue::Bool(true)));
    assert_eq!(st.get(None, StyleProp::Modal), None);
}

#[test]
fn hide_gutter_false_sets_nothing() {
    let s = EditorCustomStyle(Style::new()).hide_gutter(false);
    assert_eq!(s.0.get(Some(StyleClass::Gutter), StyleProp::Display), None);
}

#[test]
fn later_value_replaces_earlier() {
    let s = ScrollCustomStyle::new().hide_bars(true).hide_bars(false).handle_rounded(true).track_rounded(false);
    assert_eq!(s.0.get(None, StyleProp::HideBars), Some(StyleValue::Bool(false)));
    assert_eq!(s.0.get(Some(StyleClass::ScrollHandle), StyleProp::Rounded), Some(StyleValue::Bool(true)));
    assert_eq!(s.0.get(Some(StyleClass::ScrollTrack), StyleProp::Rounded), Some(StyleValue::Bool(false)));
    let s = s.propagate_pointer_wheel(true).vertical_scroll_as_horizontal(true).show_bars_when_idle(false);
    assert_eq!(s.0.get(None, StyleProp::ShowBarsWhenIdle), Some(StyleValue::Bool(false)));
}

#[test]
fn other_custom_styles() {
    assert_eq!(
        SliderCustomStyle::new().edge_align(true).0.get(None, StyleProp::EdgeAlign),
        Some(StyleValue::Bool(true))
    );
    assert_eq!(
        LabelCustomStyle::new().selectable(false).0.get(None, StyleProp::Selectable),
        Some(StyleValue::Bool(false))
    );
    assert_eq!(
        ResizableCustomStyle::new()
            .handle_cursor_style(Some(CursorStyle::ColResize))
            .0
            .get(None, StyleProp::HandleCursorStyle),
        Some(StyleValue::Cursor(Some(CursorStyle::ColResize)))
    );
    assert_eq!(LabelCustomExprStyle::new().0.get(None, StyleProp::Selectable), None);
    assert_eq!(ResizableCustomExprStyle::new().0.get(None, StyleProp::HandleCursorStyle), None);
    let t = ToggleButtonCustomStyle::new().apply_if(true, |s| ToggleButtonCustomStyle(s.0.set(None, StyleProp::Rounded, StyleValue::Bool(true))));
    assert_eq!(t.0.get(None, StyleProp::Rounded), Some(StyleValue::Bool(true)));
    let t = ToggleButtonCustomStyle::new().apply_if(false, |_| panic!("not applied"));
    assert_eq!(t.0.get(None, StyleProp::Rounded), None);
}

#[test]
fn widget_data() {
    let d = ImageLayoutData::new(300, 200);
    assert_eq!(d.natural_width(), 300);
    assert_eq!(d.natural_height(), 200);
    assert_eq!(*ToggleChanged(true).extract_inner(), true);
}

#[test]
fn editor_indent_style_is_replaced_by_later_setting() {
    let s = EditorCustomStyle(Style::new()).indent_style(IndentStyle::Tabs).indent_style(IndentStyle::Spaces(4));
    assert_eq!(
        s.0.get(Some(StyleClass::EditorView), StyleProp::IndentStyle),
        Some(StyleValue::Indent(IndentStyle::Spaces(4)))
    );
    assert_eq!(s.0.get(None, StyleProp::IndentStyle), None);
}

#[test]
fn default_custom_styles_set_nothing() {
    assert_eq!(SliderCustomStyle::default().0.get(None, StyleProp::EdgeAlign), None);
    assert_eq!(LabelCustomStyle::default().0.get(None, StyleProp::Selectable), None);
    assert_eq!(ScrollCustomStyle::default().0.get(None, StyleProp::HideBars), None);
    assert_eq!(ToggleButtonCustomStyle::default().0.get(None, StyleProp::Selectable), None);
    assert_eq!(
        ResizableCustomStyle::default().0.get(None, StyleProp::HandleCursorStyle),
        None
    );
}

#[test]
fn unset_properties_resolve_to_their_defaults() {
    let s = EditorCustomStyle(Style::new()).modal(true);
    let ev = Some(StyleClass::EditorView);
    assert_eq!(s.0.resolved(ev, StyleProp::CursorSurroundingLines, false), Some(StyleValue::Count(1)));
    assert_eq!(s.0.resolved(ev, StyleProp::Modal, false), Some(StyleValue::Bool(true)));
    assert_eq!(s.0.resolved(ev, StyleProp::SmartTab, true), Some(StyleValue::Bool(false)));
    assert_eq!(s.0.resolved(ev, StyleProp::IndentStyle, false), Some(StyleValue::Indent(IndentStyle::Spaces(4))));
    let s = s.cursor_surrounding_lines(5);
    assert_eq!(s.0.resolved(ev, StyleProp::CursorSurroundingLines, true), Some(StyleValue::Count(5)));
    let scroll = ScrollCustomStyle::new();
    assert_eq!(scroll.0.resolved(Some(StyleClass::ScrollHandle), StyleProp::Rounded, true), Some(StyleValue::Bool(true)));
    assert_eq!(scroll.0.resolved(None, StyleProp::ShowBarsWhenIdle, false), Some(StyleValue::Bool(true)));
    assert_eq!(scroll.0.resolved(None, StyleProp::Display, false), None);
}
