use floem_views::editor::{CommandExecuted, EditorStyle};
use floem_views::keyboard::Modifiers;
use floem_views::keymap::{Command, MoveCommand};
use floem_views::editor::{
    default_dark_color, default_light_color, CursorInfo, DiffSection, DiffSectionKind, Document, EditorColor, ExtCmdDocument,
    PreeditData, Rgba8, RenderWhitespace, SystemClipboard, TimerToken,
};
use floem_views::editor_layout::{
    has_visible_content, layout_col_end, line_layout_text, layout_cols, relevant_layout_count, rendered_whitespace, trim_trailing_whitespace,
};

#[test]
fn theme_colors() {
    assert_eq!(default_light_color(EditorColor::Background), Rgba8 { r: 0xFA, g: 0xFA, b: 0xFA, a: 0xFF });
    assert_eq!(default_light_color(EditorColor::Scrollbar), Rgba8 { r: 0xB4, g: 0xB4, b: 0xB4, a: 0xBB });
    assert_eq!(default_light_color(EditorColor::Focus), Rgba8 { r: 0, g: 0, b: 0, a: 0xFF });
    assert_eq!(default_dark_color(EditorColor::Foreground), Rgba8 { r: 0xAB, g: 0xB2, b: 0xBF, a: 0xFF });
    assert_eq!(default_dark_color(EditorColor::CurrentLine), Rgba8 { r: 0x2C, g: 0x31, b: 0x3C, a: 0xFF });
    assert_eq!(default_dark_color(EditorColor::IndentGuide), default_dark_color(EditorColor::Selection));
}

#[test]
fn cursor_blinks_only_on_current_timer() {
    let mut c = CursorInfo::new();
    assert_eq!(c.blink(), Some(500));
    c.set_blink_timer(TimerToken { id: 7 });
    assert_eq!(c.on_blink_timer(TimerToken { id: 7 }), Some(500));
    assert!(c.hidden);
    assert_eq!(c.on_blink_timer(TimerToken { id: 3 }), None);
    assert!(c.hidden);
    assert_eq!(c.reset(), Some(500));
    assert!(!c.hidden);
    assert_eq!(c.blink_timer, TimerToken::invalid());
    c.blink_interval = 0;
    assert_eq!(c.blink(), None);
}

#[test]
fn plain_editor_data() {
    let _ = SystemClipboard::new();
    assert!(PreeditData::new().preedit.is_none());
    let d = ExtCmdDocument::new(3u8, "handler");
    assert_eq!(d.doc, 3);
    let s = DiffSection { y_idx: 2, height: 3, kind: DiffSectionKind::Added };
    assert_eq!(s.kind, DiffSectionKind::Added);
    assert_eq!(RenderWhitespace::default(), RenderWhitespace::Off);
}

#[test]
fn visible_content_and_relevant_count() {
    let t = "ab  \t \ncd";
    assert!(has_visible_content(t, &(0..2)));
    assert!(!has_visible_content(t, &(2..7)));
    assert!(!has_visible_content(t, &(5..5)));
    assert!(!has_visible_content(t, &(5..100)));
    let ranges = vec![Some(0..2), Some(2..7), None];
    assert_eq!(relevant_layout_count(t, &ranges), 1);
    let ranges = vec![Some(2..7), Some(7..9)];
    assert_eq!(relevant_layout_count(t, &ranges), 2);
    assert_eq!(relevant_layout_count(t, &vec![]), 0);
    assert_eq!(trim_trailing_whitespace(t, 0, 7), 2);
    assert_eq!(trim_trailing_whitespace(t, 3, 7), 3);
    assert_eq!(trim_trailing_whitespace(t, 0, 9), 9);
}

#[test]
fn whitespace_rendering_modes() {
    let line = "  a b  c  ";
    assert_eq!(rendered_whitespace(line, RenderWhitespace::Off), None);
    assert_eq!(
        rendered_whitespace(line, RenderWhitespace::Trailing),
        Some(vec![(' ', 8), (' ', 9)])
    );
    assert_eq!(
        rendered_whitespace(line, RenderWhitespace::Boundary),
        Some(vec![(' ', 0), (' ', 1), (' ', 5), (' ', 6), (' ', 8), (' ', 9)])
    );
    assert_eq!(
        rendered_whitespace(line, RenderWhitespace::All),
        Some(vec![(' ', 0), (' ', 1), (' ', 3), (' ', 5), (' ', 6), (' ', 8), (' ', 9)])
    );
    assert_eq!(rendered_whitespace("é\t", RenderWhitespace::Trailing), Some(vec![('\t', 2)]));
}

#[test]
fn layout_columns_trim_and_follow_single_space() {
    let cols = layout_cols("  foo  \n", Some(0), &vec![Some(0..8)], "  foo  ", |c| c);
    assert_eq!(cols, vec![(0, 5)]);
    let cols = layout_cols("a b", None, &vec![Some(0..1), Some(2..3)], "a b", |c| c);
    assert_eq!(cols, vec![(0, 2), (2, 3)]);
}

#[test]
fn layout_columns_of_blank_paragraph() {
    assert_eq!(layout_cols("   ", Some(4), &vec![Some(0..3), None], "   ", |c| c), vec![(4, 4)]);
    assert_eq!(layout_cols("   ", None, &vec![Some(0..3)], "   ", |c| c), vec![]);
    assert_eq!(layout_cols("", Some(0), &vec![], "", |c| c), vec![]);
}

#[test]
fn layout_column_end_with_phantom_shift() {
    assert_eq!(layout_col_end(3, 1, "a b"), 4);
    assert_eq!(layout_col_end(3, 1, "a  b"), 3);
    assert_eq!(layout_col_end(3, 9, "a b"), 3);
    assert_eq!(layout_col_end(3, 2, "a b"), 3);
}

#[test]
fn ext_cmd_document_runs_handler_first() {
    let doc = ExtCmdDocument::new(7u32, |c: Command, _n: Option<usize>, _m: Modifiers| {
        if c == Command::Move(MoveCommand::Up) { CommandExecuted::Yes } else { CommandExecuted::No }
    });
    let m = Modifiers { bits: 0 };
    let mut own_ran = false;
    let r = doc.run_command(Command::Move(MoveCommand::Up), None, m, |_d: &u32| { own_ran = true; CommandExecuted::No });
    assert_eq!(r, CommandExecuted::Yes);
    assert!(!own_ran);
    let r = doc.run_command(Command::Move(MoveCommand::Down), Some(2), m, |d: &u32| if *d == 7 { CommandExecuted::Yes } else { CommandExecuted::No });
    assert_eq!(r, CommandExecuted::Yes);
    let r = doc.run_command(Command::Move(MoveCommand::Down), None, m, |_d: &u32| CommandExecuted::No);
    assert_eq!(r, CommandExecuted::No);
    assert_eq!(EditorStyle { text_color: None }.ed_text_color(), Rgba8 { r: 0, g: 0, b: 0, a: 255 });
    let red = Rgba8 { r: 255, g: 0, b: 0, a: 255 };
    assert_eq!(EditorStyle { text_color: Some(red) }.ed_text_color(), red);
}

struct Notes {
    text: String,
    rev: u64,
}

impl Document for Notes {
    fn text(&self) -> String {
        self.text.clone()
    }

    fn cache_rev(&self) -> u64 {
        self.rev
    }

    fn find_unmatched(&self, offset: usize, previous: bool, _ch: char) -> usize {
        if previous { 0 } else { offset + 1 }
    }

    fn find_matching_pair(&self, offset: usize) -> usize {
        offset + 10
    }

    fn receive_char(&mut self, c: &str) {
        self.text.push_str(c);
        self.rev += 1;
    }
}

#[test]
fn wrapped_document_answers_as_the_document() {
    let handler = |_c: Command, _n: Option<usize>, _m: Modifiers| CommandExecuted::No;
    let mut e = ExtCmdDocument::new(Notes { text: "ab".to_string(), rev: 4 }, handler);
    assert_eq!(e.text(), "ab");
    assert_eq!(e.cache_rev(), 4);
    assert_eq!(e.find_unmatched(3, true, '('), 0);
    assert_eq!(e.find_unmatched(3, false, '('), 4);
    assert_eq!(e.find_matching_pair(2), 12);
    e.receive_char("c");
    assert_eq!(e.doc.text, "abc");
    assert_eq!(e.text(), "abc");
    assert_eq!(e.cache_rev(), 5);
}

#[test]
fn line_breaks_become_spaces_for_layout() {
    assert_eq!(line_layout_text("ab\r\n"), "ab  ");
    assert_eq!(line_layout_text("ab\n"), "ab ");
    assert_eq!(line_layout_text("ab"), "ab");
    assert_eq!(line_layout_text("\n"), " ");
    assert_eq!(line_layout_text(""), "");
    assert_eq!(line_layout_text("a\r"), "a\r");
    assert_eq!(line_layout_text("é\r\n"), "é  ");
}
