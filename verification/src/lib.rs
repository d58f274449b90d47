//! Verified core logic of a set of UI views: the per-line render cache and
//! line layouts of the code editor, text-input editing and input-method
//! composition, key chords and default key bindings, list, tab, table and
//! navigation-stack bookkeeping, and the custom style builders of the
//! built-in widgets.

pub mod assoc;
pub mod line_render_cache;
pub mod segmentation;
pub mod text_input;
pub mod utf8_facts;
pub mod keyboard;
pub mod text_edit;
pub mod keypress;
pub mod keymap;
pub mod list;
pub mod editor;
pub mod screen_lines;
pub mod editor_layout;
pub mod style;
pub mod widgets;
pub mod table;
pub mod navigation;
pub mod label;
