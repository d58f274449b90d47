# floem_views

The decision logic of a set of UI views (a code editor, a text input, lists,
tabs, tables, a navigation stack, key bindings and the style builders of the
built-in widgets), written in Verus and proved against its contracts.

Drawing, layout in pixels, reactive signals and the windowing system stay
with the host: the library takes the plain values they produce and hands back
the state and the decisions.

## Layout

- `src/` — the verified library.
  - `line_render_cache`: the per-line cache of the editor and how edits shift it.
  - `screen_lines`, `editor_layout`: the visual lines on screen, which of them
    show text, where their visible text ends, which whitespace is drawn.
  - `editor`: editor colours, preedit data, the cursor's blink state and the
    command-handling document wrapper, which answers as the document it wraps.
  - `text_input`, `text_edit`, `segmentation`, `utf8_facts`: the text input's
    buffer, cursor, selection, key handling and input-method composition, on
    character and grapheme boundaries.
  - `keyboard`, `keypress`, `keymap`: keys and modifiers, key chords parsed
    from text, and the default key bindings of each platform.
  - `list`, `navigation`, `table`, `widgets`: list navigation, which children
    are shown, how a navigation stack and a table follow their data.
  - `style`, `assoc`: styles as maps from (class, property) to value, and the
    custom-style builders.
- `tests/` — tests of the library on concrete values.
- `app/` — conversions from the platform's keyboard events, a host for the text
  input (clipboard, focus, pointer and input-method events), and the choice of
  key bindings by operating system.

## Design notes

- Key bindings (`KeypressMap`) are kept as a vector of pairs in which no key
  chord occurs twice, viewed as a map from chord to command. A chord is a
  structured value (a key that may carry its name as text, and modifier
  bits); the standard hash map's contract speaks of keys through their hash
  and equality, which for such a derived key Verus cannot see, so lookups
  and insertions through it could not be stated exactly. The vector keeps
  every contract of the map exact, with the same behaviour: an insertion
  replaces the command of an existing chord.
- When an input method commits text while a selection exists, the selection
  keeps its byte range (it is not moved along with the text); a range that would
  then cut a character of the new text is dropped instead of kept, since no
  later deletion or copy can cut the text there.
