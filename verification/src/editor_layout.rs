//! Text facts that the editor's line layouts are built from: which visual
//! lines show anything, where their visible text ends, and which whitespace
//! characters are drawn.
use crate::editor::RenderWhitespace;
use crate::segmentation::{push_char, text_bytes};
use crate::text_input::lemma_bytes_concat;
use std::ops::Range;
use vstd::prelude::*;
use vstd::string::StrSliceExecFns;
use vstd::utf8::{char_is_scalar, encode_scalar};

verus! {

/// The bytes that `u8::is_ascii_whitespace` accepts.
pub open spec fn is_ascii_ws(b: u8) -> bool {
    b == 0x20 || b == 0x09 || b == 0x0A || b == 0x0C || b == 0x0D
}

/// Whether the bytes `[start, end)` of the text hold a non-whitespace byte
/// (false for an empty or out-of-bounds range).
pub open spec fn visible_in(bytes: Seq<u8>, start: int, end: int) -> bool {
    end <= bytes.len() && start < end && exists|i: int| start <= i < end && !is_ascii_ws(bytes[i])
}

/// Check if a text range within `full_text` contains non-whitespace characters.
/// Returns false for out-of-bounds or empty ranges.
pub fn has_visible_content(full_text: &str, range: &Range<usize>) -> (r: bool)
    ensures
        r == visible_in(text_bytes(full_text@), range.start as int, range.end as int),
{
    let bytes = full_text.as_bytes();
    if range.end > bytes.len() || range.start >= range.end {
        return false;
    }
    let mut i = range.start;
    while i < range.end
        invariant
            range.start <= i <= range.end <= bytes@.len(),
            bytes@ == text_bytes(full_text@),
            forall|j: int| range.start <= j < i ==> is_ascii_ws(#[trigger] bytes@[j]),
        decreases range.end - i,
    {
        let b = bytes[i];
        if !(b == 0x20 || b == 0x09 || b == 0x0A || b == 0x0C || b == 0x0D) {
            return true;
        }
        i = i + 1;
    }
    false
}

/// Whether the `i`-th visual line shows anything.
pub open spec fn line_visible(bytes: Seq<u8>, ranges: Seq<Option<Range<usize>>>, i: int) -> bool {
    match ranges[i] {
        Some(r) => visible_in(bytes, r.start as int, r.end as int),
        None => false,
    }
}

/// One past the last visual line that shows anything, or 0.
pub open spec fn relevant_count(bytes: Seq<u8>, ranges: Seq<Option<Range<usize>>>, n: int) -> int
    decreases n,
{
    if n <= 0 {
        0
    } else if line_visible(bytes, ranges, n - 1) {
        n
    } else {
        relevant_count(bytes, ranges, n - 1)
    }
}

/// Count of visual lines up to the last one with non-whitespace content,
/// given the byte range of each visual line (`None` where the layout has
/// none). Trailing lines that hold only whitespace are not counted.
pub fn relevant_layout_count(full_text: &str, ranges: &Vec<Option<Range<usize>>>) -> (r: usize)
    ensures
        r == relevant_count(text_bytes(full_text@), ranges@, ranges@.len() as int),
{
    let mut i = ranges.len();
    while i > 0
        invariant
            i <= ranges@.len(),
            relevant_count(text_bytes(full_text@), ranges@, i as int) == relevant_count(
                text_bytes(full_text@),
                ranges@,
                ranges@.len() as int,
            ),
        decreases i,
    {
        let visible = match &ranges[i - 1] {
            Some(r) => has_visible_content(full_text, r),
            None => false,
        };
        if visible {
            return i;
        }
        i = i - 1;
    }
    0
}

/// Whether the byte is one that a visual line's end is trimmed of.
pub open spec fn is_trimmed(b: u8) -> bool {
    b == 0x20 || b == 0x09 || b == 0x0A || b == 0x0D
}

/// The end of `[start, end)` once trailing spaces, tabs and line breaks are
/// dropped.
pub open spec fn trimmed_end(bytes: Seq<u8>, start: int, end: int) -> int
    decreases end - start,
{
    if end > start && is_trimmed(bytes[end - 1]) {
        trimmed_end(bytes, start, end - 1)
    } else {
        end
    }
}

/// Trimming a range keeps its start and drops exactly its trailing run of
/// spaces, tabs and line breaks: every dropped byte is one of them, and the
/// last byte kept (if any) is not.
pub proof fn lemma_trimmed_end_drops_trailing_blanks(bytes: Seq<u8>, start: int, end: int)
    requires
        0 <= start <= end <= bytes.len(),
    ensures
        start <= trimmed_end(bytes, start, end) <= end,
        forall|i: int|
            trimmed_end(bytes, start, end) <= i < end ==> (#[trigger] bytes[i] == 0x20u8 || bytes[i] == 0x09u8
                || bytes[i] == 0x0Au8 || bytes[i] == 0x0Du8),
        trimmed_end(bytes, start, end) > start ==> !(bytes[trimmed_end(bytes, start, end) - 1] == 0x20u8
            || bytes[trimmed_end(bytes, start, end) - 1] == 0x09u8 || bytes[trimmed_end(bytes, start, end) - 1]
            == 0x0Au8 || bytes[trimmed_end(bytes, start, end) - 1] == 0x0Du8),
    decreases end - start,
{
    if end > start && is_trimmed(bytes[end - 1]) {
        lemma_trimmed_end_drops_trailing_blanks(bytes, start, end - 1);
    }
}

/// The end of the byte range `[start, end)` of `full_text` without its
/// trailing spaces, tabs and line breaks.
pub fn trim_trailing_whitespace(full_text: &str, start: usize, end: usize) -> (r: usize)
    requires
        end <= text_bytes(full_text@).len(),
    ensures
        r == trimmed_end(text_bytes(full_text@), start as int, end as int),
        r <= end,
        start <= end ==> start <= r,
{
    let bytes = full_text.as_bytes();
    let mut end_idx = end;
    while end_idx > start
        invariant
            end_idx <= end <= bytes@.len(),
            start <= end ==> start <= end_idx,
            bytes@ == text_bytes(full_text@),
            trimmed_end(bytes@, start as int, end_idx as int) == trimmed_end(
                bytes@,
                start as int,
                end as int,
            ),
        ensures
            trimmed_end(bytes@, start as int, end_idx as int) == end_idx,
            end_idx <= end,
            start <= end ==> start <= end_idx,
            trimmed_end(bytes@, start as int, end as int) == trimmed_end(
                bytes@,
                start as int,
                end_idx as int,
            ),
        decreases end_idx,
    {
        let ch = bytes[end_idx - 1];
        if ch == 0x20 || ch == 0x09 || ch == 0x0A || ch == 0x0D {
            end_idx = end_idx - 1;
        } else {
            break;
        }
    }
    end_idx
}

/// The state of the scan that decides which whitespace is drawn: the run
/// of whitespace since the last other character (character and byte
/// column), what is drawn so far, and whether another character was seen.
pub struct WsScan {
    pub pending: Seq<(char, int)>,
    pub drawn: Seq<(char, int)>,
    pub found: bool,
}

/// One character of the scan at byte column `col`.
pub open spec fn ws_step(
    st: WsScan,
    c: char,
    col: int,
    leading: bool,
    boundary: bool,
    between: bool,
) -> WsScan {
    if c == '\t' || c == ' ' {
        WsScan { pending: st.pending.push((c, col)), drawn: st.drawn, found: st.found }
    } else {
        let keep = (st.found && between) || (st.found && boundary && st.pending.len() > 1) || (
        !st.found && leading);
        WsScan {
            pending: seq![],
            drawn: if keep {
                st.drawn + st.pending
            } else {
                st.drawn
            },
            found: true,
        }
    }
}

/// The scan over the first `n` characters.
pub open spec fn ws_scan(chars: Seq<char>, n: int, leading: bool, boundary: bool, between: bool) -> WsScan
    decreases n,
{
    if n <= 0 {
        WsScan { pending: seq![], drawn: seq![], found: false }
    } else {
        ws_step(
            ws_scan(chars, n - 1, leading, boundary, between),
            chars[n - 1],
            text_bytes(chars.take(n - 1)).len() as int,
            leading,
            boundary,
            between,
        )
    }
}

/// The whitespace characters drawn for a line, with their byte columns:
/// trailing whitespace always; leading whitespace for `All` and
/// `Boundary`; whitespace between other characters for `All`, and for
/// `Boundary` only runs of more than one. `None` draws nothing.
pub open spec fn drawn_whitespace(chars: Seq<char>, mode: RenderWhitespace) -> Option<
    Seq<(char, int)>,
> {
    let (leading, boundary, between) = match mode {
        RenderWhitespace::All => (true, true, true),
        RenderWhitespace::Boundary => (true, true, false),
        _ => (false, false, false),
    };
    if mode == RenderWhitespace::Off {
        None
    } else {
        let st = ws_scan(chars, chars.len() as int, leading, boundary, between);
        Some(st.drawn + st.pending)
    }
}

/// Byte length of a character's UTF-8 encoding.
fn char_len_utf8(c: char) -> (r: usize)
    ensures
        r == encode_scalar(c as u32).len(),
{
    proof {
        char_is_scalar(c);
    }
    let v = c as u32;
    if v <= 0x7F {
        1
    } else if v <= 0x7FF {
        2
    } else if v <= 0xFFFF {
        3
    } else {
        4
    }
}

proof fn lemma_prefix_bytes(chars: Seq<char>, i: int)
    requires
        0 <= i < chars.len(),
    ensures
        text_bytes(chars.take(i + 1)) == text_bytes(chars.take(i)) + encode_scalar(
            chars[i] as u32,
        ),
        text_bytes(chars.take(i + 1)).len() <= text_bytes(chars).len(),
{
    assert(chars.take(i + 1) =~= chars.take(i) + seq![chars[i]]);
    lemma_bytes_concat(chars.take(i), seq![chars[i]]);
    let one = seq![chars[i]];
    assert(one.drop_first() =~= Seq::<char>::empty());
    assert(text_bytes(Seq::<char>::empty()) =~= Seq::<u8>::empty());
    assert(text_bytes(one) == encode_scalar(one[0] as u32) + text_bytes(one.drop_first()));
    assert(text_bytes(one) =~= encode_scalar(chars[i] as u32));
    assert(chars =~= chars.take(i + 1) + chars.skip(i + 1));
    lemma_bytes_concat(chars.take(i + 1), chars.skip(i + 1));
}

/// The whitespace characters of a line that are drawn in `render_whitespace`
/// mode, each with its byte column; `None` when nothing is drawn.
pub fn rendered_whitespace(line_content: &str, render_whitespace: RenderWhitespace) -> (r: Option<Vec<(char, usize)>>)
    ensures
        match r {
            Some(v) => drawn_whitespace(line_content@, render_whitespace) == Some(
                v@.map_values(|p: (char, usize)| (p.0, p.1 as int)),
            ),
            None => drawn_whitespace(line_content@, render_whitespace) is None,
        },
{
    let (render_leading, render_boundary, render_between) = match render_whitespace {
        RenderWhitespace::All => (true, true, true),
        RenderWhitespace::Boundary => (true, true, false),
        RenderWhitespace::Trailing => (false, false, false),
        RenderWhitespace::Off => {
            return None;
        },
    };
    let ghost chars = line_content@;
    let total = line_content.as_bytes().len();
    let n = line_content.unicode_len();
    let mut whitespace_buffer: Vec<(char, usize)> = Vec::new();
    let mut rendered: Vec<(char, usize)> = Vec::new();
    let mut char_found = false;
    let mut col: usize = 0;
    let mut i: usize = 0;
    proof {
        assert(chars.take(0) =~= Seq::<char>::empty());
        assert(text_bytes(Seq::<char>::empty()) =~= Seq::<u8>::empty());
    }
    while i < n
        invariant
            i <= n,
            n == chars.len(),
            chars == line_content@,
            total == text_bytes(chars).len(),
            col == text_bytes(chars.take(i as int)).len(),
            col <= total,
            ({
                let st = ws_scan(chars, i as int, render_leading, render_boundary, render_between);
                &&& st.pending == whitespace_buffer@.map_values(
                    |p: (char, usize)| (p.0, p.1 as int),
                )
                &&& st.drawn == rendered@.map_values(|p: (char, usize)| (p.0, p.1 as int))
                &&& st.found == char_found
            }),
        decreases n - i,
    {
        let c = line_content.get_char(i);
        proof {
            lemma_prefix_bytes(chars, i as int);
        }
        if c == '\t' || c == ' ' {
            whitespace_buffer.push((c, col));
        } else {
            if (char_found && render_between) || (char_found && render_boundary
                && whitespace_buffer.len() > 1) || (!char_found && render_leading) {
                let mut k: usize = 0;
                let ghost r0 = rendered@;
                while k < whitespace_buffer.len()
                    invariant
                        k <= whitespace_buffer@.len(),
                        rendered@ == r0 + whitespace_buffer@.take(k as int),
                    decreases whitespace_buffer@.len() - k,
                {
                    rendered.push(whitespace_buffer[k]);
                    k = k + 1;
                    proof {
                        assert(rendered@ =~= r0 + whitespace_buffer@.take(k as int));
                    }
                }
                proof {
                    assert(whitespace_buffer@.take(whitespace_buffer@.len() as int)
                        =~= whitespace_buffer@);
                    assert((r0 + whitespace_buffer@).map_values(
                        |p: (char, usize)| (p.0, p.1 as int),
                    ) =~= r0.map_values(|p: (char, usize)| (p.0, p.1 as int))
                        + whitespace_buffer@.map_values(|p: (char, usize)| (p.0, p.1 as int)));
                }
            }
            char_found = true;
            whitespace_buffer = Vec::new();
        }
        col = col + char_len_utf8(c);
        i = i + 1;
        proof {
            let st = ws_scan(chars, i as int, render_leading, render_boundary, render_between);
            assert(st.pending =~= whitespace_buffer@.map_values(
                |p: (char, usize)| (p.0, p.1 as int),
            ));
            assert(st.drawn =~= rendered@.map_values(|p: (char, usize)| (p.0, p.1 as int)));
        }
    }
    let ghost r0 = rendered@;
    let mut k: usize = 0;
    while k < whitespace_buffer.len()
        invariant
            k <= whitespace_buffer@.len(),
            rendered@ == r0 + whitespace_buffer@.take(k as int),
        decreases whitespace_buffer@.len() - k,
    {
        rendered.push(whitespace_buffer[k]);
        k = k + 1;
        proof {
            assert(rendered@ =~= r0 + whitespace_buffer@.take(k as int));
        }
    }
    proof {
        assert(whitespace_buffer@.take(whitespace_buffer@.len() as int) =~= whitespace_buffer@);
        assert((r0 + whitespace_buffer@).map_values(|p: (char, usize)| (p.0, p.1 as int))
            =~= r0.map_values(|p: (char, usize)| (p.0, p.1 as int)) + whitespace_buffer@.map_values(
            |p: (char, usize)| (p.0, p.1 as int),
        ));
    }
    Some(rendered)
}


/// The visual lines that show something, in order, each as its start and
/// its end without trailing whitespace.
pub open spec fn visible_ranges(bytes: Seq<u8>, ranges: Seq<Option<Range<usize>>>) -> Seq<(int, int)>
    decreases ranges.len(),
{
    if ranges.len() == 0 {
        seq![]
    } else {
        let rest = visible_ranges(bytes, ranges.drop_last());
        match ranges.last() {
            Some(r) => if visible_in(bytes, r.start as int, r.end as int) {
                rest.push((r.start as int, trimmed_end(bytes, r.start as int, r.end as int)))
            } else {
                rest
            },
            None => rest,
        }
    }
}

/// Whether every visual line is blank (there being at least one).
pub open spec fn all_blank(bytes: Seq<u8>, ranges: Seq<Option<Range<usize>>>) -> bool {
    ranges.len() > 0 && forall|i: int| 0 <= i < ranges.len() ==> !line_visible(bytes, ranges, i)
}

/// The number of layouts put before those of the visual lines: one at the
/// paragraph's start when the line is a single paragraph of blank visual
/// lines, else none.
pub open spec fn prefix_layouts(
    bytes: Seq<u8>,
    paragraph_start: Option<usize>,
    ranges: Seq<Option<Range<usize>>>,
) -> int {
    if paragraph_start is Some && all_blank(bytes, ranges) {
        1
    } else {
        0
    }
}

/// The column where a layout ends once phantom text is accounted for:
/// one further when the buffer line goes on, right after the column
/// before phantom text, with exactly one space.
pub open spec fn col_end(end: int, pre_end: int, line: Seq<u8>) -> int {
    if pre_end < line.len() && line[pre_end] == 0x20 && !(pre_end + 1 < line.len() && line[pre_end
        + 1] == 0x20) {
        end + 1
    } else {
        end
    }
}

/// The end column of one layout: `end` is where its visible text ends,
/// `pre_end` that column before phantom text, and `line_text` the buffer
/// line up to its end.
pub fn layout_col_end(end: usize, pre_end: usize, line_text: &str) -> (r: usize)
    requires
        end < usize::MAX,
    ensures
        r == col_end(end as int, pre_end as int, text_bytes(line_text@)),
{
    let line = line_text.as_bytes();
    if pre_end < line.len() && line[pre_end] == 0x20 && !(pre_end + 1 < line.len() && line[pre_end
        + 1] == 0x20) {
        end + 1
    } else {
        end
    }
}

/// The layouts after the first `p` start as the visible ranges do, and
/// end as `col_end` says of their ends, given some column that
/// `before_phantom_col` may give for each.
pub open spec fn visible_layouts_end_as_given<F: Fn(usize) -> usize>(
    cols: Seq<(usize, usize)>,
    p: int,
    vis: Seq<(int, int)>,
    line: Seq<u8>,
    before_phantom_col: F,
) -> bool {
    forall|k: int|
        #![trigger vis[k]]
        0 <= k < vis.len() ==> ({
            let c = cols[p + k];
            &&& c.0 == vis[k].0
            &&& exists|pe: usize|
                #[trigger] before_phantom_col.ensures((vis[k].1 as usize,), pe) && c.1 == col_end(
                    vis[k].1,
                    pe as int,
                    line,
                )
        })
}

/// The (start, end) columns of the layouts of a line that show something:
/// when the line is a single paragraph (starting at `paragraph_start`) of
/// visual lines that are all blank, first a layout at its start; then one
/// per visual line with visible text, ending where its visible text ends,
/// adjusted by `layout_col_end` with the column that `before_phantom_col`
/// gives for that end.
pub fn layout_cols<F: Fn(usize) -> usize>(
    full_text: &str,
    paragraph_start: Option<usize>,
    ranges: &Vec<Option<Range<usize>>>,
    line_text: &str,
    before_phantom_col: F,
) -> (cols: Vec<(usize, usize)>)
    requires
        text_bytes(full_text@).len() < usize::MAX,
        forall|e: usize| before_phantom_col.requires((e,)),
    ensures
        cols@.len() == prefix_layouts(text_bytes(full_text@), paragraph_start, ranges@)
            + visible_ranges(text_bytes(full_text@), ranges@).len(),
        prefix_layouts(text_bytes(full_text@), paragraph_start, ranges@) == 1 ==> cols@[0] == (
            paragraph_start->0,
            paragraph_start->0,
        ),
        visible_layouts_end_as_given(
            cols@,
            prefix_layouts(text_bytes(full_text@), paragraph_start, ranges@),
            visible_ranges(text_bytes(full_text@), ranges@),
            text_bytes(line_text@),
            before_phantom_col,
        ),
{
    let ghost bytes = text_bytes(full_text@);
    let mut vis: Vec<(usize, usize)> = Vec::new();
    let mut blank = true;
    let mut i: usize = 0;
    while i < ranges.len()
        invariant
            i <= ranges@.len(),
            bytes == text_bytes(full_text@),
            vis@.len() == visible_ranges(bytes, ranges@.take(i as int)).len(),
            forall|k: int|
                0 <= k < vis@.len() ==> (#[trigger] vis@[k]).0 as int == visible_ranges(
                    bytes,
                    ranges@.take(i as int),
                )[k].0 && vis@[k].1 as int == visible_ranges(bytes, ranges@.take(i as int))[k].1,
            forall|k: int| 0 <= k < vis@.len() ==> (#[trigger] vis@[k]).1 <= bytes.len(),
            blank == !exists|j: int| 0 <= j < i && #[trigger] line_visible(bytes, ranges@, j),
        decreases ranges@.len() - i,
    {
        proof {
            assert(ranges@.take(i + 1).drop_last() =~= ranges@.take(i as int));
            assert(ranges@.take(i + 1).last() == ranges@[i as int]);
        }
        let ghost before = vis@;
        let ghost was_blank = blank;
        match &ranges[i] {
            Some(r) => {
                if has_visible_content(full_text, r) {
                    let end = trim_trailing_whitespace(full_text, r.start, r.end);
                    vis.push((r.start, end));
                    blank = false;
                    proof {
                        assert(vis@[vis@.len() - 1] == (r.start, end));
                        assert(line_visible(bytes, ranges@, i as int));
                    }
                } else {
                    proof {
                        assert(!line_visible(bytes, ranges@, i as int));
                    }
                }
            },
            None => {
                proof {
                    assert(!line_visible(bytes, ranges@, i as int));
                }
            },
        }
        proof {
            assert forall|k: int| 0 <= k < before.len() implies vis@[k] == before[k] by {}
            assert(blank == !exists|j: int| 0 <= j < i + 1 && #[trigger] line_visible(bytes, ranges@, j)) by {
                if exists|j: int| 0 <= j < i + 1 && #[trigger] line_visible(bytes, ranges@, j) {
                    let w = choose|j: int| 0 <= j < i + 1 && #[trigger] line_visible(bytes, ranges@, j);
                    if w < i {
                        assert(!was_blank);
                    }
                }
            }
        }
        i = i + 1;
    }
    proof {
        assert(ranges@.take(ranges@.len() as int) =~= ranges@);
        assert(blank == forall|j: int| 0 <= j < ranges@.len() ==> !line_visible(bytes, ranges@, j));
    }
    let ghost vs = visible_ranges(bytes, ranges@);
    let ghost line = text_bytes(line_text@);
    let ghost mut pes: Seq<usize> = seq![];
    let mut tail: Vec<(usize, usize)> = Vec::new();
    let mut k: usize = 0;
    while k < vis.len()
        invariant
            k <= vis@.len(),
            vs.len() == vis@.len(),
            bytes == text_bytes(full_text@),
            line == text_bytes(line_text@),
            bytes.len() < usize::MAX,
            forall|j: int|
                0 <= j < vis@.len() ==> (#[trigger] vis@[j]).0 as int == vs[j].0 && vis@[j].1 as int
                    == vs[j].1,
            forall|j: int| 0 <= j < vis@.len() ==> (#[trigger] vis@[j]).1 <= bytes.len(),
            forall|e: usize| before_phantom_col.requires((e,)),
            tail@.len() == k,
            pes.len() == k,
            forall|j: int|
                0 <= j < k ==> (#[trigger] tail@[j]).0 == vs[j].0 && before_phantom_col.ensures(
                    (vs[j].1 as usize,),
                    pes[j],
                ) && tail@[j].1 == col_end(vs[j].1, pes[j] as int, line),
        decreases vis@.len() - k,
    {
        let (start, end) = vis[k];
        let pe = before_phantom_col(end);
        let col = layout_col_end(end, pe, line_text);
        let ghost before = tail@;
        let ghost pes_before = pes;
        tail.push((start, col));
        proof {
            pes = pes.push(pe);
            assert(vs[k as int].1 as usize == end);
            assert forall|j: int| 0 <= j < k + 1 implies (#[trigger] tail@[j]).0 == vs[j].0
                && before_phantom_col.ensures((vs[j].1 as usize,), pes[j]) && tail@[j].1 == col_end(
                vs[j].1,
                pes[j] as int,
                line,
            ) by {
                if j < k {
                    assert(tail@[j] == before[j]);
                    assert(pes[j] == pes_before[j]);
                }
            }
        }
        k = k + 1;
    }
    let mut cols: Vec<(usize, usize)> = Vec::new();
    if ranges.len() > 0 && blank {
        if let Some(s) = paragraph_start {
            cols.push((s, s));
        }
    }
    let p = cols.len();
    let ghost head = cols@;
    let ghost tail_v = tail@;
    cols.append(&mut tail);
    proof {
        assert(p as int == prefix_layouts(bytes, paragraph_start, ranges@));
        assert(cols@.len() == p + vs.len());
        if p == 1 {
            assert(cols@[0] == head[0]);
        }
        assert forall|k: int| #![trigger vs[k]] 0 <= k < vs.len() implies ({
            let c = cols@[p + k];
            &&& c.0 == vs[k].0
            &&& exists|pe: usize|
                #[trigger] before_phantom_col.ensures((vs[k].1 as usize,), pe) && c.1 == col_end(
                    vs[k].1,
                    pe as int,
                    line,
                )
        }) by {
            assert(cols@[p + k] == tail_v[k]);
            assert(before_phantom_col.ensures((vs[k].1 as usize,), pes[k]));
        }
        assert(visible_layouts_end_as_given(cols@, p as int, vs, line, before_phantom_col));
    }
    cols
}

/// The text a line is laid out from: a closing `\r\n` becomes two spaces
/// and a closing `\n` one space, so the line break keeps its columns.
pub open spec fn layout_line_text(s: Seq<char>) -> Seq<char> {
    let n = s.len() as int;
    if n >= 2 && s[n - 2] == '\r' && s[n - 1] == '\n' {
        s.take(n - 2) + seq![' ', ' ']
    } else if n >= 1 && s[n - 1] == '\n' {
        s.take(n - 1) + seq![' ']
    } else {
        s
    }
}

/// The text `line` is laid out from (see `layout_line_text`).
pub fn line_layout_text(line: &str) -> (r: String)
    ensures
        r@ == layout_line_text(line@),
{
    let n = line.unicode_len();
    let (keep, pad): (usize, usize) = if n >= 2 && line.get_char(n - 2) == '\r' && line.get_char(n - 1)
        == '\n' {
        (n - 2, 2)
    } else if n >= 1 && line.get_char(n - 1) == '\n' {
        (n - 1, 1)
    } else {
        (n, 0)
    };
    let mut out = String::new();
    let mut i: usize = 0;
    while i < keep
        invariant
            i <= keep <= n,
            n == line@.len(),
            out@ == line@.take(i as int),
        decreases keep - i,
    {
        let c = line.get_char(i);
        push_char(&mut out, c);
        proof {
            assert(line@.take(i + 1) =~= line@.take(i as int).push(c));
        }
        i = i + 1;
    }
    let mut j: usize = 0;
    while j < pad
        invariant
            j <= pad <= 2,
            out@ == line@.take(keep as int) + Seq::new(j as nat, |_k: int| ' '),
        decreases pad - j,
    {
        push_char(&mut out, ' ');
        proof {
            assert(line@.take(keep as int) + Seq::new((j + 1) as nat, |_k: int| ' ') =~= (line@.take(
                keep as int,
            ) + Seq::new(j as nat, |_k: int| ' ')).push(' '));
        }
        j = j + 1;
    }
    proof {
        if pad == 2 {
            assert(Seq::new(2, |_k: int| ' ') =~= seq![' ', ' ']);
        } else if pad == 1 {
            assert(Seq::new(1, |_k: int| ' ') =~= seq![' ']);
        } else {
            assert(line@.take(n as int) + Seq::new(0, |_k: int| ' ') =~= line@);
        }
    }
    out
}

} // verus!
