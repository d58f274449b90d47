use crate::segmentation::{
    text_bytes,
    unicode_word_spans,
    unicode_word_spans_of,
    word_spans_on_boundaries,
    word_spans_well_formed,
};
use vstd::utf8::{is_char_boundary_start_end_of_seq, valid_utf8};
use std::ops::Range;
use vstd::prelude::*;
use vstd::string::{StringExecFns, StringSliceAdditionalSpecFns};
use vstd::utf8::{encode_utf8, is_char_boundary};

verus! {

/// The bytes of a text are those of its parts, one after the other.
pub proof fn lemma_bytes_concat(a: Seq<char>, b: Seq<char>)
    ensures
        text_bytes(a + b) == text_bytes(a) + text_bytes(b),
    decreases a.len(),
{
    if a.len() == 0 {
        assert(a + b =~= b);
        assert(text_bytes(a) =~= Seq::<u8>::empty());
        assert(text_bytes(a) + text_bytes(b) =~= text_bytes(b));
    } else {
        assert((a + b).drop_first() =~= a.drop_first() + b);
        lemma_bytes_concat(a.drop_first(), b);
        assert((a + b)[0] == a[0]);
        assert(encode_utf8(a + b) == vstd::utf8::encode_scalar((a + b)[0] as u32) + encode_utf8(
            (a + b).drop_first(),
        ));
        assert(encode_utf8(a) == vstd::utf8::encode_scalar(a[0] as u32) + encode_utf8(
            a.drop_first(),
        ));
        assert(text_bytes(a + b) =~= text_bytes(a) + text_bytes(b));
    }
}

/// The bytes of the buffer after replacing the bytes `[start, end)` with
/// `replacement` (nothing changes unless both ends are character
/// boundaries).
pub open spec fn replaced_bytes(
    buffer: Seq<u8>,
    start: int,
    end: int,
    replacement: Seq<u8>,
) -> Seq<u8> {
    if is_char_boundary(buffer, end) && is_char_boundary(buffer, start) {
        buffer.take(start) + replacement + buffer.skip(end)
    } else {
        buffer
    }
}

/// Replacing `start..end` (both on character starts) with `r` keeps the
/// bytes before `start`, puts exactly `r` after them and then the bytes that
/// followed `end`; the length changes by the length of `r` less that of the
/// range. A range with an end inside a character changes nothing.
pub proof fn lemma_replace_range_splices(b: Seq<u8>, start: int, end: int, r: Seq<u8>)
    requires
        0 <= start <= end <= b.len(),
    ensures
        ({
            let out = replaced_bytes(b, start, end, r);
            if is_char_boundary(b, start) && is_char_boundary(b, end) {
                &&& out.len() == b.len() - (end - start) + r.len()
                &&& out.take(start) == b.take(start)
                &&& out.subrange(start, start + r.len()) == r
                &&& out.skip(start + r.len()) == b.skip(end)
            } else {
                out == b
            }
        }),
{
    let out = replaced_bytes(b, start, end, r);
    if is_char_boundary(b, start) && is_char_boundary(b, end) {
        assert(out.take(start) =~= b.take(start));
        assert(out.subrange(start, start + r.len()) =~= r);
        assert(out.skip(start + r.len()) =~= b.skip(end));
    }
}

/// Replaces the bytes in `del_range` of `buff` with `replacement` (or
/// deletes them); a range whose ends are not character boundaries leaves the
/// buffer unchanged.
pub fn replace_range(buff: &mut String, del_range: Range<usize>, replacement: Option<&str>)
    requires
        del_range.start <= del_range.end,
    ensures
        text_bytes(final(buff)@) == replaced_bytes(
            text_bytes(old(buff)@),
            del_range.start as int,
            del_range.end as int,
            match replacement {
                Some(r) => text_bytes(r@),
                None => Seq::empty(),
            },
        ),
{
    let ghost b0 = text_bytes(buff@);
    let text = buff.as_str();
    if !text.is_char_boundary(del_range.end) {
        return;
    }
    if !text.is_char_boundary(del_range.start) {
        return;
    }
    proof {
        vstd::utf8::encode_utf8_valid_utf8(old(buff)@);
        if del_range.end > b0.len() {
            assert(!is_char_boundary(b0, del_range.end as int));
        }
    }
    let (before, _) = text.split_at(del_range.start);
    let (_, after) = text.split_at(del_range.end);
    let mut out = String::from_str(before);
    match replacement {
        Some(r) => out.append(r),
        None => {},
    }
    out.append(after);
    proof {
        let rb = match replacement {
            Some(r) => r@,
            None => Seq::<char>::empty(),
        };
        assert(out@ == before@ + rb + after@);
        lemma_bytes_concat(before@ + rb, after@);
        lemma_bytes_concat(before@, rb);
        assert(text_bytes(before@) == before.spec_bytes());
        assert(text_bytes(after@) == after.spec_bytes());
        if replacement is None {
            assert(text_bytes(rb) =~= Seq::<u8>::empty());
        }
    }
    *buff = out;
}

/// End of a (start, length) span.
pub open spec fn span_end(w: (usize, usize)) -> int {
    w.0 + w.1
}

/// The ranges a double click can select, built word by word: each word,
/// preceded by the run of other characters since the previous word (or
/// since the start of the text).
pub open spec fn word_and_gap_ranges(words: Seq<(usize, usize)>) -> Seq<(int, int)>
    decreases words.len(),
{
    if words.len() == 0 {
        seq![]
    } else {
        let prev = word_and_gap_ranges(words.drop_last());
        let w = words.last();
        let gap: Seq<(int, int)> = if words.len() == 1 {
            if w.0 > 0 {
                seq![(0, w.0 as int)]
            } else {
                seq![]
            }
        } else {
            let pe = span_end(words[words.len() - 2]);
            if pe != w.0 {
                seq![(pe, w.0 as int)]
            } else {
                seq![]
            }
        };
        prev + gap + seq![(w.0 as int, span_end(w))]
    }
}

/// All selectable ranges: the word and gap ranges, then the run of other
/// characters after the last word.
pub open spec fn selectable_ranges(words: Seq<(usize, usize)>, len: int) -> Seq<(int, int)> {
    let r = word_and_gap_ranges(words);
    if r.len() > 0 && r.last().1 != len {
        r.push((r.last().1, len))
    } else {
        r
    }
}

/// The first range that contains `g`.
pub open spec fn first_containing(ranges: Seq<(int, int)>, g: int) -> Option<(int, int)>
    decreases ranges.len(),
{
    if ranges.len() == 0 {
        None
    } else if ranges[0].0 <= g < ranges[0].1 {
        Some(ranges[0])
    } else {
        first_containing(ranges.drop_first(), g)
    }
}

/// The range a double click at byte `glyph_idx` selects: the word or run of
/// other characters under the click (a click past the end counts as one on
/// the last byte), or the whole text when there is no word at all.
pub open spec fn dbl_click_range(words: Seq<(usize, usize)>, len: int, glyph_idx: int) -> (
    int,
    int,
) {
    let g = if glyph_idx <= len - 1 {
        glyph_idx
    } else if len >= 1 {
        len - 1
    } else {
        0
    };
    match first_containing(selectable_ranges(words, len), g) {
        Some(r) => r,
        None => (0, len),
    }
}

proof fn lemma_first_containing_skip(ranges: Seq<(int, int)>, k: int, g: int)
    requires
        0 <= k < ranges.len(),
        !(ranges[k].0 <= g < ranges[k].1),
    ensures
        first_containing(ranges.skip(k), g) == first_containing(ranges.skip(k + 1), g),
{
    assert(ranges.skip(k).drop_first() =~= ranges.skip(k + 1));
}

/// Every range is non-empty, lies inside the text and starts and ends on
/// character boundaries.
pub open spec fn ranges_on_boundaries(r: Seq<(int, int)>, b: Seq<u8>) -> bool {
    forall|k: int|
        0 <= k < r.len() ==> 0 <= #[trigger] r[k].0 < r[k].1 <= b.len() && is_char_boundary(
            b,
            r[k].0,
        ) && is_char_boundary(b, r[k].1)
}

proof fn lemma_word_and_gap_ranges_ok(words: Seq<(usize, usize)>, b: Seq<u8>)
    requires
        valid_utf8(b),
        word_spans_well_formed(words, b.len() as int),
        word_spans_on_boundaries(words, b),
    ensures
        ranges_on_boundaries(word_and_gap_ranges(words), b),
    decreases words.len(),
{
    is_char_boundary_start_end_of_seq(b);
    if words.len() > 0 {
        let prev = words.drop_last();
        assert forall|i: int| 0 < i < prev.len() implies prev[i - 1].0 + prev[i - 1].1 <= #[trigger] prev[i].0 by {
            assert(prev[i] == words[i]);
            assert(prev[i - 1] == words[i - 1]);
        }
        assert forall|i: int| 0 <= i < prev.len() implies #[trigger] prev[i].1 > 0 && prev[i].0 + prev[i].1 <= b.len() by {
            assert(prev[i] == words[i]);
        }
        assert forall|i: int| 0 <= i < prev.len() implies is_char_boundary(b, #[trigger] prev[i].0 as int)
            && is_char_boundary(b, prev[i].0 + prev[i].1) by {
            assert(prev[i] == words[i]);
        }
        lemma_word_and_gap_ranges_ok(prev, b);
        let w = words.last();
        assert(words[words.len() - 1] == w);
        if words.len() > 1 {
            assert(words[words.len() - 2].0 + words[words.len() - 2].1 <= words[words.len() - 1].0);
        }
    }
}

/// A double click selects a non-empty range of whole characters inside the
/// text, or nothing.
pub proof fn lemma_dbl_click_range_on_boundaries(words: Seq<(usize, usize)>, b: Seq<u8>, glyph_idx: int)
    requires
        valid_utf8(b),
        word_spans_well_formed(words, b.len() as int),
        word_spans_on_boundaries(words, b),
    ensures
        ({
            let r = dbl_click_range(words, b.len() as int, glyph_idx);
            &&& 0 <= r.0 <= r.1 <= b.len()
            &&& is_char_boundary(b, r.0)
            &&& is_char_boundary(b, r.1)
        }),
{
    is_char_boundary_start_end_of_seq(b);
    lemma_word_and_gap_ranges_ok(words, b);
    let wr = word_and_gap_ranges(words);
    let all = selectable_ranges(words, b.len() as int);
    assert(ranges_on_boundaries(all, b)) by {
        if wr.len() > 0 && wr.last().1 != b.len() {
            assert(wr.last() == wr[wr.len() - 1]);
        }
    }
    let len = b.len() as int;
    let g = if glyph_idx <= len - 1 {
        glyph_idx
    } else if len >= 1 {
        len - 1
    } else {
        0
    };
    lemma_first_containing_member(all, g);
}

proof fn lemma_first_containing_member(ranges: Seq<(int, int)>, g: int)
    ensures
        first_containing(ranges, g) matches Some(r) ==> exists|k: int|
            0 <= k < ranges.len() && #[trigger] ranges[k] == r,
    decreases ranges.len(),
{
    if ranges.len() > 0 {
        if ranges[0].0 <= g < ranges[0].1 {
            assert(ranges[0] == ranges[0]);
        } else {
            lemma_first_containing_member(ranges.drop_first(), g);
            if let Some(r) = first_containing(ranges.drop_first(), g) {
                let k = choose|k: int| 0 <= k < ranges.drop_first().len() && #[trigger] ranges.drop_first()[k] == r;
                assert(ranges[k + 1] == r);
            }
        }
    }
}

/// The ranges cover `a..z` one after another: each is non-empty, each
/// starts where the one before ended, the first at `a`, the last ending at
/// `z`.
spec fn tiles(r: Seq<(int, int)>, a: int, z: int) -> bool {
    &&& r.len() == 0 ==> a == z
    &&& r.len() > 0 ==> r[0].0 == a && r[r.len() - 1].1 == z
    &&& forall|k: int| 0 <= k < r.len() ==> #[trigger] r[k].0 < r[k].1
    &&& forall|k: int| 0 <= k < r.len() - 1 ==> #[trigger] r[k].1 == r[k + 1].0
    &&& forall|i: int, j: int| 0 <= i < j < r.len() ==> #[trigger] r[i].1 <= #[trigger] r[j].0
}

proof fn lemma_tiles_append(r: Seq<(int, int)>, a: int, m: int, x: (int, int))
    requires
        tiles(r, a, m),
        x.0 == m,
        x.0 < x.1,
    ensures
        tiles(r.push(x), a, x.1),
{
    let t = r.push(x);
    assert forall|i: int, j: int| 0 <= i < j < t.len() implies #[trigger] t[i].1 <= #[trigger] t[j].0 by {
        if j == t.len() - 1 && i < r.len() {
            if i < r.len() - 1 {
                assert(r[i].1 <= r[r.len() - 1].0);
            }
            assert(r[r.len() - 1].0 < r[r.len() - 1].1);
        }
    }
    assert forall|k: int| 0 <= k < t.len() - 1 implies #[trigger] t[k].1 == t[k + 1].0 by {
        if k == r.len() - 1 {
            assert(t[k] == r[r.len() - 1]);
        }
    }
}

/// The word and gap ranges tile the text from its start to the end of the
/// last word, and each word's own range is among them.
proof fn lemma_word_and_gap_ranges_tile(words: Seq<(usize, usize)>, len: int)
    requires
        word_spans_well_formed(words, len),
        words.len() > 0,
    ensures
        tiles(word_and_gap_ranges(words), 0, span_end(words[words.len() - 1])),
        forall|i: int|
            #![trigger words[i]]
            0 <= i < words.len() ==> exists|k: int|
                0 <= k < word_and_gap_ranges(words).len() && #[trigger] word_and_gap_ranges(words)[k] == (
                    words[i].0 as int,
                    span_end(words[i]),
                ),
    decreases words.len(),
{
    let prev_words = words.drop_last();
    let w = words.last();
    assert(w == words[words.len() - 1]);
    assert(w.1 > 0);
    let prev = word_and_gap_ranges(prev_words);
    let r = word_and_gap_ranges(words);
    let wr = (w.0 as int, span_end(w));
    if words.len() == 1 {
        assert(prev =~= Seq::<(int, int)>::empty());
        if w.0 > 0 {
            lemma_tiles_append(prev, 0, 0, (0, w.0 as int));
            lemma_tiles_append(prev.push((0, w.0 as int)), 0, w.0 as int, wr);
            assert(r =~= prev.push((0, w.0 as int)).push(wr));
        } else {
            lemma_tiles_append(prev, 0, 0, wr);
            assert(r =~= prev.push(wr));
        }
        assert(r[r.len() - 1] == wr);
    } else {
        assert forall|i: int| 0 <= i < prev_words.len() implies #[trigger] prev_words[i] == words[i] by {}
        assert(word_spans_well_formed(prev_words, len)) by {
            assert forall|i: int| 0 < i < prev_words.len() implies prev_words[i - 1].0 + prev_words[i - 1].1
                <= #[trigger] prev_words[i].0 by {
                assert(prev_words[i - 1] == words[i - 1]);
            }
        }
        lemma_word_and_gap_ranges_tile(prev_words, len);
        let pe = span_end(words[words.len() - 2]);
        assert(prev_words[prev_words.len() - 1] == words[words.len() - 2]);
        assert(pe <= w.0);
        if pe != w.0 {
            lemma_tiles_append(prev, 0, pe, (pe, w.0 as int));
            lemma_tiles_append(prev.push((pe, w.0 as int)), 0, w.0 as int, wr);
            assert(r =~= prev.push((pe, w.0 as int)).push(wr));
        } else {
            lemma_tiles_append(prev, 0, pe, wr);
            assert(r =~= prev.push(wr));
        }
        assert forall|i: int| #![trigger words[i]] 0 <= i < words.len() implies exists|k: int|
            0 <= k < r.len() && #[trigger] r[k] == (words[i].0 as int, span_end(words[i])) by {
            if i < words.len() - 1 {
                assert(prev_words[i] == words[i]);
                let k = choose|k: int|
                    0 <= k < prev.len() && #[trigger] prev[k] == (prev_words[i].0 as int, span_end(prev_words[i]));
                assert(r[k] == prev[k]);
            } else {
                assert(r[r.len() - 1] == wr);
            }
        }
    }
}

/// In ranges that tile `a..z`, a position inside one of them is first
/// found in that one.
proof fn lemma_first_containing_in_tiles(r: Seq<(int, int)>, a: int, z: int, k: int, g: int)
    requires
        tiles(r, a, z),
        0 <= k < r.len(),
        r[k].0 <= g < r[k].1,
    ensures
        first_containing(r, g) == Some(r[k]),
    decreases r.len(),
{
    if k > 0 {
        assert(r[0].1 <= r[k].0);
        let d = r.drop_first();
        assert forall|i: int, j: int| 0 <= i < j < d.len() implies #[trigger] d[i].1 <= #[trigger] d[j].0 by {
            assert(r[i + 1].1 <= r[j + 1].0);
        }
        assert forall|m: int| 0 <= m < d.len() - 1 implies #[trigger] d[m].1 == d[m + 1].0 by {
            assert(r[m + 1].1 == r[m + 2].0);
        }
        assert forall|m: int| 0 <= m < d.len() implies #[trigger] d[m].0 < d[m].1 by {
            assert(r[m + 1].0 < r[m + 1].1);
        }
        assert(d[0] == r[1]);
        assert(r[0].1 == r[1].0);
        assert(d[d.len() - 1] == r[r.len() - 1]);
        lemma_first_containing_in_tiles(d, r[0].1, z, k - 1, g);
    }
}

/// In ranges that tile `a..z`, every position of `a..z` lies in one.
proof fn lemma_tiles_cover(r: Seq<(int, int)>, a: int, z: int, g: int) -> (k: int)
    requires
        tiles(r, a, z),
        a <= g < z,
    ensures
        0 <= k < r.len(),
        r[k].0 <= g < r[k].1,
    decreases r.len(),
{
    if r[0].0 <= g < r[0].1 {
        0
    } else {
        let d = r.drop_first();
        assert forall|i: int, j: int| 0 <= i < j < d.len() implies #[trigger] d[i].1 <= #[trigger] d[j].0 by {
            assert(r[i + 1].1 <= r[j + 1].0);
        }
        assert forall|m: int| 0 <= m < d.len() - 1 implies #[trigger] d[m].1 == d[m + 1].0 by {
            assert(r[m + 1].1 == r[m + 2].0);
        }
        assert forall|m: int| 0 <= m < d.len() implies #[trigger] d[m].0 < d[m].1 by {
            assert(r[m + 1].0 < r[m + 1].1);
        }
        if r.len() == 1 {
            assert(false);
        }
        assert(d[0] == r[1]);
        assert(r[0].1 == r[1].0);
        assert(d[d.len() - 1] == r[r.len() - 1]);
        let k = lemma_tiles_cover(d, r[0].1, z, g);
        assert(r[k + 1] == d[k]);
        k + 1
    }
}

/// A double click selects the range under the click: the clicked byte (a
/// click past the end counting as one on the last byte) lies inside the
/// selected range, and a click inside a word selects exactly that word.
pub proof fn lemma_dbl_click_selects_under_click(words: Seq<(usize, usize)>, len: int, glyph_idx: int)
    requires
        word_spans_well_formed(words, len),
        len > 0,
        0 <= glyph_idx,
    ensures
        ({
            let g = if glyph_idx < len {
                glyph_idx
            } else {
                len - 1
            };
            let r = dbl_click_range(words, len, glyph_idx);
            &&& r.0 <= g < r.1
            &&& forall|i: int|
                #![trigger words[i]]
                0 <= i < words.len() && words[i].0 <= g < span_end(words[i]) ==> r == (
                    words[i].0 as int,
                    span_end(words[i]),
                )
        }),
{
    let g = if glyph_idx < len {
        glyph_idx
    } else {
        len - 1
    };
    if words.len() == 0 {
        assert(word_and_gap_ranges(words) =~= Seq::<(int, int)>::empty());
    } else {
        lemma_word_and_gap_ranges_tile(words, len);
        let wr = word_and_gap_ranges(words);
        let last_end = span_end(words[words.len() - 1]);
        let all = selectable_ranges(words, len);
        assert(last_end <= len);
        if last_end != len {
            lemma_tiles_append(wr, 0, last_end, (last_end, len));
            assert(all == wr.push((last_end, len)));
        }
        assert(tiles(all, 0, len));
        let k = lemma_tiles_cover(all, 0, len, g);
        lemma_first_containing_in_tiles(all, 0, len, k, g);
        assert forall|i: int|
            #![trigger words[i]]
            0 <= i < words.len() && words[i].0 <= g < span_end(words[i]) implies dbl_click_range(
            words,
            len,
            glyph_idx,
        ) == (words[i].0 as int, span_end(words[i])) by {
            let j = choose|j: int| 0 <= j < wr.len() && #[trigger] wr[j] == (words[i].0 as int, span_end(words[i]));
            assert(all[j] == wr[j]);
            lemma_first_containing_in_tiles(all, 0, len, j, g);
        }
    }
}

/// The (start, end) pairs of a list of ranges, as integers.
pub open spec fn int_ranges(v: Seq<(usize, usize)>) -> Seq<(int, int)> {
    Seq::new(v.len(), |k: int| (v[k].0 as int, v[k].1 as int))
}

#[verifier::spinoff_prover]
#[verifier::rlimit(40)]
fn build_selectable_ranges(words: &Vec<(usize, usize)>, len: usize) -> (ranges: Vec<(usize, usize)>)
    requires
        word_spans_well_formed(words@, len as int),
    ensures
        int_ranges(ranges@) == selectable_ranges(words@, len as int),
{
    let ghost ws = words@;
    let mut ranges: Vec<(usize, usize)> = Vec::new();
    let mut i: usize = 0;
    while i < words.len()
        invariant
            i <= ws.len(),
            ws == words@,
            word_spans_well_formed(ws, len as int),
            int_ranges(ranges@) == word_and_gap_ranges(ws.take(i as int)),
            i > 0 ==> ranges@.len() > 0 && ranges@.last().1 == span_end(ws[i - 1]),
        decreases ws.len() - i,
    {
        let (idx, wlen) = words[i];
        let end = idx + wlen;
        proof {
            assert(ws.take(i + 1).drop_last() =~= ws.take(i as int));
            assert(ws.take(i + 1).last() == ws[i as int]);
            if i > 0 {
                assert(ws.take(i + 1)[i - 1] == ws[i - 1]);
                assert(ranges@.last() == ranges@[ranges@.len() - 1]);
                assert(int_ranges(ranges@)[ranges@.len() - 1] == (
                    ranges@.last().0 as int,
                    ranges@.last().1 as int,
                ));
            }
        }
        let ghost before = ranges@;
        if ranges.len() > 0 {
            let prev_end = ranges[ranges.len() - 1].1;
            if prev_end != idx {
                ranges.push((prev_end, idx));
            }
        } else if idx > 0 {
            ranges.push((0, idx));
        }
        ranges.push((idx, end));
        i = i + 1;
        proof {
            assert(int_ranges(ranges@) =~= word_and_gap_ranges(ws.take(i as int)));
        }
    }
    proof {
        assert(ws.take(ws.len() as int) =~= ws);
    }
    if ranges.len() > 0 {
        let last_end = ranges[ranges.len() - 1].1;
        if last_end != len {
            ranges.push((last_end, len));
        }
        proof {
            assert(int_ranges(ranges@) =~= selectable_ranges(ws, len as int));
        }
    }
    ranges
}

fn find_containing(ranges: &Vec<(usize, usize)>, g: usize) -> (r: Option<(usize, usize)>)
    ensures
        match r {
            Some(x) => first_containing(int_ranges(ranges@), g as int) == Some(
                (x.0 as int, x.1 as int),
            ),
            None => first_containing(int_ranges(ranges@), g as int) is None,
        },
{
    let ghost all = int_ranges(ranges@);
    proof {
        assert(all.skip(0) =~= all);
    }
    let mut k: usize = 0;
    while k < ranges.len()
        invariant
            k <= ranges@.len(),
            all == int_ranges(ranges@),
            first_containing(all.skip(k as int), g as int) == first_containing(all, g as int),
        decreases ranges@.len() - k,
    {
        let (s, e) = ranges[k];
        if s <= g && g < e {
            proof {
                assert(all.skip(k as int)[0] == all[k as int]);
            }
            return Some((s, e));
        }
        proof {
            lemma_first_containing_skip(all, k as int, g as int);
        }
        k = k + 1;
    }
    proof {
        assert(all.skip(k as int).len() == 0);
    }
    None
}

/// The byte range that a double click at `glyph_idx` selects, given the
/// words of a text of `len` bytes (each as byte offset and length).
pub fn dbl_click_selection_in(words: &Vec<(usize, usize)>, len: usize, glyph_idx: usize) -> (r: Range<usize>)
    requires
        word_spans_well_formed(words@, len as int),
    ensures
        (r.start as int, r.end as int) == dbl_click_range(words@, len as int, glyph_idx as int),
{
    let ranges = build_selectable_ranges(words, len);
    let g = if glyph_idx <= len.saturating_sub(1) {
        glyph_idx
    } else {
        len.saturating_sub(1)
    };
    match find_containing(&ranges, g) {
        Some((s, e)) => Range { start: s, end: e },
        None => Range { start: 0, end: len },
    }
}

/// The byte range that a double click at `glyph_idx` selects in `buffer`.
pub fn get_dbl_click_selection(glyph_idx: usize, buffer: &str) -> (r: Range<usize>)
    ensures
        (r.start as int, r.end as int) == dbl_click_range(
            unicode_word_spans_of(buffer@),
            text_bytes(buffer@).len() as int,
            glyph_idx as int,
        ),
        r.start <= r.end <= text_bytes(buffer@).len(),
        is_char_boundary(text_bytes(buffer@), r.start as int),
        is_char_boundary(text_bytes(buffer@), r.end as int),
{
    let len = buffer.as_bytes().len();
    let words = unicode_word_spans(buffer);
    proof {
        vstd::utf8::encode_utf8_valid_utf8(buffer@);
        lemma_dbl_click_range_on_boundaries(words@, text_bytes(buffer@), glyph_idx as int);
    }
    dbl_click_selection_in(&words, len, glyph_idx)
}

} // verus!
