use unicode_segmentation::UnicodeSegmentation;
use vstd::prelude::*;
use vstd::utf8::{encode_utf8, is_char_boundary};

verus! {

/// The UTF-8 bytes of a text.
pub open spec fn text_bytes(s: Seq<char>) -> Seq<u8> {
    encode_utf8(s)
}

/// The words of a text under the Unicode word-boundary rules, each as
/// (byte offset, byte length), in text order.
pub uninterp spec fn unicode_word_spans_of(s: Seq<char>) -> Seq<(usize, usize)>;

/// Byte length of the last extended grapheme cluster of a text (`None` for
/// an empty text).
pub uninterp spec fn last_grapheme_len_of(s: Seq<char>) -> Option<usize>;

/// Byte length of the first extended grapheme cluster of a text (`None` for
/// an empty text).
pub uninterp spec fn first_grapheme_len_of(s: Seq<char>) -> Option<usize>;

/// The words, in order, are non-empty, do not overlap and lie inside the
/// text.
pub open spec fn word_spans_well_formed(words: Seq<(usize, usize)>, len: int) -> bool {
    &&& forall|i: int|
        0 <= i < words.len() ==> #[trigger] words[i].1 > 0 && words[i].0 + words[i].1 <= len
    &&& forall|i: int|
        0 < i < words.len() ==> words[i - 1].0 + words[i - 1].1 <= #[trigger] words[i].0
}

/// Each word starts and ends on a character boundary of the text.
pub open spec fn word_spans_on_boundaries(words: Seq<(usize, usize)>, bytes: Seq<u8>) -> bool {
    forall|i: int|
        0 <= i < words.len() ==> is_char_boundary(bytes, #[trigger] words[i].0 as int)
            && is_char_boundary(bytes, words[i].0 + words[i].1)
}

/// Calls `UnicodeSegmentation::unicode_word_indices` and returns each word
/// as its byte offset and byte length. Claimed of it: the result is a
/// function of the text alone, and the words come in text order, are
/// non-empty substrings (so they start and end on character boundaries)
/// and do not overlap (the crate documents them as the
/// substrings between word boundaries that hold an alphanumeric character).
#[verifier::external_body]
pub(crate) fn unicode_word_spans(s: &str) -> (r: Vec<(usize, usize)>)
    ensures
        r@ == unicode_word_spans_of(s@),
        word_spans_well_formed(r@, text_bytes(s@).len() as int),
        word_spans_on_boundaries(r@, text_bytes(s@)),
{
    s.unicode_word_indices().map(|(i, w)| (i, w.len())).collect()
}

/// Calls `UnicodeSegmentation::graphemes(true).next_back()` and returns the
/// byte length of the cluster. Claimed of it: it is a function of the text
/// alone, it is `None` exactly for the empty text, and otherwise the cluster
/// is a non-empty suffix of the text that starts on a character boundary.
#[verifier::external_body]
pub(crate) fn last_grapheme_len(s: &str) -> (r: Option<usize>)
    ensures
        r == last_grapheme_len_of(s@),
        r is None <==> s@.len() == 0,
        r matches Some(n) ==> 0 < n <= text_bytes(s@).len() && is_char_boundary(
            text_bytes(s@),
            text_bytes(s@).len() - n,
        ),
{
    s.graphemes(true).next_back().map(|g| g.len())
}

/// Calls `UnicodeSegmentation::graphemes(true).next()` and returns the byte
/// length of the cluster. Claimed of it: it is a function of the text alone,
/// it is `None` exactly for the empty text, and otherwise the cluster is a
/// non-empty prefix of the text that ends on a character boundary.
#[verifier::external_body]
pub(crate) fn first_grapheme_len(s: &str) -> (r: Option<usize>)
    ensures
        r == first_grapheme_len_of(s@),
        r is None <==> s@.len() == 0,
        r matches Some(n) ==> 0 < n <= text_bytes(s@).len() && is_char_boundary(
            text_bytes(s@),
            n as int,
        ),
{
    s.graphemes(true).next().map(|g| g.len())
}

/// Calls `String::push`, which appends a character.
#[verifier::external_body]
pub(crate) fn push_char(s: &mut String, c: char)
    ensures
        final(s)@ == old(s)@.push(c),
{
    s.push(c)
}

} // verus!
