//! Facts about character boundaries in UTF-8 byte sequences.
use vstd::prelude::*;
use vstd::utf8::*;

verus! {

/// A boundary of a prefix that ends on a boundary is a boundary of the whole.
pub proof fn lemma_boundary_of_prefix(b: Seq<u8>, k: int, i: int)
    requires
        valid_utf8(b),
        is_char_boundary(b, k),
        0 <= i <= k,
        is_char_boundary(b.take(k), i),
    ensures
        is_char_boundary(b, i),
{
    valid_utf8_split(b, k);
    assert(b.take(k) =~= b.subrange(0, k));
    is_char_boundary_start_end_of_seq(b);
    if 0 < i < k {
        is_char_boundary_iff_not_is_continuation_byte(b.take(k), i);
        is_char_boundary_iff_not_is_continuation_byte(b, i);
        assert(b.take(k)[i] == b[i]);
    }
}

/// A boundary of a suffix that starts on a boundary is, shifted, a boundary
/// of the whole.
pub proof fn lemma_boundary_of_suffix(b: Seq<u8>, k: int, j: int)
    requires
        valid_utf8(b),
        is_char_boundary(b, k),
        0 <= j <= b.len() - k,
        is_char_boundary(b.skip(k), j),
    ensures
        is_char_boundary(b, k + j),
{
    valid_utf8_split(b, k);
    assert(b.skip(k) =~= b.subrange(k, b.len() as int));
    is_char_boundary_start_end_of_seq(b);
    if 0 < j && k + j < b.len() {
        is_char_boundary_iff_not_is_continuation_byte(b.skip(k), j);
        is_char_boundary_iff_not_is_continuation_byte(b, k + j);
        assert(b.skip(k)[j] == b[k + j]);
    }
}

/// The join of two valid sequences is valid and a boundary.
pub proof fn lemma_join_is_boundary(x: Seq<u8>, y: Seq<u8>)
    requires
        valid_utf8(x),
        valid_utf8(y),
    ensures
        valid_utf8(x + y),
        is_char_boundary(x + y, x.len() as int),
{
    valid_utf8_concat(x, y);
    is_char_boundary_start_end_of_seq(x + y);
    is_char_boundary_start_end_of_seq(y);
    if y.len() > 0 {
        is_char_boundary_iff_not_is_continuation_byte(x + y, x.len() as int);
        is_char_boundary_iff_not_is_continuation_byte(y, 0);
        assert((x + y)[x.len() as int] == y[0]);
    }
}

/// Cutting a valid sequence at two boundaries and putting a valid piece in
/// between gives a valid sequence with boundaries at both joins.
pub proof fn lemma_splice_boundaries(b: Seq<u8>, s: int, e: int, r: Seq<u8>)
    requires
        valid_utf8(b),
        valid_utf8(r),
        0 <= s <= e <= b.len(),
        is_char_boundary(b, s),
        is_char_boundary(b, e),
    ensures
        valid_utf8(b.take(s) + r + b.skip(e)),
        is_char_boundary(b.take(s) + r + b.skip(e), s),
        is_char_boundary(b.take(s) + r + b.skip(e), s + r.len()),
{
    valid_utf8_split(b, s);
    valid_utf8_split(b, e);
    assert(b.take(s) =~= b.subrange(0, s));
    assert(b.skip(e) =~= b.subrange(e, b.len() as int));
    lemma_join_is_boundary(b.take(s), r);
    lemma_join_is_boundary(b.take(s) + r, b.skip(e));
    let whole = b.take(s) + r + b.skip(e);
    assert(whole.take(s + r.len()) =~= b.take(s) + r);
    lemma_boundary_of_prefix(whole, s + r.len(), s);
}

/// A splice at `c` keeps every character boundary before `c`.
pub proof fn lemma_boundary_kept_before(b: Seq<u8>, c: int, e: int, r: Seq<u8>, i: int)
    requires
        valid_utf8(b),
        valid_utf8(r),
        0 <= i <= c <= e <= b.len(),
        is_char_boundary(b, c),
        is_char_boundary(b, e),
        is_char_boundary(b, i),
    ensures
        is_char_boundary(b.take(c) + r + b.skip(e), i),
{
    let whole = b.take(c) + r + b.skip(e);
    lemma_splice_boundaries(b, c, e, r);
    is_char_boundary_start_end_of_seq(whole);
    if 0 < i < c {
        assert(whole[i] == b[i]);
        is_char_boundary_iff_not_is_continuation_byte(b, i);
        is_char_boundary_iff_not_is_continuation_byte(whole, i);
    }
}

} // verus!
