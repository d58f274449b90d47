//! The visual lines on screen, and which edits or other editors' views
//! overlap them.
use crate::line_render_cache::InvalLines;
use vstd::prelude::*;

verus! {

/// A visual line: the buffer line and the index of the wrapped line within
/// it. Ordered by line, then by index.
#[derive(Clone, Copy, Debug, PartialEq, Eq, Hash, Structural)]
pub struct RVLine {
    pub line: usize,
    pub line_index: usize,
}

impl RVLine {
    pub fn new(line: usize, line_index: usize) -> (r: RVLine)
        ensures
            r.line == line,
            r.line_index == line_index,
    {
        RVLine { line, line_index }
    }
}

/// `a` comes before or is `b`.
pub open spec fn rv_le(a: RVLine, b: RVLine) -> bool {
    a.line < b.line || (a.line == b.line && a.line_index <= b.line_index)
}

pub open spec fn rv_lt(a: RVLine, b: RVLine) -> bool {
    rv_le(a, b) && a != b
}

/// Whether `a` comes before or is `b`.
pub fn rvline_le(a: RVLine, b: RVLine) -> (r: bool)
    ensures
        r == rv_le(a, b),
{
    a.line < b.line || (a.line == b.line && a.line_index <= b.line_index)
}

/// Whether two inclusive ranges of visual lines share a line.
pub fn rvline_ranges_overlap(a: (RVLine, RVLine), b: (RVLine, RVLine)) -> (r: bool)
    ensures
        r == (rv_le(a.0, b.1) && rv_le(b.0, a.1)),
{
    let (a_start, a_end) = a;
    let (b_start, b_end) = b;
    rvline_le(a_start, b_end) && rvline_le(b_start, a_end)
}

/// Whether an edit's invalidated lines (the larger of the old and new
/// count, from its start line) reach the buffer lines of a visible range.
pub fn inval_overlaps_visible_lines(inval: &InvalLines, visible_range: (RVLine, RVLine)) -> (r: bool)
    requires
        inval.start_line + if inval.inval_count >= inval.new_count {
            inval.inval_count
        } else {
            inval.new_count
        } <= usize::MAX,
    ensures
        r == (inval.start_line <= visible_range.1.line && visible_range.0.line
            <= inval.start_line + if inval.inval_count >= inval.new_count {
            inval.inval_count
        } else {
            inval.new_count
        }),
{
    let start_line = inval.start_line;
    let count = if inval.inval_count >= inval.new_count {
        inval.inval_count
    } else {
        inval.new_count
    };
    let end_line = inval.start_line + count;
    let visible_start = visible_range.0.line;
    let visible_end = visible_range.1.line;
    start_line <= visible_end && visible_start <= end_line
}

/// The visual lines shown on screen, in order.
#[derive(Clone, Debug)]
pub struct ScreenLines {
    pub lines: Vec<RVLine>,
}

/// The lines are in strictly increasing order.
pub open spec fn sorted_lines(s: Seq<RVLine>) -> bool {
    forall|i: int, j: int| 0 <= i < j < s.len() ==> rv_lt(#[trigger] s[i], #[trigger] s[j])
}

/// Index of the first line of a range: where `start` is, or the first line
/// when `start` comes before all of them.
pub open spec fn range_start_idx(s: Seq<RVLine>, start: RVLine) -> Option<int> {
    if exists|i: int| 0 <= i < s.len() && s[i] == start {
        Some(choose|i: int| 0 <= i < s.len() && s[i] == start)
    } else if s.len() > 0 && rv_lt(start, s[0]) {
        Some(0)
    } else {
        None
    }
}

/// Index of the last line of a range: where `end` is, or the last line
/// when `end` comes after all of them.
pub open spec fn range_end_idx(s: Seq<RVLine>, end: RVLine) -> Option<int> {
    if exists|i: int| 0 <= i < s.len() && s[i] == end {
        Some(choose|i: int| 0 <= i < s.len() && s[i] == end)
    } else if s.len() > 0 && rv_lt(s[s.len() - 1], end) {
        Some(s.len() - 1)
    } else {
        None
    }
}

/// The lines of the inclusive range `[start, end]`, cut to those on screen.
pub open spec fn lines_in_range(s: Seq<RVLine>, start: RVLine, end: RVLine) -> Seq<RVLine> {
    match (range_start_idx(s, start), range_end_idx(s, end)) {
        (Some(a), Some(b)) => if a <= b + 1 {
            s.subrange(a, b + 1)
        } else {
            seq![]
        },
        _ => seq![],
    }
}

/// The lines of a range lie between its ends: every line returned comes at
/// or after `start` and at or before `end`, and they are a run of the lines
/// on screen, in order.
pub proof fn lemma_lines_in_range_between(s: Seq<RVLine>, start: RVLine, end: RVLine)
    requires
        sorted_lines(s),
    ensures
        forall|k: int|
            0 <= k < lines_in_range(s, start, end).len() ==> rv_le(start, #[trigger] lines_in_range(s, start, end)[k])
                && rv_le(lines_in_range(s, start, end)[k], end),
        lines_in_range(s, start, end).len() > 0 ==> exists|a: int|
            0 <= a && a + lines_in_range(s, start, end).len() <= s.len() && lines_in_range(s, start, end)
                == #[trigger] s.subrange(a, a + lines_in_range(s, start, end).len()),
{
    let r = lines_in_range(s, start, end);
    if let (Some(a), Some(b)) = (range_start_idx(s, start), range_end_idx(s, end)) {
        if a <= b + 1 {
            if exists|i: int| 0 <= i < s.len() && s[i] == start {
                let i = choose|i: int| 0 <= i < s.len() && s[i] == start;
                assert(a == i);
            }
            if exists|i: int| 0 <= i < s.len() && s[i] == end {
                let i = choose|i: int| 0 <= i < s.len() && s[i] == end;
                assert(b == i);
            }
            assert(0 <= a && b < s.len());
            assert forall|k: int| 0 <= k < r.len() implies rv_le(start, #[trigger] r[k]) && rv_le(r[k], end) by {
                assert(r[k] == s[a + k]);
                if a + k > a {
                    assert(rv_lt(s[a], s[a + k]));
                }
                if a + k < b {
                    assert(rv_lt(s[a + k], s[b]));
                }
            }
            assert(r == s.subrange(a, a + r.len()));
        }
    }
}

/// Position of `x` among sorted lines.
fn search_line(lines: &Vec<RVLine>, x: RVLine) -> (r: Option<usize>)
    requires
        sorted_lines(lines@),
    ensures
        match r {
            Some(i) => i < lines@.len() && lines@[i as int] == x,
            None => forall|i: int| 0 <= i < lines@.len() ==> lines@[i] != x,
        },
{
    let mut lo: usize = 0;
    let mut hi: usize = lines.len();
    while lo < hi
        invariant
            lo <= hi <= lines@.len(),
            sorted_lines(lines@),
            forall|i: int| 0 <= i < lo ==> rv_lt(#[trigger] lines@[i], x),
            forall|i: int| hi <= i < lines@.len() ==> rv_lt(x, #[trigger] lines@[i]),
        decreases hi - lo,
    {
        let mid = lo + (hi - lo) / 2;
        let m = lines[mid];
        if m == x {
            return Some(mid);
        }
        if rvline_le(m, x) {
            proof {
                assert forall|i: int| 0 <= i < mid + 1 implies rv_lt(#[trigger] lines@[i], x) by {
                    if i < mid {
                        assert(rv_lt(lines@[i], lines@[mid as int]));
                    }
                }
            }
            lo = mid + 1;
        } else {
            proof {
                assert forall|i: int| mid <= i < lines@.len() implies rv_lt(x, #[trigger] lines@[i]) by {
                    if i > mid {
                        assert(rv_lt(lines@[mid as int], lines@[i]));
                    }
                }
            }
            hi = mid;
        }
    }
    None
}

impl ScreenLines {
    pub fn is_empty(&self) -> (r: bool)
        ensures
            r == (self.lines@.len() == 0),
    {
        self.lines.len() == 0
    }

    /// The first and last line on screen.
    pub fn rvline_range(&self) -> (r: Option<(RVLine, RVLine)>)
        ensures
            self.lines@.len() == 0 ==> r is None,
            self.lines@.len() > 0 ==> r == Some(
                (self.lines@[0], self.lines@[self.lines@.len() - 1]),
            ),
    {
        if self.lines.len() == 0 {
            None
        } else {
            Some((self.lines[0], self.lines[self.lines.len() - 1]))
        }
    }

    /// The buffer lines from that of the first line on screen to that of
    /// the last, which the screen lines are taken to cover contiguously.
    pub fn iter_lines(&self) -> (r: Vec<usize>)
        requires
            self.lines@.len() > 0,
        ensures
            ({
                let first = self.lines@[0].line as int;
                let last = self.lines@[self.lines@.len() - 1].line as int;
                &&& r@.len() == if first <= last {
                    last - first + 1
                } else {
                    0
                }
                &&& forall|i: int| 0 <= i < r@.len() ==> #[trigger] r@[i] == first + i
            }),
    {
        let start = self.lines[0].line;
        let end = self.lines[self.lines.len() - 1].line;
        let mut out: Vec<usize> = Vec::new();
        if start > end {
            return out;
        }
        let mut l = start;
        loop
            invariant_except_break
                start <= l <= end,
                out@.len() == l - start,
            invariant
                forall|i: int| 0 <= i < out@.len() ==> #[trigger] out@[i] == start + i,
            ensures
                out@.len() == end - start + 1,
                forall|i: int| 0 <= i < out@.len() ==> #[trigger] out@[i] == start + i,
            decreases end - l,
        {
            out.push(l);
            if l == end {
                break;
            }
            l = l + 1;
        }
        out
    }

    /// The lines on screen within the inclusive range `[start, end]`; a
    /// range reaching past the lines on screen is cut to them.
    pub fn iter_line_info_r(&self, start: RVLine, end: RVLine) -> (r: Vec<RVLine>)
        requires
            sorted_lines(self.lines@),
        ensures
            r@ == lines_in_range(self.lines@, start, end),
    {
        let n = self.lines.len();
        let start_idx = match search_line(&self.lines, start) {
            Some(i) => Some(i),
            None => if n > 0 && rvline_le(start, self.lines[0]) && start != self.lines[0] {
                Some(0)
            } else {
                None
            },
        };
        let end_idx = match search_line(&self.lines, end) {
            Some(i) => Some(i),
            None => if n > 0 && rvline_le(self.lines[n - 1], end) && self.lines[n - 1] != end {
                Some(n - 1)
            } else {
                None
            },
        };
        proof {
            let s = self.lines@;
            if let Some(i) = start_idx {
                if exists|k: int| 0 <= k < s.len() && s[k] == start {
                    let k = choose|k: int| 0 <= k < s.len() && s[k] == start;
                    if k != i {
                        if k < i {
                            assert(rv_lt(s[k], s[i as int]));
                        } else {
                            assert(rv_lt(s[i as int], s[k]));
                        }
                    }
                }
            }
            if let Some(i) = end_idx {
                if exists|k: int| 0 <= k < s.len() && s[k] == end {
                    let k = choose|k: int| 0 <= k < s.len() && s[k] == end;
                    if k != i {
                        if k < i {
                            assert(rv_lt(s[k], s[i as int]));
                        } else {
                            assert(rv_lt(s[i as int], s[k]));
                        }
                    }
                }
            }
        }
        let mut out: Vec<RVLine> = Vec::new();
        match (start_idx, end_idx) {
            (Some(a), Some(b)) => {
                if a <= b + 1 {
                    let mut i = a;
                    while i <= b
                        invariant
                            a <= i <= b + 1,
                            b < self.lines@.len(),
                            n == self.lines@.len(),
                            out@ == self.lines@.subrange(a as int, i as int),
                        decreases b + 1 - i,
                    {
                        out.push(self.lines[i]);
                        i = i + 1;
                        proof {
                            assert(out@ =~= self.lines@.subrange(a as int, i as int));
                        }
                    }
                }
            },
            _ => {},
        }
        out
    }

    /// The earliest line on screen that belongs to buffer line `line`.
    pub fn first_rvline_for_line(&self, line: usize) -> (r: Option<RVLine>)
        ensures
            match r {
                Some(v) => exists|i: int|
                    0 <= i < self.lines@.len() && self.lines@[i] == v && v.line == line && forall|
                        j: int,
                    | 0 <= j < i ==> (#[trigger] self.lines@[j]).line != line,
                None => forall|i: int|
                    0 <= i < self.lines@.len() ==> (#[trigger] self.lines@[i]).line != line,
            },
    {
        let mut i: usize = 0;
        while i < self.lines.len()
            invariant
                i <= self.lines@.len(),
                forall|j: int| 0 <= j < i ==> (#[trigger] self.lines@[j]).line != line,
            decreases self.lines@.len() - i,
        {
            if self.lines[i].line == line {
                return Some(self.lines[i]);
            }
            i = i + 1;
        }
        None
    }

    /// The latest line on screen that belongs to buffer line `line`.
    pub fn last_rvline_for_line(&self, line: usize) -> (r: Option<RVLine>)
        ensures
            match r {
                Some(v) => exists|i: int|
                    0 <= i < self.lines@.len() && self.lines@[i] == v && v.line == line && forall|
                        j: int,
                    | i < j < self.lines@.len() ==> (#[trigger] self.lines@[j]).line != line,
                None => forall|i: int|
                    0 <= i < self.lines@.len() ==> (#[trigger] self.lines@[i]).line != line,
            },
    {
        let mut i: usize = self.lines.len();
        while i > 0
            invariant
                i <= self.lines@.len(),
                forall|j: int| i <= j < self.lines@.len() ==> (#[trigger] self.lines@[j]).line != line,
            decreases i,
        {
            if self.lines[i - 1].line == line {
                return Some(self.lines[i - 1]);
            }
            i = i - 1;
        }
        None
    }
}

} // verus!
