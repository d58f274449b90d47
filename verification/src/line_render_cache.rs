use vstd::prelude::*;

verus! {

/// A run of invalidated lines: `inval_count` lines starting at `start_line`
/// were replaced by `new_count` lines.
#[derive(Clone, Copy, Debug, PartialEq, Eq)]
pub struct InvalLines {
    pub start_line: usize,
    pub inval_count: usize,
    pub new_count: usize,
}

impl InvalLines {
    pub fn new(start_line: usize, inval_count: usize, new_count: usize) -> (r: InvalLines)
        ensures
            r.start_line == start_line,
            r.inval_count == inval_count,
            r.new_count == new_count,
    {
        InvalLines { start_line, inval_count, new_count }
    }
}

/// `n` empty entries.
pub open spec fn nones<T>(n: int) -> Seq<Option<T>> {
    Seq::new(n as nat, |i: int| None::<T>)
}

pub open spec fn min_int(a: int, b: int) -> int {
    if a <= b { a } else { b }
}

pub open spec fn max_int(a: int, b: int) -> int {
    if a >= b { a } else { b }
}

/// The abstract state of a cache: the line of its first slot and the slots.
pub struct CacheView<T> {
    pub base: nat,
    pub entries: Seq<Option<T>>,
}

impl<T> CacheView<T> {
    /// The entry cached for `line`, if any.
    pub open spec fn entry(self, line: int) -> Option<T> {
        let i = line - self.base;
        if 0 <= i < self.entries.len() {
            self.entries[i]
        } else {
            None
        }
    }

    /// The counts of the cache stay within the machine's range.
    pub open spec fn wf(self) -> bool {
        self.base + self.entries.len() <= usize::MAX + 1
    }

    /// The state after storing `e` for `line`.
    pub open spec fn inserted(self, line: nat, e: T) -> CacheView<T> {
        if line < self.base {
            CacheView {
                base: line,
                entries: seq![Some(e)] + nones(self.base - line - 1) + self.entries,
            }
        } else if self.entries.len() == 0 {
            CacheView { base: line, entries: seq![Some(e)] }
        } else if line >= self.base + self.entries.len() {
            CacheView {
                base: self.base,
                entries: self.entries + nones(line - self.base - self.entries.len()) + seq![
                    Some(e),
                ],
            }
        } else {
            CacheView { base: self.base, entries: self.entries.update(line - self.base, Some(e)) }
        }
    }

    /// The inputs on which storing an entry for `line` runs without overflow.
    pub open spec fn can_insert(self, line: nat) -> bool {
        line < self.base || self.entries.len() == 0 || {
            &&& self.base + self.entries.len() <= usize::MAX
            &&& (line >= self.base + self.entries.len() ==> line - self.base + 1 <= usize::MAX)
        }
    }

    /// Index of the first slot touched by an invalidation.
    pub open spec fn inval_start_idx(self, inv: InvalLines) -> int {
        max_int(inv.start_line as int, self.base as int) - self.base
    }

    /// Index one past the last slot cleared by an invalidation.
    pub open spec fn inval_end_idx(self, inv: InvalLines) -> int {
        let s = inv.start_line as int;
        let si = self.inval_start_idx(inv);
        let end_idx = if s >= self.base {
            si + inv.inval_count
        } else {
            si + max_int(0, inv.inval_count - (self.base - s))
        };
        min_int(end_idx, self.entries.len() as int)
    }

    /// The slots after the invalidated ones were cleared.
    pub open spec fn inval_cleared(self, inv: InvalLines) -> Seq<Option<T>> {
        let si = self.inval_start_idx(inv);
        let ie = self.inval_end_idx(inv);
        self.entries.take(si) + nones(ie - si) + self.entries.skip(ie)
    }

    /// How far the base line moves back when lines are removed.
    pub open spec fn inval_base_shift(self, inv: InvalLines) -> int {
        let s = inv.start_line as int;
        let oob = max_int(s, self.base as int) - s;
        min_int(oob, inv.inval_count as int)
    }

    /// Number of slots removed when lines are removed.
    pub open spec fn inval_remove(self, inv: InvalLines) -> int {
        inv.inval_count - self.inval_base_shift(inv)
    }

    /// Number of cleared slots kept when lines are removed.
    pub open spec fn inval_keep(self, inv: InvalLines) -> int {
        max_int(0, inv.new_count - self.inval_base_shift(inv))
    }

    /// The state after an invalidation.
    pub open spec fn invalidated(self, inv: InvalLines) -> CacheView<T> {
        let si = self.inval_start_idx(inv);
        let ie = self.inval_end_idx(inv);
        let n = self.entries.len() as int;
        let cleared = self.inval_cleared(inv);
        if si >= n {
            self
        } else if inv.new_count == inv.inval_count {
            CacheView { base: self.base, entries: cleared }
        } else if inv.new_count > inv.inval_count {
            CacheView {
                base: self.base,
                entries: cleared.take(ie) + nones(inv.new_count - inv.inval_count) + cleared.skip(
                    ie,
                ),
            }
        } else {
            let b2 = (self.base - self.inval_base_shift(inv)) as nat;
            let rem = self.inval_remove(inv);
            if rem == 0 {
                CacheView { base: b2, entries: cleared }
            } else {
                let rs = si + self.inval_keep(inv);
                let re = min_int(si + rem, n);
                CacheView { base: b2, entries: cleared.take(rs) + cleared.skip(re) }
            }
        }
    }

    /// The inputs on which an invalidation runs without overflow or an
    /// inverted removal range, and leaves the counts in the machine's range.
    pub open spec fn can_invalidate(self, inv: InvalLines) -> bool {
        let si = self.inval_start_idx(inv);
        let n = self.entries.len() as int;
        si < n ==> {
            &&& (inv.start_line >= self.base ==> si + inv.inval_count <= usize::MAX)
            &&& (inv.new_count > inv.inval_count ==> self.base + n + inv.new_count
                - inv.inval_count <= usize::MAX)
            &&& (inv.new_count < inv.inval_count && self.inval_remove(inv) > 0 ==> {
                &&& si + self.inval_remove(inv) <= usize::MAX
                &&& si + self.inval_keep(inv) <= min_int(si + self.inval_remove(inv), n)
            })
        }
    }
}

/// An invalidation that replaces lines by as many lines clears exactly the
/// entries of those lines and keeps every other entry where it was.
pub proof fn lemma_invalidate_same_count<T>(v: CacheView<T>, inv: InvalLines, line: int)
    requires
        inv.new_count == inv.inval_count,
    ensures
        v.invalidated(inv).base == v.base,
        v.invalidated(inv).entries.len() == v.entries.len(),
        inv.start_line <= line < inv.start_line + inv.inval_count ==> v.invalidated(inv).entry(
            line,
        ) is None,
        !(inv.start_line <= line < inv.start_line + inv.inval_count) ==> v.invalidated(inv).entry(
            line,
        ) == v.entry(line),
{
    let si = v.inval_start_idx(inv);
    let ie = v.inval_end_idx(inv);
    let n = v.entries.len() as int;
    if si < n {
        let c = v.inval_cleared(inv);
        assert(c.len() == n);
        let i = line - v.base;
        if 0 <= i < n {
            if si <= i < ie {
                assert(c[i] == nones::<T>(ie - si)[i - si]);
            } else if i < si {
                assert(c[i] == v.entries.take(si)[i]);
            } else {
                assert(c[i] == v.entries.skip(ie)[i - ie]);
            }
        }
    }
}

proof fn lemma_cleared_at<T>(v: CacheView<T>, inv: InvalLines, i: int)
    requires
        v.inval_start_idx(inv) < v.entries.len(),
        0 <= i < v.entries.len(),
    ensures
        v.inval_cleared(inv).len() == v.entries.len(),
        v.inval_cleared(inv)[i] == if v.inval_start_idx(inv) <= i < v.inval_end_idx(inv) {
            None
        } else {
            v.entries[i]
        },
{
    let si = v.inval_start_idx(inv);
    let ie = v.inval_end_idx(inv);
    let c = v.inval_cleared(inv);
    if si <= i < ie {
        assert(c[i] == nones::<T>(ie - si)[i - si]);
    } else if i < si {
        assert(c[i] == v.entries.take(si)[i]);
    } else {
        assert(c[i] == v.entries.skip(ie)[i - ie]);
    }
}

/// An invalidation moves lines as an edit does: the lines before its start
/// keep their entries, the `new_count` lines from its start have none, and
/// each later line has the entry of the line `inval_count - new_count`
/// further on before the edit. (An edit that removes lines and starts
/// before the first cached line moves the cache by the lines removed before
/// it instead.)
pub proof fn lemma_invalidate_moves_lines<T>(v: CacheView<T>, inv: InvalLines, line: int)
    requires
        v.can_invalidate(inv),
        inv.start_line >= v.base || inv.new_count >= inv.inval_count,
    ensures
        v.invalidated(inv).entry(line) == if line < inv.start_line {
            v.entry(line)
        } else if line < inv.start_line + inv.new_count {
            None
        } else {
            v.entry(line - inv.new_count + inv.inval_count)
        },
{
    let si = v.inval_start_idx(inv);
    let ie = v.inval_end_idx(inv);
    let n = v.entries.len() as int;
    let s = inv.start_line as int;
    let w = v.invalidated(inv);
    let c = v.inval_cleared(inv);
    if si >= n {
        return;
    }
    let i = line - v.base;
    let j = line - inv.new_count + inv.inval_count - v.base;
    if 0 <= i < n {
        lemma_cleared_at(v, inv, i);
    }
    if 0 <= j < n {
        lemma_cleared_at(v, inv, j);
    }
    if inv.new_count == inv.inval_count {
    } else if inv.new_count > inv.inval_count {
        let d = inv.new_count - inv.inval_count;
        let e = c.take(ie) + nones::<T>(d) + c.skip(ie);
        assert(w.entries == e);
        let k = line - v.base;
        if 0 <= k < e.len() {
            if k < ie {
                assert(e[k] == c.take(ie)[k]);
                lemma_cleared_at(v, inv, k);
            } else if k < ie + d {
                assert(e[k] == nones::<T>(d)[k - ie]);
            } else {
                assert(e[k] == c.skip(ie)[k - ie - d]);
                lemma_cleared_at(v, inv, k - d);
            }
        }
    } else {
        let b2 = (v.base - v.inval_base_shift(inv)) as nat;
        let rem = v.inval_remove(inv);
        let k = line - b2;
        if rem == 0 {
            if 0 <= k < n {
                lemma_cleared_at(v, inv, k);
            }
        } else {
            let rs = si + v.inval_keep(inv);
            let re = min_int(si + rem, n);
            let e = c.take(rs) + c.skip(re);
            assert(w.entries == e);
            if 0 <= k < e.len() {
                if k < rs {
                    assert(e[k] == c.take(rs)[k]);
                    lemma_cleared_at(v, inv, k);
                } else {
                    assert(e[k] == c.skip(re)[k - rs]);
                    lemma_cleared_at(v, inv, k - rs + re);
                }
            }
        }
    }
}

/// Per-line cache that starts at `base_line` and grows from there; the
/// slots are kept in an array so that new lines and upward scrolling are
/// cheap to handle.
#[derive(Debug, Clone)]
pub struct LineRenderCache<T> {
    base_line: usize,
    entries: Vec<Option<T>>,
}

impl<T> View for LineRenderCache<T> {
    type V = CacheView<T>;

    closed spec fn view(&self) -> CacheView<T> {
        CacheView { base: self.base_line as nat, entries: self.entries@ }
    }
}

impl<T> LineRenderCache<T> {
    pub fn new() -> (r: Self)
        ensures
            r@.base == 0,
            r@.entries.len() == 0,
            r@.wf(),
    {
        LineRenderCache { base_line: 0, entries: Vec::new() }
    }

    fn idx(&self, line: usize) -> (r: Option<usize>)
        ensures
            line >= self@.base ==> r == Some((line - self@.base) as usize),
            line < self@.base ==> r is None,
    {
        proof {
            reveal_view(self);
        }
        line.checked_sub(self.base_line)
    }

    pub fn base_line(&self) -> (r: usize)
        ensures
            r == self@.base,
    {
        proof {
            reveal_view(self);
        }
        self.base_line
    }

    pub fn min_line(&self) -> (r: usize)
        ensures
            r == self@.base,
    {
        proof {
            reveal_view(self);
        }
        self.base_line
    }

    pub fn max_line(&self) -> (r: Option<usize>)
        requires
            self@.wf(),
        ensures
            self@.entries.len() == 0 ==> r is None,
            self@.entries.len() > 0 ==> r == Some((self@.base + self@.entries.len() - 1) as usize),
    {
        proof {
            reveal_view(self);
        }
        if self.entries.is_empty() {
            None
        } else {
            Some(self.min_line() + (self.entries.len() - 1))
        }
    }

    pub fn len(&self) -> (r: usize)
        ensures
            r == self@.entries.len(),
    {
        proof {
            reveal_view(self);
        }
        self.entries.len()
    }

    pub fn is_empty(&self) -> (r: bool)
        ensures
            r == (self@.entries.len() == 0),
    {
        proof {
            reveal_view(self);
        }
        self.entries.is_empty()
    }

    pub fn clear(&mut self)
        ensures
            final(self)@.base == 0,
            final(self)@.entries.len() == 0,
    {
        self.base_line = 0;
        self.entries.clear();
        proof {
            reveal_view(&*self);
        }
    }

    pub fn get(&self, line: usize) -> (r: Option<&T>)
        ensures
            match r {
                Some(x) => self@.entry(line as int) == Some(*x),
                None => self@.entry(line as int) is None,
            },
    {
        proof {
            reveal_view(self);
        }
        let idx = match self.idx(line) {
            Some(i) => i,
            None => return None,
        };
        if idx < self.entries.len() {
            match &self.entries[idx] {
                Some(x) => Some(x),
                None => None,
            }
        } else {
            None
        }
    }

    pub fn get_mut(&mut self, line: usize) -> (r: Option<&mut T>)
        ensures
            match r {
                Some(x) => {
                    &&& old(self)@.entry(line as int) == Some(*x)
                    &&& final(self)@.base == old(self)@.base
                    &&& final(self)@.entries == old(self)@.entries.update(
                        line - old(self)@.base,
                        Some(*final(x)),
                    )
                    &&& final(self)@.entry(line as int) == Some(*final(x))
                    &&& forall|l: int|
                        l != line ==> #[trigger] final(self)@.entry(l) == old(self)@.entry(l)
                },
                None => {
                    &&& old(self)@.entry(line as int) is None
                    &&& final(self)@.base == old(self)@.base
                    &&& final(self)@.entries == old(self)@.entries
                },
            },
    {
        proof {
            reveal_view(&*self);
        }
        let idx = match self.idx(line) {
            Some(i) => i,
            None => return None,
        };
        if idx < self.entries.len() {
            self.entries[idx].as_mut()
        } else {
            None
        }
    }

    pub fn insert(&mut self, line: usize, entry: T)
        requires
            old(self)@.wf(),
            old(self)@.can_insert(line as nat),
        ensures
            final(self)@ == old(self)@.inserted(line as nat, entry),
            final(self)@.wf(),
            final(self)@.entry(line as int) == Some(entry),
            forall|l: int| l != line ==> #[trigger] final(self)@.entry(l) == old(self)@.entry(l),
            old(self)@.entries.len() > 0 ==> final(self)@.base == min_int(
                old(self)@.base as int,
                line as int,
            ) && final(self)@.base + final(self)@.entries.len() - 1 == max_int(
                old(self)@.base + old(self)@.entries.len() - 1,
                line as int,
            ),
            old(self)@.entries.len() == 0 && line >= old(self)@.base ==> final(self)@.base == line
                && final(self)@.entries.len() == 1,
    {
        proof {
            reveal_view(&*self);
        }
        let ghost old_view = self@;
        if line < self.base_line {
            let old_base = self.base_line;
            self.base_line = line;
            let new_count = old_base - line;
            let mut fresh: Vec<Option<T>> = Vec::new();
            let mut k: usize = 0;
            while k < new_count
                invariant
                    k <= new_count,
                    fresh@ == nones::<T>(k as int),
                decreases new_count - k,
            {
                fresh.push(None);
                k = k + 1;
                proof {
                    assert(fresh@ =~= nones::<T>(k as int));
                }
            }
            fresh.append(&mut self.entries);
            self.entries = fresh;
            self.entries.set(0, Some(entry));
            proof {
                assert(self.entries@ =~= seq![Some(entry)] + nones(old_view.base - line - 1)
                    + old_view.entries);
            }
        } else if self.entries.is_empty() {
            self.base_line = line;
            self.entries.push(Some(entry));
            proof {
                assert(self.entries@ =~= seq![Some(entry)]);
            }
        } else if line >= self.base_line + self.entries.len() {
            let new_len = line - self.base_line + 1;
            let extra = new_len - self.entries.len() - 1;
            let mut k: usize = 0;
            while k < extra
                invariant
                    k <= extra,
                    self.base_line == old_view.base,
                    self.entries@ == old_view.entries + nones::<T>(k as int),
                decreases extra - k,
            {
                self.entries.push(None);
                k = k + 1;
                proof {
                    assert(self.entries@ =~= old_view.entries + nones::<T>(k as int));
                }
            }
            self.entries.push(Some(entry));
            proof {
                assert(self.entries@ =~= old_view.entries + nones(
                    line - old_view.base - old_view.entries.len(),
                ) + seq![Some(entry)]);
            }
        } else {
            let idx = line - self.base_line;
            self.entries.set(idx, Some(entry));
        }
        proof {
            reveal_view(&*self);
            let nv = self@;
            assert(nv == old_view.inserted(line as nat, entry));
            assert forall|l: int| l != line implies #[trigger] nv.entry(l) == old_view.entry(l) by {
                let i = l - nv.base;
                if 0 <= i < nv.entries.len() {
                    if line < old_view.base {
                        if i >= old_view.base - line {
                            assert(nv.entries[i] == old_view.entries[i - (old_view.base - line)]);
                        }
                    } else if old_view.entries.len() > 0 && line >= old_view.base
                        + old_view.entries.len() {
                        if i < old_view.entries.len() {
                            assert(nv.entries[i] == old_view.entries[i]);
                        }
                    }
                }
            }
        }
    }

    /// Clears the entries of `inval.inval_count` lines from
    /// `inval.start_line`; `inval.new_count` says whether slots are to be
    /// added or removed, such as for a new line.
    pub fn invalidate(&mut self, inval: InvalLines)
        requires
            old(self)@.wf(),
            old(self)@.can_invalidate(inval),
        ensures
            final(self)@ == old(self)@.invalidated(inval),
            final(self)@.wf(),
    {
        proof {
            reveal_view(&*self);
        }
        let ghost v0 = self@;
        let InvalLines { start_line, inval_count, new_count } = inval;
        let ib_start_line = if start_line >= self.base_line {
            start_line
        } else {
            self.base_line
        };
        let start_idx = ib_start_line - self.base_line;

        if start_idx >= self.entries.len() {
            return;
        }
        let end_idx = if start_line >= self.base_line {
            start_idx + inval_count
        } else {
            let within_count = inval_count.saturating_sub(self.base_line - start_line);
            start_idx + within_count
        };
        let ib_end_idx = if end_idx <= self.entries.len() {
            end_idx
        } else {
            self.entries.len()
        };
        assert(ib_end_idx == v0.inval_end_idx(inval));

        clear_slots(&mut self.entries, start_idx, ib_end_idx);
        let ghost cleared = self.entries@;
        assert(cleared == v0.inval_cleared(inval));

        if new_count == inval_count {
            proof {
                reveal_view(&*self);
            }
            return;
        }
        if new_count > inval_count {
            let extra = new_count - inval_count;
            insert_empty_slots(&mut self.entries, ib_end_idx, extra);
            proof {
                reveal_view(&*self);
                assert(self.entries@ =~= cleared.take(ib_end_idx as int) + nones(extra as int)
                    + cleared.skip(ib_end_idx as int));
            }
        } else {
            let mut to_remove = inval_count;
            let mut to_keep = new_count;
            let oob_start = ib_start_line - start_line;
            let oob_start_remove = if oob_start <= to_remove {
                oob_start
            } else {
                to_remove
            };
            self.base_line = self.base_line - oob_start_remove;
            to_remove = to_remove.saturating_sub(oob_start_remove);
            to_keep = to_keep.saturating_sub(oob_start_remove);

            if to_remove == 0 {
                proof {
                    reveal_view(&*self);
                }
                return;
            }
            let remove_start_idx = start_idx + to_keep;
            let remove_end_idx = if start_idx + to_remove <= self.entries.len() {
                start_idx + to_remove
            } else {
                self.entries.len()
            };
            remove_slots(&mut self.entries, remove_start_idx, remove_end_idx);
            proof {
                reveal_view(&*self);
                assert(self.entries@ =~= cleared.take(remove_start_idx as int) + cleared.skip(
                    remove_end_idx as int,
                ));
            }
        }
    }

    /// The slots, first line first.
    pub fn iter(&self) -> (r: Vec<Option<&T>>)
        ensures
            r@.len() == self@.entries.len(),
            forall|i: int|
                0 <= i < r@.len() ==> match #[trigger] r@[i] {
                    Some(x) => self@.entries[i] == Some(*x),
                    None => self@.entries[i] is None,
                },
    {
        proof {
            reveal_view(self);
        }
        let mut out: Vec<Option<&T>> = Vec::new();
        let mut i: usize = 0;
        while i < self.entries.len()
            invariant
                i <= self.entries@.len(),
                out@.len() == i,
                self@.entries == self.entries@,
                forall|j: int|
                    0 <= j < i ==> match #[trigger] out@[j] {
                        Some(x) => self.entries@[j] == Some(*x),
                        None => self.entries@[j] is None,
                    },
            decreases self.entries@.len() - i,
        {
            let item = match &self.entries[i] {
                Some(x) => Some(x),
                None => None,
            };
            out.push(item);
            i = i + 1;
        }
        out
    }

    /// Each slot with the line it holds, from the base line on.
    pub fn iter_with_line(&self) -> (r: Vec<(usize, Option<&T>)>)
        requires
            self@.wf(),
        ensures
            r@.len() == self@.entries.len(),
            forall|i: int|
                0 <= i < r@.len() ==> (#[trigger] r@[i]).0 == self@.base + i && match r@[i].1 {
                    Some(x) => self@.entries[i] == Some(*x),
                    None => self@.entries[i] is None,
                },
    {
        proof {
            reveal_view(self);
        }
        let base = self.base_line;
        let mut out: Vec<(usize, Option<&T>)> = Vec::new();
        let mut i: usize = 0;
        while i < self.entries.len()
            invariant
                i <= self.entries@.len(),
                out@.len() == i,
                base == self@.base,
                self@.entries == self.entries@,
                self@.wf(),
                forall|j: int|
                    0 <= j < i ==> (#[trigger] out@[j]).0 == base + j && match out@[j].1 {
                        Some(x) => self.entries@[j] == Some(*x),
                        None => self.entries@[j] is None,
                    },
            decreases self.entries@.len() - i,
        {
            let item = match &self.entries[i] {
                Some(x) => Some(x),
                None => None,
            };
            out.push((base + i, item));
            i = i + 1;
        }
        out
    }
}

impl<T> Default for LineRenderCache<T> {
    fn default() -> (r: Self)
        ensures
            r@.base == 0,
            r@.entries.len() == 0,
            r@.wf(),
    {
        LineRenderCache::new()
    }
}

/// Clears the slots in `[start, end)`.
fn clear_slots<T>(entries: &mut Vec<Option<T>>, start: usize, end: usize)
    requires
        start <= end <= old(entries)@.len(),
    ensures
        final(entries)@ == old(entries)@.take(start as int) + nones::<T>(end - start) + old(
            entries,
        )@.skip(end as int),
{
    let ghost e0 = entries@;
    let mut i = start;
    while i < end
        invariant
            start <= i <= end <= entries@.len(),
            entries@.len() == e0.len(),
            forall|j: int|
                0 <= j < e0.len() ==> #[trigger] entries@[j] == if start <= j < i {
                    None
                } else {
                    e0[j]
                },
        decreases end - i,
    {
        entries.set(i, None);
        i = i + 1;
    }
    assert(entries@ =~= e0.take(start as int) + nones::<T>(end - start) + e0.skip(end as int));
}

/// Inserts `count` empty slots at `at`.
fn insert_empty_slots<T>(entries: &mut Vec<Option<T>>, at: usize, count: usize)
    requires
        at <= old(entries)@.len(),
        old(entries)@.len() + count <= usize::MAX,
    ensures
        final(entries)@ == old(entries)@.take(at as int) + nones::<T>(count as int) + old(
            entries,
        )@.skip(at as int),
{
    let ghost e0 = entries@;
    let mut tail = entries.split_off(at);
    let mut k: usize = 0;
    while k < count
        invariant
            k <= count,
            entries@ == e0.take(at as int) + nones::<T>(k as int),
        decreases count - k,
    {
        entries.push(None);
        k = k + 1;
        assert(entries@ =~= e0.take(at as int) + nones::<T>(k as int));
    }
    entries.append(&mut tail);
    assert(entries@ =~= e0.take(at as int) + nones::<T>(count as int) + e0.skip(at as int));
}

/// Removes the slots in `[start, end)`.
fn remove_slots<T>(entries: &mut Vec<Option<T>>, start: usize, end: usize)
    requires
        start <= end <= old(entries)@.len(),
    ensures
        final(entries)@ == old(entries)@.take(start as int) + old(entries)@.skip(end as int),
{
    let ghost e0 = entries@;
    let mut tail = entries.split_off(end);
    entries.truncate(start);
    entries.append(&mut tail);
    assert(entries@ =~= e0.take(start as int) + e0.skip(end as int));
}

proof fn reveal_view<T>(c: &LineRenderCache<T>)
    ensures
        c@.base == c.base_line,
        c@.entries == c.entries@,
{
}

} // verus!
