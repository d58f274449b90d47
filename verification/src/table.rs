//! The rows of a table view and how a diff of its data updates them: rows
//! are cleared, grown, emptied, moved and filled, and the cells of removed
//! rows are handed back to be disposed of.
use vstd::prelude::*;
use vstd::seq_lib::*;

verus! {

/// A change to a table's data. The cells of each added row are already
/// made, one per column.
pub struct TableDiff<R> {
    /// Every row goes before the other changes apply.
    pub clear: bool,
    /// Indices of rows whose cells are removed.
    pub removed: Vec<usize>,
    /// Rows that move, from an index to another.
    pub moved: Vec<(usize, usize)>,
    /// Rows that are put at an index, when the item is there.
    pub added: Vec<(usize, Option<Vec<R>>)>,
}

/// Rows of cells as sequences.
pub open spec fn rows_view<R>(rows: Seq<Vec<R>>) -> Seq<Seq<R>> {
    rows.map_values(|r: Vec<R>| r@)
}

/// Added rows as sequences.
pub open spec fn added_view<R>(added: Seq<(usize, Option<Vec<R>>)>) -> Seq<(usize, Option<Seq<R>>)> {
    added.map_values(
        |a: (usize, Option<Vec<R>>)|
            (
                a.0,
                match a.1 {
                    Some(v) => Some(v@),
                    None => None,
                },
            ),
    )
}

/// Moving rows as sequences.
pub open spec fn pending_view<R>(p: Seq<(usize, Vec<R>)>) -> Seq<(usize, Seq<R>)> {
    p.map_values(|e: (usize, Vec<R>)| (e.0, e.1@))
}

/// The rows that have cells.
pub open spec fn nonempty_rows<R>(rows: Seq<Seq<R>>) -> Seq<Seq<R>> {
    rows.filter(|r: Seq<R>| r.len() > 0)
}

/// The number of rows once the table is cleared (if asked) and grown by
/// the excess of added over removed rows.
pub open spec fn grown_len(n_rows: int, clear: bool, n_removed: int, n_added: int) -> int {
    let base = if clear {
        0
    } else {
        n_rows
    };
    let n_removed = if clear {
        0
    } else {
        n_removed
    };
    if n_added >= n_removed {
        base + (n_added - n_removed)
    } else {
        base
    }
}

/// The rows once the table is cleared (if asked) and grown with empty rows.
pub open spec fn grown_rows<R>(rows: Seq<Seq<R>>, clear: bool, n_removed: int, n_added: int) -> Seq<
    Seq<R>,
> {
    let base = if clear {
        Seq::<Seq<R>>::empty()
    } else {
        rows
    };
    base + Seq::new(
        (grown_len(rows.len() as int, clear, n_removed, n_added) - base.len()) as nat,
        |i: int| Seq::<R>::empty(),
    )
}

/// Empties the removed rows in order: the rows, and the cells removed.
pub open spec fn clear_removed<R>(rows: Seq<Seq<R>>, removed: Seq<usize>) -> (Seq<Seq<R>>, Seq<R>)
    decreases removed.len(),
{
    if removed.len() == 0 {
        (rows, Seq::empty())
    } else {
        let (r, d) = clear_removed(rows, removed.drop_last());
        let at = removed.last() as int;
        if at < r.len() {
            (r.update(at, Seq::empty()), d + r[at])
        } else {
            (r, d)
        }
    }
}

/// Takes out the rows that move, in order: the rows left behind, and each
/// moving row with its destination.
pub open spec fn take_moved<R>(rows: Seq<Seq<R>>, moved: Seq<(usize, usize)>) -> (
    Seq<Seq<R>>,
    Seq<(usize, Seq<R>)>,
)
    decreases moved.len(),
{
    if moved.len() == 0 {
        (rows, Seq::empty())
    } else {
        let (r, p) = take_moved(rows, moved.drop_last());
        let from = moved.last().0 as int;
        if from < r.len() {
            (r.update(from, Seq::empty()), p.push((moved.last().1, r[from])))
        } else {
            (r, p)
        }
    }
}

/// Puts the added rows whose item is there at their index, in order.
pub open spec fn put_added<R>(rows: Seq<Seq<R>>, added: Seq<(usize, Option<Seq<R>>)>) -> Seq<Seq<R>>
    decreases added.len(),
{
    if added.len() == 0 {
        rows
    } else {
        let r = put_added(rows, added.drop_last());
        let at = added.last().0 as int;
        match added.last().1 {
            Some(row) => if at < r.len() {
                r.update(at, row)
            } else {
                r
            },
            None => r,
        }
    }
}

/// Puts the moving rows at their destinations, in order.
pub open spec fn put_moved<R>(rows: Seq<Seq<R>>, pending: Seq<(usize, Seq<R>)>) -> Seq<Seq<R>>
    decreases pending.len(),
{
    if pending.len() == 0 {
        rows
    } else {
        put_moved(rows, pending.drop_last()).update(pending.last().0 as int, pending.last().1)
    }
}

/// Every row that moves from an existing row goes to an existing row.
pub open spec fn moves_fit(n_rows: int, moved: Seq<(usize, usize)>) -> bool {
    forall|j: int| 0 <= j < moved.len() && (#[trigger] moved[j]).0 < n_rows ==> moved[j].1 < n_rows
}

/// The rows after a diff, and the cells removed, in order.
pub open spec fn table_diff_result<R>(
    rows: Seq<Seq<R>>,
    clear: bool,
    removed: Seq<usize>,
    moved: Seq<(usize, usize)>,
    added: Seq<(usize, Option<Seq<R>>)>,
) -> (Seq<Seq<R>>, Seq<R>) {
    let removed = if clear {
        Seq::<usize>::empty()
    } else {
        removed
    };
    let grown = grown_rows(rows, clear, removed.len() as int, added.len() as int);
    let (r1, dropped) = clear_removed(grown, removed);
    let (r2, pending) = take_moved(r1, moved);
    let r3 = put_added(r2, added);
    let r4 = put_moved(r3, pending);
    let cleared = if clear {
        rows.flatten()
    } else {
        Seq::empty()
    };
    (nonempty_rows(r4), cleared + dropped)
}


/// All the cells of the rows, row by row.
fn drain_cells<R>(rows: Vec<Vec<R>>) -> (cells: Vec<R>)
    ensures
        cells@ == rows_view(rows@).flatten(),
{
    let ghost orig = rows_view(rows@);
    let mut rows = rows;
    let mut cells: Vec<R> = Vec::new();
    let mut i: usize = 0;
    while i < rows.len()
        invariant
            i <= rows@.len(),
            rows@.len() == orig.len(),
            forall|k: int| i <= k < rows@.len() ==> (#[trigger] rows@[k])@ == orig[k],
            cells@ == orig.take(i as int).flatten(),
        decreases rows@.len() - i,
    {
        let mut row: Vec<R> = Vec::new();
        rows.set_and_swap(i, &mut row);
        proof {
            orig.take(i as int).lemma_flatten_push(orig[i as int]);
            assert(orig.take(i + 1) =~= orig.take(i as int).push(orig[i as int]));
        }
        cells.append(&mut row);
        i = i + 1;
    }
    proof {
        assert(orig.take(orig.len() as int) =~= orig);
    }
    cells
}

/// Empties the removed rows, moving their cells to `disposed`.
fn clear_removed_rows<R>(rows: &mut Vec<Vec<R>>, removed: &Vec<usize>, disposed: &mut Vec<R>)
    ensures
        (rows_view(final(rows)@), final(disposed)@.skip(old(disposed)@.len() as int)) == clear_removed(
            rows_view(old(rows)@),
            removed@,
        ),
        final(disposed)@.len() >= old(disposed)@.len(),
        final(disposed)@.take(old(disposed)@.len() as int) == old(disposed)@,
{
    let ghost start = rows_view(rows@);
    let ghost d0 = disposed@;
    let mut i: usize = 0;
    while i < removed.len()
        invariant
            i <= removed@.len(),
            start == rows_view(old(rows)@),
            d0 == old(disposed)@,
            disposed@.len() >= d0.len(),
            disposed@.take(d0.len() as int) == d0,
            (rows_view(rows@), disposed@.skip(d0.len() as int)) == clear_removed(start, removed@.take(i as int)),
        decreases removed@.len() - i,
    {
        proof {
            assert(removed@.take(i + 1).drop_last() =~= removed@.take(i as int));
            assert(removed@.take(i + 1).last() == removed@[i as int]);
        }
        let at = removed[i];
        if at < rows.len() {
            let ghost before = rows_view(rows@);
            let ghost dbefore = disposed@;
            let mut row: Vec<R> = Vec::new();
            rows.set_and_swap(at, &mut row);
            disposed.append(&mut row);
            proof {
                assert(rows_view(rows@) =~= before.update(at as int, Seq::empty()));
                assert(disposed@.skip(d0.len() as int) =~= dbefore.skip(d0.len() as int) + before[at as int]);
                assert(disposed@.take(d0.len() as int) =~= dbefore.take(d0.len() as int));
            }
        }
        i = i + 1;
    }
    proof {
        assert(removed@.take(removed@.len() as int) =~= removed@);
    }
}

/// Takes out the rows that move, leaving them empty.
fn take_moved_rows<R>(rows: &mut Vec<Vec<R>>, moved: &Vec<(usize, usize)>) -> (pending: Vec<(usize, Vec<R>)>)
    ensures
        (rows_view(final(rows)@), pending_view(pending@)) == take_moved(rows_view(old(rows)@), moved@),
{
    let ghost start = rows_view(rows@);
    let mut pending: Vec<(usize, Vec<R>)> = Vec::new();
    let mut i: usize = 0;
    while i < moved.len()
        invariant
            i <= moved@.len(),
            start == rows_view(old(rows)@),
            (rows_view(rows@), pending_view(pending@)) == take_moved(start, moved@.take(i as int)),
        decreases moved@.len() - i,
    {
        proof {
            assert(moved@.take(i + 1).drop_last() =~= moved@.take(i as int));
            assert(moved@.take(i + 1).last() == moved@[i as int]);
        }
        let (from, to) = moved[i];
        if from < rows.len() {
            let ghost before = rows_view(rows@);
            let ghost pbefore = pending_view(pending@);
            let mut row: Vec<R> = Vec::new();
            rows.set_and_swap(from, &mut row);
            pending.push((to, row));
            proof {
                assert(rows_view(rows@) =~= before.update(from as int, Seq::empty()));
                assert(pending_view(pending@) =~= pbefore.push((to, before[from as int])));
            }
        }
        i = i + 1;
    }
    proof {
        assert(moved@.take(moved@.len() as int) =~= moved@);
    }
    pending
}

/// Puts the added rows in place.
fn put_added_rows<R>(rows: &mut Vec<Vec<R>>, added: Vec<(usize, Option<Vec<R>>)>)
    ensures
        rows_view(final(rows)@) == put_added(rows_view(old(rows)@), added_view(added@)),
{
    let ghost start = rows_view(rows@);
    let ghost all = added_view(added@);
    let mut added = added;
    let mut i: usize = 0;
    while i < added.len()
        invariant
            i <= added@.len(),
            all.len() == added@.len(),
            forall|k: int| i <= k < added@.len() ==> added_view(added@)[k] == #[trigger] all[k],
            start == rows_view(old(rows)@),
            rows_view(rows@) == put_added(start, all.take(i as int)),
        decreases added@.len() - i,
    {
        proof {
            assert(all.take(i + 1).drop_last() =~= all.take(i as int));
            assert(all.take(i + 1).last() == all[i as int]);
            assert(added_view(added@)[i as int] == all[i as int]);
        }
        let mut entry: (usize, Option<Vec<R>>) = (0, None);
        let ghost before_added = added@;
        added.set_and_swap(i, &mut entry);
        proof {
            assert forall|k: int| i < k < added@.len() implies added_view(added@)[k] == #[trigger] all[k] by {
                assert(added@[k] == before_added[k]);
                assert(added_view(before_added)[k] == all[k]);
            }
        }
        let (at, item) = entry;
        match item {
            Some(row) => {
                if at < rows.len() {
                    let ghost before = rows_view(rows@);
                    rows.set(at, row);
                    proof {
                        assert(rows_view(rows@) =~= before.update(at as int, all[i as int].1->0));
                    }
                }
            },
            None => {},
        }
        i = i + 1;
    }
    proof {
        assert(all.take(all.len() as int) =~= all);
    }
}

/// Appends `extra` empty rows.
fn grow_rows<R>(rows: &mut Vec<Vec<R>>, extra: usize)
    ensures
        rows_view(final(rows)@) == rows_view(old(rows)@) + Seq::new(
            extra as nat,
            |i: int| Seq::<R>::empty(),
        ),
{
    let ghost start = rows_view(rows@);
    let mut k: usize = 0;
    while k < extra
        invariant
            k <= extra,
            start == rows_view(old(rows)@),
            rows_view(rows@) == start + Seq::new(k as nat, |i: int| Seq::<R>::empty()),
        decreases extra - k,
    {
        let ghost before = rows_view(rows@);
        rows.push(Vec::new());
        k = k + 1;
        proof {
            assert(rows_view(rows@) =~= before.push(Seq::<R>::empty()));
            assert(rows_view(rows@) =~= start + Seq::new(k as nat, |i: int| Seq::<R>::empty()));
        }
    }
}

/// Puts the moving rows at their destinations.
fn put_moved_rows<R>(rows: &mut Vec<Vec<R>>, pending: Vec<(usize, Vec<R>)>)
    requires
        forall|k: int| 0 <= k < pending@.len() ==> (#[trigger] pending@[k]).0 < old(rows)@.len(),
    ensures
        rows_view(final(rows)@) == put_moved(rows_view(old(rows)@), pending_view(pending@)),
{
    let ghost start = rows_view(rows@);
    let ghost all = pending_view(pending@);
    let mut pending = pending;
    let mut i: usize = 0;
    while i < pending.len()
        invariant
            i <= pending@.len(),
            all.len() == pending@.len(),
            rows@.len() == old(rows)@.len(),
            forall|k: int| 0 <= k < all.len() ==> (#[trigger] all[k]).0 < rows@.len(),
            forall|k: int| i <= k < pending@.len() ==> pending_view(pending@)[k] == #[trigger] all[k],
            start == rows_view(old(rows)@),
            rows_view(rows@) == put_moved(start, all.take(i as int)),
        decreases pending@.len() - i,
    {
        proof {
            assert(all.take(i + 1).drop_last() =~= all.take(i as int));
            assert(all.take(i + 1).last() == all[i as int]);
            assert(pending_view(pending@)[i as int] == all[i as int]);
        }
        let mut entry: (usize, Vec<R>) = (0, Vec::new());
        let ghost before_pending = pending@;
        pending.set_and_swap(i, &mut entry);
        proof {
            assert forall|k: int| i < k < pending@.len() implies pending_view(pending@)[k]
                == #[trigger] all[k] by {
                assert(pending@[k] == before_pending[k]);
                assert(pending_view(before_pending)[k] == all[k]);
            }
        }
        let (to, row) = entry;
        let ghost before = rows_view(rows@);
        rows.set(to, row);
        proof {
            assert(rows_view(rows@) =~= before.update(to as int, all[i as int].1));
        }
        i = i + 1;
    }
    proof {
        assert(all.take(all.len() as int) =~= all);
    }
}

/// The rows that have cells, in order.
fn keep_nonempty_rows<R>(rows: Vec<Vec<R>>) -> (kept: Vec<Vec<R>>)
    ensures
        rows_view(kept@) == nonempty_rows(rows_view(rows@)),
{
    let ghost orig = rows_view(rows@);
    let mut rows = rows;
    let mut kept: Vec<Vec<R>> = Vec::new();
    let mut i: usize = 0;
    while i < rows.len()
        invariant
            i <= rows@.len(),
            rows@.len() == orig.len(),
            forall|k: int| i <= k < rows@.len() ==> (#[trigger] rows@[k])@ == orig[k],
            rows_view(kept@) == nonempty_rows(orig.take(i as int)),
        decreases rows@.len() - i,
    {
        let mut row: Vec<R> = Vec::new();
        rows.set_and_swap(i, &mut row);
        let ghost kbefore = rows_view(kept@);
        proof {
            assert(orig.take(i + 1).drop_last() =~= orig.take(i as int));
            assert(orig.take(i + 1).last() == orig[i as int]);
        }
        proof {
            reveal(Seq::filter);
            assert(row@ == orig[i as int]);
            assert(nonempty_rows(orig.take(i + 1)) == if orig[i as int].len() > 0 {
                nonempty_rows(orig.take(i as int)).push(orig[i as int])
            } else {
                nonempty_rows(orig.take(i as int))
            });
        }
        if row.len() > 0 {
            kept.push(row);
            proof {
                assert(rows_view(kept@) =~= kbefore.push(orig[i as int]));
            }
        }
        i = i + 1;
    }
    proof {
        assert(orig.take(orig.len() as int) =~= orig);
    }
    kept
}

proof fn lemma_clear_removed_len<R>(rows: Seq<Seq<R>>, removed: Seq<usize>)
    ensures
        clear_removed(rows, removed).0.len() == rows.len(),
    decreases removed.len(),
{
    if removed.len() > 0 {
        lemma_clear_removed_len(rows, removed.drop_last());
    }
}

proof fn lemma_put_added_len<R>(rows: Seq<Seq<R>>, added: Seq<(usize, Option<Seq<R>>)>)
    ensures
        put_added(rows, added).len() == rows.len(),
    decreases added.len(),
{
    if added.len() > 0 {
        lemma_put_added_len(rows, added.drop_last());
    }
}

/// The rows taken out keep the row count, and when the moves fit, each
/// goes to an existing row.
proof fn lemma_take_moved<R>(rows: Seq<Seq<R>>, moved: Seq<(usize, usize)>)
    requires
        moves_fit(rows.len() as int, moved),
    ensures
        take_moved(rows, moved).0.len() == rows.len(),
        forall|k: int|
            0 <= k < take_moved(rows, moved).1.len() ==> (#[trigger] take_moved(rows, moved).1[k]).0
                < rows.len(),
    decreases moved.len(),
{
    if moved.len() > 0 {
        let d = moved.drop_last();
        assert(moves_fit(rows.len() as int, d)) by {
            assert forall|j: int| 0 <= j < d.len() && (#[trigger] d[j]).0 < rows.len() implies d[j].1
                < rows.len() by {
                assert(d[j] == moved[j]);
            }
        }
        lemma_take_moved(rows, d);
        assert(moved.last() == moved[moved.len() - 1]);
    }
}

/// What simple diffs do to the rows: an empty diff keeps every row that has
/// cells and disposes of nothing; a clear (with nothing added or moved)
/// leaves no rows and disposes of every cell, row by row; removing the one
/// row `i` disposes of exactly its cells and keeps the others in order.
pub proof fn lemma_table_diff_laws<R>(rows: Seq<Seq<R>>, removed: Seq<usize>, i: usize)
    ensures
        table_diff_result(rows, false, seq![], seq![], seq![]) == (nonempty_rows(rows), Seq::<R>::empty()),
        table_diff_result(rows, true, removed, seq![], seq![]) == (Seq::<Seq<R>>::empty(), rows.flatten()),
        i < rows.len() ==> table_diff_result(rows, false, seq![i], seq![], seq![]) == (
            nonempty_rows(rows.update(i as int, Seq::empty())),
            rows[i as int],
        ),
{
    let e = Seq::<R>::empty();
    assert(grown_rows(rows, false, 0, 0) =~= rows);
    assert(grown_rows(rows, true, 0, 0) =~= Seq::<Seq<R>>::empty());
    assert(nonempty_rows(Seq::<Seq<R>>::empty()) =~= Seq::<Seq<R>>::empty()) by {
        reveal(Seq::filter);
    }
    assert(Seq::<R>::empty() + Seq::<R>::empty() =~= Seq::<R>::empty());
    assert(rows.flatten() + Seq::<R>::empty() =~= rows.flatten());
    if i < rows.len() {
        assert(grown_rows(rows, false, 1, 0) =~= rows);
        let one = seq![i];
        assert(one.drop_last() =~= Seq::<usize>::empty());
        assert(one.last() == i);
        assert(clear_removed(rows, Seq::<usize>::empty()) == (rows, e));
        assert(clear_removed(rows, one.drop_last()) == (rows, e));
        assert(clear_removed(rows, one) == (rows.update(i as int, e), e + rows[i as int]));
        assert(e + rows[i as int] =~= rows[i as int]);
        assert(Seq::<R>::empty() + rows[i as int] =~= rows[i as int]);
    }
}

/// Applies a diff of the table's data to its rows of cells: a clear drops
/// every row first; the rows grow by the excess of added over removed
/// rows; removed rows are emptied, moving rows taken out, added rows put
/// in place, moving rows put at their destinations, and rows left without
/// cells dropped. Returns the cells removed, to be disposed of.
pub fn apply_table_diff<R>(row_views: &mut Vec<Vec<R>>, diff: TableDiff<R>) -> (disposed: Vec<R>)
    requires
        moves_fit(
            grown_len(
                old(row_views)@.len() as int,
                diff.clear,
                diff.removed@.len() as int,
                diff.added@.len() as int,
            ),
            diff.moved@,
        ),
    ensures
        (rows_view(final(row_views)@), disposed@) == table_diff_result(
            rows_view(old(row_views)@),
            diff.clear,
            diff.removed@,
            diff.moved@,
            added_view(diff.added@),
        ),
        forall|k: int| 0 <= k < final(row_views)@.len() ==> (#[trigger] final(row_views)@[k])@.len() > 0,
{
    let ghost start = rows_view(row_views@);
    let TableDiff { clear, removed, moved, added } = diff;
    let ghost added_v = added_view(added@);
    let mut removed = removed;
    let mut disposed: Vec<R> = Vec::new();
    if clear {
        let mut old_rows: Vec<Vec<R>> = Vec::new();
        std::mem::swap(&mut old_rows, row_views);
        disposed = drain_cells(old_rows);
        removed = Vec::new();
    }
    let ghost cleared = disposed@;
    let ghost base = rows_view(row_views@);
    if added.len() >= removed.len() {
        let extra = added.len() - removed.len();
        grow_rows(row_views, extra);
    } else {
        proof {
            assert(rows_view(row_views@) =~= base + Seq::new(0, |i: int| Seq::<R>::empty()));
        }
    }
    let ghost grown = rows_view(row_views@);
    proof {
        assert(grown == grown_rows(start, clear, removed@.len() as int, added@.len() as int));
    }
    clear_removed_rows(row_views, &removed, &mut disposed);
    proof {
        lemma_clear_removed_len(grown, removed@);
        lemma_take_moved(rows_view(row_views@), moved@);
    }
    let ghost r1 = rows_view(row_views@);
    let pending = take_moved_rows(row_views, &moved);
    proof {
        lemma_put_added_len(rows_view(row_views@), added_v);
    }
    put_added_rows(row_views, added);
    proof {
        assert forall|k: int| 0 <= k < pending@.len() implies (#[trigger] pending@[k]).0
            < row_views@.len() by {
            assert(pending_view(pending@)[k] == take_moved(r1, moved@).1[k]);
            assert(pending_view(pending@)[k].0 == pending@[k].0);
        }
    }
    put_moved_rows(row_views, pending);
    let mut rows: Vec<Vec<R>> = Vec::new();
    std::mem::swap(&mut rows, row_views);
    *row_views = keep_nonempty_rows(rows);
    proof {
        let ghost fv = rows_view(row_views@);
        assert forall|k: int| 0 <= k < row_views@.len() implies (#[trigger] row_views@[k])@.len() > 0 by {
            assert(fv[k] == row_views@[k]@);
            reveal(Seq::filter);
            rows_view(rows@).lemma_filter_pred(|r: Seq<R>| r.len() > 0, k);
        }
        assert(disposed@ =~= disposed@.take(cleared.len() as int) + disposed@.skip(
            cleared.len() as int,
        ));
    }
    disposed
}

} // verus!
