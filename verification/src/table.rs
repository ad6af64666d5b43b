//! Tables of records, as sequences in strictly ascending order of identifier.
//!
//! A table never holds two records with one identifier, and its order is
//! fixed by the identifiers alone, so that two tables with the same records
//! are the same sequence.

use crate::model::{WindowInfo, WindowInfoView, WorkspaceInfo, WorkspaceInfoView};
use vstd::prelude::*;

verus! {

/// The identifier of a window record.
pub open spec fn window_key() -> spec_fn(WindowInfoView) -> u64 {
    |w: WindowInfoView| w.id
}

/// The identifier of a workspace record.
pub open spec fn workspace_key() -> spec_fn(WorkspaceInfoView) -> u64 {
    |w: WorkspaceInfoView| w.id
}

/// A record that a table can hold: one with an identifier.
pub trait Row: DeepView + Sized {
    /// The identifier of a record, read from its mathematical value.
    spec fn key() -> spec_fn(Self::V) -> u64;

    /// The identifier of the record.
    fn id(&self) -> (id: u64)
        ensures
            id == Self::key()(self.deep_view()),
    ;
}

impl Row for WindowInfo {
    open spec fn key() -> spec_fn(WindowInfoView) -> u64 {
        window_key()
    }

    fn id(&self) -> (id: u64) {
        self.id
    }
}

impl Row for WorkspaceInfo {
    open spec fn key() -> spec_fn(WorkspaceInfoView) -> u64 {
        workspace_key()
    }

    fn id(&self) -> (id: u64) {
        self.id
    }
}

/// The identifiers rise strictly along the sequence.
pub open spec fn ascending<T>(rows: Seq<T>, key: spec_fn(T) -> u64) -> bool {
    forall|i: int, j: int| 0 <= i < j < rows.len() ==> key(rows[i]) < key(rows[j])
}

/// The records whose identifier is smaller than `id`.
pub open spec fn below<T>(key: spec_fn(T) -> u64, id: u64) -> spec_fn(T) -> bool {
    |row: T| key(row) < id
}

/// The records whose identifier is greater than `id`.
pub open spec fn above<T>(key: spec_fn(T) -> u64, id: u64) -> spec_fn(T) -> bool {
    |row: T| key(row) > id
}

/// The records whose identifier is not `id`.
pub open spec fn other_than<T>(key: spec_fn(T) -> u64, id: u64) -> spec_fn(T) -> bool {
    |row: T| key(row) != id
}

/// Some record of the table has the identifier `id`.
pub open spec fn holds<T>(rows: Seq<T>, key: spec_fn(T) -> u64, id: u64) -> bool {
    exists|i: int| 0 <= i < rows.len() && key(#[trigger] rows[i]) == id
}

/// The record with the identifier `id`, if the table has one.
pub open spec fn lookup<T>(rows: Seq<T>, key: spec_fn(T) -> u64, id: u64) -> Option<T> {
    if holds(rows, key, id) {
        Some(rows[choose|i: int| 0 <= i < rows.len() && key(#[trigger] rows[i]) == id])
    } else {
        None
    }
}

/// The table with `row` put in: a record with the same identifier is
/// replaced as a whole, and every other record stays.
pub open spec fn upsert<T>(rows: Seq<T>, key: spec_fn(T) -> u64, row: T) -> Seq<T> {
    rows.filter(below(key, key(row))).push(row) + rows.filter(above(key, key(row)))
}

/// The table without the record that has the identifier `id`.
pub open spec fn without<T>(rows: Seq<T>, key: spec_fn(T) -> u64, id: u64) -> Seq<T> {
    rows.filter(other_than(key, id))
}

/// The table built from a list by putting its records in one after the
/// other: of two records with one identifier the later one stays.
pub open spec fn rebuilt<T>(list: Seq<T>, key: spec_fn(T) -> u64) -> Seq<T>
    decreases list.len(),
{
    if list.len() == 0 {
        Seq::empty()
    } else {
        upsert(rebuilt(list.drop_last(), key), key, list.last())
    }
}

/// A filter that accepts exactly the first `n` records keeps exactly those.
pub proof fn lemma_filter_front<T>(rows: Seq<T>, pred: spec_fn(T) -> bool, n: int)
    requires
        0 <= n <= rows.len(),
        forall|i: int| 0 <= i < rows.len() ==> (pred(#[trigger] rows[i]) <==> i < n),
    ensures
        rows.filter(pred) == rows.take(n),
    decreases rows.len(),
{
    reveal(Seq::filter);
    if rows.len() > 0 {
        let front = rows.drop_last();
        if n == rows.len() {
            lemma_filter_front(front, pred, n - 1);
        } else {
            lemma_filter_front(front, pred, n);
        }
    }
}

/// A filter that rejects exactly the first `n` records keeps exactly the rest.
pub proof fn lemma_filter_back<T>(rows: Seq<T>, pred: spec_fn(T) -> bool, n: int)
    requires
        0 <= n <= rows.len(),
        forall|i: int| 0 <= i < rows.len() ==> (pred(#[trigger] rows[i]) <==> i >= n),
    ensures
        rows.filter(pred) == rows.skip(n),
    decreases rows.len(),
{
    reveal(Seq::filter);
    if rows.len() > 0 {
        if n == rows.len() {
            lemma_filter_front(rows, pred, 0);
        } else {
            lemma_filter_back(rows.drop_last(), pred, n);
        }
    }
}

/// A filter that rejects exactly the record at `n` removes exactly that one.
pub proof fn lemma_filter_except<T>(rows: Seq<T>, pred: spec_fn(T) -> bool, n: int)
    requires
        0 <= n < rows.len(),
        forall|i: int| 0 <= i < rows.len() ==> (pred(#[trigger] rows[i]) <==> i != n),
    ensures
        rows.filter(pred) == rows.remove(n),
    decreases rows.len(),
{
    reveal(Seq::filter);
    let front = rows.drop_last();
    if n == rows.len() - 1 {
        lemma_filter_front(front, pred, front.len() as int);
    } else {
        lemma_filter_except(front, pred, n);
    }
}

/// What `upsert` does, told by the place at which the identifiers reach
/// that of the new record: it overwrites the record there if that has the
/// same identifier, and else makes room for the new one there.
pub proof fn lemma_upsert_at<T>(rows: Seq<T>, key: spec_fn(T) -> u64, row: T, pos: int)
    requires
        ascending(rows, key),
        0 <= pos <= rows.len(),
        forall|i: int| 0 <= i < pos ==> key(#[trigger] rows[i]) < key(row),
        forall|i: int| pos <= i < rows.len() ==> key(#[trigger] rows[i]) >= key(row),
    ensures
        pos < rows.len() && key(rows[pos]) == key(row) ==> upsert(rows, key, row)
            == rows.update(pos, row),
        !(pos < rows.len() && key(rows[pos]) == key(row)) ==> upsert(rows, key, row)
            == rows.insert(pos, row),
{
    lemma_filter_front(rows, below(key, key(row)), pos);
    if pos < rows.len() && key(rows[pos]) == key(row) {
        lemma_filter_back(rows, above(key, key(row)), pos + 1);
    } else {
        lemma_filter_back(rows, above(key, key(row)), pos);
    }
}

/// What `without` does, told by the place at which the identifiers reach
/// `id`: it removes the record there if that has the identifier, and else
/// leaves the table as it is.
pub proof fn lemma_without_at<T>(rows: Seq<T>, key: spec_fn(T) -> u64, id: u64, pos: int)
    requires
        ascending(rows, key),
        0 <= pos <= rows.len(),
        forall|i: int| 0 <= i < pos ==> key(#[trigger] rows[i]) < id,
        forall|i: int| pos <= i < rows.len() ==> key(#[trigger] rows[i]) >= id,
    ensures
        pos < rows.len() && key(rows[pos]) == id ==> without(rows, key, id) == rows.remove(pos),
        !(pos < rows.len() && key(rows[pos]) == id) ==> without(rows, key, id) == rows,
{
    if pos < rows.len() && key(rows[pos]) == id {
        lemma_filter_except(rows, other_than(key, id), pos);
    } else {
        lemma_filter_front(rows, other_than(key, id), rows.len() as int);
    }
}

/// In an ascending table the identifiers below `id` come first: `n` is the
/// number of records before the first whose identifier is at least `id`.
pub open spec fn slot<T>(rows: Seq<T>, key: spec_fn(T) -> u64, id: u64) -> int {
    rows.filter(below(key, id)).len() as int
}

/// Some place divides an ascending table at `id`.
proof fn lemma_divide<T>(rows: Seq<T>, key: spec_fn(T) -> u64, id: u64) -> (n: int)
    requires
        ascending(rows, key),
    ensures
        0 <= n <= rows.len(),
        forall|i: int| 0 <= i < n ==> key(#[trigger] rows[i]) < id,
        forall|i: int| n <= i < rows.len() ==> key(#[trigger] rows[i]) >= id,
    decreases rows.len(),
{
    if rows.len() == 0 {
        0
    } else {
        let front = rows.drop_last();
        let m = lemma_divide(front, key, id);
        if key(rows.last()) < id {
            rows.len() as int
        } else {
            assert forall|i: int| 0 <= i < m implies key(#[trigger] rows[i]) < id by {
                assert(front[i] == rows[i]);
            }
            assert forall|i: int| m <= i < rows.len() implies key(#[trigger] rows[i]) >= id by {
                if i < rows.len() - 1 {
                    assert(front[i] == rows[i]);
                }
            }
            m
        }
    }
}

/// The place that `slot` names divides the table at `id`.
pub proof fn lemma_slot<T>(rows: Seq<T>, key: spec_fn(T) -> u64, id: u64)
    requires
        ascending(rows, key),
    ensures
        0 <= slot(rows, key, id) <= rows.len(),
        forall|i: int| 0 <= i < slot(rows, key, id) ==> key(#[trigger] rows[i]) < id,
        forall|i: int| slot(rows, key, id) <= i < rows.len() ==> key(#[trigger] rows[i]) >= id,
{
    let n = lemma_divide(rows, key, id);
    lemma_filter_front(rows, below(key, id), n);
}

/// What `lookup` finds, told by the place at which the identifiers reach `id`.
pub proof fn lemma_lookup_at<T>(rows: Seq<T>, key: spec_fn(T) -> u64, id: u64, pos: int)
    requires
        ascending(rows, key),
        0 <= pos <= rows.len(),
        forall|i: int| 0 <= i < pos ==> key(#[trigger] rows[i]) < id,
        forall|i: int| pos <= i < rows.len() ==> key(#[trigger] rows[i]) >= id,
    ensures
        holds(rows, key, id) <==> pos < rows.len() && key(rows[pos]) == id,
        holds(rows, key, id) ==> lookup(rows, key, id) == Some(rows[pos]),
        !holds(rows, key, id) ==> lookup(rows, key, id).is_none(),
{
}

/// In an ascending table each record is the one that `lookup` finds under
/// its identifier.
pub proof fn lemma_lookup_row<T>(rows: Seq<T>, key: spec_fn(T) -> u64, i: int)
    requires
        ascending(rows, key),
        0 <= i < rows.len(),
    ensures
        lookup(rows, key, key(rows[i])) == Some(rows[i]),
{
}

/// After `row` was put into an ascending table, `lookup` finds `row` under
/// its identifier, and under every other identifier what it found before.
pub proof fn lemma_lookup_upsert<T>(rows: Seq<T>, key: spec_fn(T) -> u64, row: T, id: u64)
    requires
        ascending(rows, key),
    ensures
        lookup(upsert(rows, key, row), key, id) == if id == key(row) {
            Some(row)
        } else {
            lookup(rows, key, id)
        },
{
    let pos = slot(rows, key, key(row));
    let after = upsert(rows, key, row);
    lemma_slot(rows, key, key(row));
    lemma_upsert_at(rows, key, row, pos);
    lemma_upsert_ascending(rows, key, row);
    let replaced = pos < rows.len() && key(rows[pos]) == key(row);
    if id == key(row) {
        lemma_lookup_row(after, key, pos);
    } else if holds(rows, key, id) {
        let i = choose|i: int| 0 <= i < rows.len() && key(#[trigger] rows[i]) == id;
        lemma_lookup_row(rows, key, i);
        let j = if replaced || i < pos {
            i
        } else {
            i + 1
        };
        lemma_lookup_row(after, key, j);
    }
}

/// After the record `gone` was taken out of an ascending table, `lookup`
/// finds nothing under `gone`, and under every other identifier what it
/// found before.
pub proof fn lemma_lookup_without<T>(rows: Seq<T>, key: spec_fn(T) -> u64, gone: u64, id: u64)
    requires
        ascending(rows, key),
    ensures
        lookup(without(rows, key, gone), key, id) == if id == gone {
            None
        } else {
            lookup(rows, key, id)
        },
{
    let pos = slot(rows, key, gone);
    let after = without(rows, key, gone);
    lemma_slot(rows, key, gone);
    lemma_without_at(rows, key, gone, pos);
    lemma_without_ascending(rows, key, gone);
    let removed = pos < rows.len() && key(rows[pos]) == gone;
    if holds(after, key, id) {
        let j = choose|j: int| 0 <= j < after.len() && key(#[trigger] after[j]) == id;
        let i = if !removed || j < pos {
            j
        } else {
            j + 1
        };
        lemma_lookup_row(rows, key, i);
        lemma_lookup_row(after, key, j);
    } else if id != gone && holds(rows, key, id) {
        let i = choose|i: int| 0 <= i < rows.len() && key(#[trigger] rows[i]) == id;
        let j = if !removed || i < pos {
            i
        } else {
            i - 1
        };
        assert(after[j] == rows[i]);
    }
}

/// Putting a record into an ascending table leaves it ascending.
pub proof fn lemma_upsert_ascending<T>(rows: Seq<T>, key: spec_fn(T) -> u64, row: T)
    requires
        ascending(rows, key),
    ensures
        ascending(upsert(rows, key, row), key),
{
    lemma_slot(rows, key, key(row));
    lemma_upsert_at(rows, key, row, slot(rows, key, key(row)));
}

/// Taking a record out of an ascending table leaves it ascending.
pub proof fn lemma_without_ascending<T>(rows: Seq<T>, key: spec_fn(T) -> u64, id: u64)
    requires
        ascending(rows, key),
    ensures
        ascending(without(rows, key, id), key),
{
    lemma_slot(rows, key, id);
    lemma_without_at(rows, key, id, slot(rows, key, id));
}

/// A table built from a list is ascending, whatever the list holds.
pub proof fn lemma_rebuilt_ascending<T>(list: Seq<T>, key: spec_fn(T) -> u64)
    ensures
        ascending(rebuilt(list, key), key),
    decreases list.len(),
{
    if list.len() > 0 {
        lemma_rebuilt_ascending(list.drop_last(), key);
        lemma_upsert_ascending(rebuilt(list.drop_last(), key), key, list.last());
    }
}

/// The place in an ascending table at which the identifiers reach `id`:
/// before it they are smaller, from it on they are not.
pub(crate) fn place_of<T: Row>(rows: &Vec<T>, id: u64) -> (pos: usize)
    requires
        ascending(rows.deep_view(), T::key()),
    ensures
        pos == slot(rows.deep_view(), T::key(), id),
        pos <= rows.len(),
        forall|i: int| 0 <= i < pos ==> T::key()(#[trigger] rows.deep_view()[i]) < id,
        forall|i: int| pos <= i < rows.len() ==> T::key()(#[trigger] rows.deep_view()[i]) >= id,
{
    let mut pos: usize = 0;
    while pos < rows.len() && rows[pos].id() < id
        invariant
            pos <= rows.len(),
            forall|i: int| 0 <= i < pos ==> T::key()(#[trigger] rows.deep_view()[i]) < id,
        decreases rows.len() - pos,
    {
        pos += 1;
    }
    proof {
        assert forall|i: int| pos <= i < rows.len() implies T::key()(
            #[trigger] rows.deep_view()[i],
        ) >= id by {
            if i > pos {
                assert(T::key()(rows.deep_view()[pos as int]) < T::key()(rows.deep_view()[i]));
            }
        }
        lemma_filter_front(rows.deep_view(), below(T::key(), id), pos as int);
    }
    pos
}

/// Whether the record at `pos` has the identifier `id`.
pub(crate) fn is_at<T: Row>(rows: &Vec<T>, pos: usize, id: u64) -> (found: bool)
    ensures
        found == (pos < rows.len() && T::key()(rows.deep_view()[pos as int]) == id),
{
    pos < rows.len() && rows[pos].id() == id
}

/// Puts a record into an ascending table, in place of the one with its
/// identifier if there is one.
pub(crate) fn put<T: Row>(rows: &mut Vec<T>, row: T)
    requires
        ascending(old(rows).deep_view(), T::key()),
    ensures
        final(rows).deep_view() == upsert(old(rows).deep_view(), T::key(), row.deep_view()),
        ascending(final(rows).deep_view(), T::key()),
{
    let ghost before = rows.deep_view();
    let ghost value = row.deep_view();
    let id = row.id();
    let pos = place_of(rows, id);
    proof {
        lemma_upsert_at(before, T::key(), value, pos as int);
        lemma_upsert_ascending(before, T::key(), value);
    }
    if is_at(rows, pos, id) {
        rows.set(pos, row);
    } else {
        rows.insert(pos, row);
    }
}

/// Takes the record with the identifier `id` out of an ascending table, if
/// it is there.
pub(crate) fn take_out<T: Row>(rows: &mut Vec<T>, id: u64)
    requires
        ascending(old(rows).deep_view(), T::key()),
    ensures
        final(rows).deep_view() == without(old(rows).deep_view(), T::key(), id),
        ascending(final(rows).deep_view(), T::key()),
{
    let ghost before = rows.deep_view();
    let pos = place_of(rows, id);
    proof {
        lemma_without_at(before, T::key(), id, pos as int);
        lemma_without_ascending(before, T::key(), id);
    }
    if is_at(rows, pos, id) {
        rows.remove(pos);
    }
}

/// The ascending table of the records that a list names.
pub fn table_of<T: Row>(list: Vec<T>) -> (rows: Vec<T>)
    ensures
        rows.deep_view() == rebuilt(list.deep_view(), T::key()),
        ascending(rows.deep_view(), T::key()),
{
    let ghost all = list.deep_view();
    let mut rows: Vec<T> = Vec::new();
    for row in it: list.into_iter()
        invariant
            it.seq().len() == all.len(),
            forall|i: int| 0 <= i < all.len() ==> (#[trigger] it.seq()[i]).deep_view() == all[i],
            rows.deep_view() == rebuilt(all.take(it.index()), T::key()),
            ascending(rows.deep_view(), T::key()),
    {
        proof {
            let n = it.index();
            assert(all.take(n + 1).drop_last() =~= all.take(n));
        }
        put(&mut rows, row);
    }
    proof {
        assert(all.take(all.len() as int) =~= all);
    }
    rows
}

} // verus!
