use vstd::prelude::*;

use crate::storage::table::{DatabaseError, DupSort, Key, Rows, Table, TableRow};
use crate::storage::transaction::{rows_of, Transaction};

verus! {

/// Whether rows are in the order of their keys.
pub open spec fn sorted<T: Table>(rows: Rows<T>) -> bool {
    forall|i: int, j: int|
        0 <= i <= j < rows.len() ==> (#[trigger] rows[i]).0.le((#[trigger] rows[j]).0)
}

/// Whether a key lies between two, the first of which may be missing.
pub open spec fn within<K: Key>(key: K, from: Option<K>, to: K) -> bool {
    (from matches Some(from) ==> from.le(key)) && key.le(to)
}

/// The rows whose key lies between two.
pub open spec fn rows_within<T: Table>(
    rows: Rows<T>,
    from: Option<T::Key>,
    to: T::Key,
) -> Rows<T> {
    rows.filter(|row: TableRow<T>| within(row.0, from, to))
}

/// The place of the next row with another key than the one at a place, or the number of rows. The
/// place before the first row is -1.
pub open spec fn next_key<T: Table>(rows: Rows<T>, at: int) -> int {
    next_other::<T>(rows, at, at + 1)
}

/// The first place from `i` on with another key than the one at `at`, or the number of rows.
pub open spec fn next_other<T: Table>(rows: Rows<T>, at: int, i: int) -> int
    decreases rows.len() - i,
{
    if i >= rows.len() {
        rows.len() as int
    } else if at < 0 || rows[i].0 != rows[at].0 {
        i
    } else {
        next_other::<T>(rows, at, i + 1)
    }
}

/// Behind the last row of a key comes the next key.
pub proof fn lemma_next_key<T: Table>(rows: Rows<T>, at: int)
    requires
        -1 <= at < rows.len(),
        at >= 0 && at + 1 < rows.len() ==> rows[at + 1].0 != rows[at].0,
    ensures
        next_key::<T>(rows, at) == at + 1,
{
}

/// Of rows in order, those in a range lie side by side.
pub proof fn lemma_range<T: Table>(
    rows: Rows<T>,
    from: Option<T::Key>,
    to: T::Key,
    start: int,
    end: int,
)
    requires
        sorted::<T>(rows),
        0 <= start <= end <= rows.len(),
        from is None ==> start == 0,
        from matches Some(from) ==> (start < rows.len() ==> from.le(rows[start].0)) && (forall|
            i: int,
        |
            0 <= i < start ==> !from.le((#[trigger] rows[i]).0)),
        forall|i: int| start <= i < end ==> (#[trigger] rows[i]).0.le(to),
        end < rows.len() ==> !rows[end].0.le(to),
    ensures
        rows_within::<T>(rows, from, to) == rows.subrange(start, end),
{
    let chosen = |row: TableRow<T>| within(row.0, from, to);
    assert forall|i: int| start <= i < end implies chosen(#[trigger] rows[i]) by {
        if let Some(from) = from {
            assert(rows[start].0.le(rows[i].0));
            T::Key::le_transitive(from, rows[start].0, rows[i].0);
        }
    }
    assert forall|i: int| end <= i < rows.len() implies !chosen(#[trigger] rows[i]) by {
        if rows[i].0.le(to) {
            assert(rows[end].0.le(rows[i].0));
            T::Key::le_transitive(rows[end].0, rows[i].0, to);
        }
    }
    assert forall|i: int| 0 <= i < start implies !chosen(#[trigger] rows[i]) by {}
    lemma_filter_range(rows, chosen, start, end, rows.len() as int);
    assert(rows.take(rows.len() as int) =~= rows);
}

/// What a filter keeps of rows that it takes only side by side.
proof fn lemma_filter_range<R>(
    rows: Seq<R>,
    chosen: spec_fn(R) -> bool,
    start: int,
    end: int,
    n: int,
)
    requires
        0 <= start <= end <= rows.len(),
        0 <= n <= rows.len(),
        forall|i: int| start <= i < end ==> chosen(#[trigger] rows[i]),
        forall|i: int| end <= i < rows.len() ==> !chosen(#[trigger] rows[i]),
        forall|i: int| 0 <= i < start ==> !chosen(#[trigger] rows[i]),
    ensures
        rows.take(n).filter(chosen) == (if n <= start {
            Seq::empty()
        } else if n <= end {
            rows.subrange(start, n)
        } else {
            rows.subrange(start, end)
        }),
    decreases n,
{
    reveal(Seq::filter);
    if n > 0 {
        lemma_filter_range(rows, chosen, start, end, n - 1);
        assert(rows.take(n).drop_last() =~= rows.take(n - 1));
        assert(rows.take(n).last() == rows[n - 1]);
        if start < n <= end {
            assert(rows.subrange(start, n - 1).push(rows[n - 1]) =~= rows.subrange(start, n));
        }
        if n - 1 == start {
            assert(rows.subrange(start, n - 1) =~= Seq::empty());
        }
    }
    if start == end {
        assert(rows.subrange(start, end) =~= Seq::empty());
    }
}

/// Of rows in order, those of a range up to some place are the first of the range.
pub proof fn lemma_range_prefix<T: Table>(
    rows: Rows<T>,
    from: Option<T::Key>,
    to: T::Key,
    start: int,
    end: int,
)
    requires
        sorted::<T>(rows),
        0 <= start <= end <= rows.len(),
        from is None ==> start == 0,
        from matches Some(from) ==> (start < rows.len() ==> from.le(rows[start].0)) && (forall|
            i: int,
        |
            0 <= i < start ==> !from.le((#[trigger] rows[i]).0)),
        forall|i: int| start <= i < end ==> (#[trigger] rows[i]).0.le(to),
    ensures
        end - start <= rows_within::<T>(rows, from, to).len(),
        rows_within::<T>(rows, from, to).take(end - start) == rows.subrange(start, end),
    decreases rows.len() - end,
{
    let range = rows_within::<T>(rows, from, to);
    if end < rows.len() && rows[end].0.le(to) {
        lemma_range_prefix::<T>(rows, from, to, start, end + 1);
        assert(range.take(end - start) =~= range.take(end + 1 - start).drop_last());
        assert(rows.subrange(start, end) =~= rows.subrange(start, end + 1).drop_last());
    } else {
        lemma_range::<T>(rows, from, to, start, end);
        assert(range.take(end - start) =~= range);
    }
}

/// A place among the rows of a table, counted from zero.
pub type Place = int;

/// A cursor that reads a table. Which table it is stands in its type nowhere: the calls name it.
pub trait DbCursorRO: Sized {
    /// Whether the cursor was made for a table.
    spec fn is_over<T: Table>(&self) -> bool;

    /// The rows of the table, in their order.
    spec fn rows<T: Table>(&self) -> Rows<T>;

    /// The place that the cursor stands at. Before the first row it is -1.
    spec fn at(&self) -> Place;

    /// Whether the cursor may give an error.
    spec fn fails(&self, error: DatabaseError) -> bool;

    /// Goes to the first row.
    fn first<T: Table>(&mut self) -> (r: Result<Option<TableRow<T>>, DatabaseError>)
        requires
            old(self).is_over::<T>(),
        ensures
            final(self).is_over::<T>(),
            final(self).rows::<T>() == old(self).rows::<T>(),
            forall|error: DatabaseError| final(self).fails(error) == old(self).fails(error),
            match r {
                Ok(Some(row)) => {
                    &&& old(self).rows::<T>().len() > 0
                    &&& row == old(self).rows::<T>()[0]
                    &&& final(self).at() == 0
                },
                Ok(None) => old(self).rows::<T>().len() == 0,
                Err(error) => old(self).fails(error),
            },
    ;

    /// Goes to the next row.
    fn next<T: Table>(&mut self) -> (r: Result<Option<TableRow<T>>, DatabaseError>)
        requires
            old(self).is_over::<T>(),
        ensures
            final(self).is_over::<T>(),
            final(self).rows::<T>() == old(self).rows::<T>(),
            forall|error: DatabaseError| final(self).fails(error) == old(self).fails(error),
            match r {
                Ok(Some(row)) => {
                    &&& 0 <= old(self).at() + 1 < old(self).rows::<T>().len()
                    &&& final(self).at() == old(self).at() + 1
                    &&& row == old(self).rows::<T>()[final(self).at()]
                },
                Ok(None) => old(self).at() + 1 >= old(self).rows::<T>().len() && final(self).at()
                    == old(self).at(),
                Err(error) => old(self).fails(error),
            },
    ;

    /// Goes to the first row whose key does not come before one.
    fn seek<T: Table>(&mut self, key: T::Key) -> (r: Result<Option<TableRow<T>>, DatabaseError>)
        requires
            old(self).is_over::<T>(),
        ensures
            final(self).is_over::<T>(),
            final(self).rows::<T>() == old(self).rows::<T>(),
            forall|error: DatabaseError| final(self).fails(error) == old(self).fails(error),
            match r {
                Ok(Some(row)) => {
                    &&& 0 <= final(self).at() < old(self).rows::<T>().len()
                    &&& row == old(self).rows::<T>()[final(self).at()]
                    &&& key.le(row.0)
                    &&& forall|i: int|
                        0 <= i < final(self).at() ==> !key.le((#[trigger] old(self).rows::<T>()[i]).0)
                },
                Ok(None) => forall|i: int|
                    0 <= i < old(self).rows::<T>().len() ==> !key.le((#[trigger] old(self).rows::<T>()[i]).0),
                Err(error) => old(self).fails(error),
            },
    ;

    /// Goes to the first row with a key.
    fn seek_exact<T: Table>(&mut self, key: T::Key) -> (r: Result<Option<TableRow<T>>, DatabaseError>)
        requires
            old(self).is_over::<T>(),
        ensures
            final(self).is_over::<T>(),
            final(self).rows::<T>() == old(self).rows::<T>(),
            forall|error: DatabaseError| final(self).fails(error) == old(self).fails(error),
            match r {
                Ok(Some(row)) => {
                    &&& 0 <= final(self).at() < old(self).rows::<T>().len()
                    &&& row == old(self).rows::<T>()[final(self).at()]
                    &&& row.0 == key
                    &&& forall|i: int|
                        0 <= i < final(self).at() ==> (#[trigger] old(self).rows::<T>()[i]).0 != key
                },
                Ok(None) => forall|i: int|
                    0 <= i < old(self).rows::<T>().len() ==> (#[trigger] old(self).rows::<T>()[i]).0 != key,
                Err(error) => old(self).fails(error),
            },
    ;
}

/// A cursor that reads a table in which a key may have several values.
pub trait DbDupCursorRO: DbCursorRO {
    /// Goes to the next row, if it has the same key.
    fn next_dup<T: DupSort>(&mut self) -> (r: Result<Option<TableRow<T>>, DatabaseError>)
        requires
            old(self).is_over::<T>(),
        ensures
            final(self).is_over::<T>(),
            final(self).rows::<T>() == old(self).rows::<T>(),
            forall|error: DatabaseError| final(self).fails(error) == old(self).fails(error),
            ({
                let rows = old(self).rows::<T>();
                let at = old(self).at();
                let more = 0 <= at && at + 1 < rows.len() && rows[at + 1].0 == rows[at].0;
                match r {
                    Ok(Some(row)) => more && final(self).at() == at + 1 && row == rows[at + 1],
                    Ok(None) => !more && final(self).at() == at,
                    Err(error) => old(self).fails(error),
                }
            }),
    ;

    /// Goes to the first row of the next key.
    fn next_no_dup<T: DupSort>(&mut self) -> (r: Result<Option<TableRow<T>>, DatabaseError>)
        requires
            old(self).is_over::<T>(),
        ensures
            final(self).is_over::<T>(),
            final(self).rows::<T>() == old(self).rows::<T>(),
            forall|error: DatabaseError| final(self).fails(error) == old(self).fails(error),
            ({
                let rows = old(self).rows::<T>();
                let next = next_key::<T>(rows, old(self).at());
                match r {
                    Ok(Some(row)) => next < rows.len() && final(self).at() == next && row
                        == rows[next],
                    Ok(None) => next == rows.len() && final(self).at() == old(self).at(),
                    Err(error) => old(self).fails(error),
                }
            }),
    ;
}

/// A cursor through which a transaction writes a table.
pub trait DbCursorRW<TX: Transaction>: Sized {
    /// Whether the cursor was made for a table.
    spec fn writes<T: Table>(&self) -> bool;

    /// Puts a row behind all others. It fails where the row does not belong there.
    fn append<T: Table>(&mut self, tx: &mut TX, key: T::Key, value: T::Value) -> (r: Result<
        (),
        DatabaseError,
    >)
        requires
            old(self).writes::<T>(),
        ensures
            final(self).writes::<T>(),
            forall|error: DatabaseError| final(tx).fails(error) == old(tx).fails(error),
            match r {
                Ok(_) => rows_of::<T, TX>(*final(tx)) == rows_of::<T, TX>(*old(tx)).push(
                    (key, value),
                ),
                Err(error) => old(tx).fails(error) && final(tx).contents() == old(tx).contents(),
            },
    ;
}

/// A cursor through which a transaction writes a table in which a key may have several values.
pub trait DbDupCursorRW<TX: Transaction>: DbCursorRW<TX> {
    /// Puts a row behind all others: among the values of its key its value is the last. It fails
    /// where the row does not belong there.
    fn append_dup<T: DupSort>(&mut self, tx: &mut TX, key: T::Key, value: T::Value) -> (r: Result<
        (),
        DatabaseError,
    >)
        requires
            old(self).writes::<T>(),
        ensures
            final(self).writes::<T>(),
            forall|error: DatabaseError| final(tx).fails(error) == old(tx).fails(error),
            match r {
                Ok(_) => rows_of::<T, TX>(*final(tx)) == rows_of::<T, TX>(*old(tx)).push(
                    (key, value),
                ),
                Err(error) => old(tx).fails(error) && final(tx).contents() == old(tx).contents(),
            },
    ;
}

/// The next key is behind the place, all rows up to it have the key of the place, and it is another,
/// unless no row is left.
pub proof fn lemma_next_key_is_another<T: Table>(rows: Rows<T>, at: int)
    requires
        -1 <= at < rows.len(),
    ensures
        at < next_key::<T>(rows, at) <= rows.len(),
        at < 0 ==> next_key::<T>(rows, at) == 0,
        at >= 0 ==> forall|i: int|
            at <= i < next_key::<T>(rows, at) ==> (#[trigger] rows[i]).0 == rows[at].0,
        at >= 0 && next_key::<T>(rows, at) < rows.len() ==> rows[next_key::<T>(rows, at)].0
            != rows[at].0,
{
    lemma_next_other::<T>(rows, at, at + 1);
}

/// The first place with another key.
proof fn lemma_next_other<T: Table>(rows: Rows<T>, at: int, i: int)
    requires
        -1 <= at < i <= rows.len(),
    ensures
        i <= next_other::<T>(rows, at, i) <= rows.len(),
        at < 0 && i < rows.len() ==> next_other::<T>(rows, at, i) == i,
        at >= 0 ==> forall|k: int|
            i <= k < next_other::<T>(rows, at, i) ==> (#[trigger] rows[k]).0 == rows[at].0,
        at >= 0 && next_other::<T>(rows, at, i) < rows.len() ==> rows[next_other::<T>(
            rows,
            at,
            i,
        )].0 != rows[at].0,
    decreases rows.len() - i,
{
    if i < rows.len() && at >= 0 && rows[i].0 == rows[at].0 {
        lemma_next_other::<T>(rows, at, i + 1);
    }
}

/// A row is in a range exactly where it is there and its key is not before the first nor behind the
/// last.
pub proof fn lemma_rows_within<T: Table>(
    rows: Rows<T>,
    from: Option<T::Key>,
    to: T::Key,
    row: TableRow<T>,
)
    ensures
        rows_within::<T>(rows, from, to).contains(row) <==> {
            &&& rows.contains(row)
            &&& from matches Some(first) ==> first.le(row.0)
            &&& row.0.le(to)
        },
{
    let kept = |row: TableRow<T>| within(row.0, from, to);
    let out = rows.filter(kept);
    if out.contains(row) {
        let i = choose|i: int| 0 <= i < out.len() && out[i] == row;
        rows.lemma_filter_pred(kept, i);
        rows.lemma_filter_contains_rev(kept, row);
    }
    if rows.contains(row) && kept(row) {
        let i = choose|i: int| 0 <= i < rows.len() && rows[i] == row;
        rows.lemma_filter_contains(kept, i);
    }
}

} // verus!
