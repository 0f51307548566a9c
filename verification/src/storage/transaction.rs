use vstd::prelude::*;

use crate::storage::cursor::{sorted, DbCursorRO, DbCursorRW, DbDupCursorRO, DbDupCursorRW};
use crate::storage::table::{DatabaseError, DupSort, Encode, Key, Rows, Table, TableRow};

verus! {

/// A transaction of a database, and what it sees there.
pub trait Transaction: Sized {
    /// What the transaction sees in all tables together.
    type Contents;

    /// What the transaction sees in all tables together.
    spec fn contents(&self) -> Self::Contents;

    /// The rows of one table, in their order.
    spec fn rows_in<T: Table>(contents: Self::Contents) -> Rows<T>;

    /// Whether reading or writing may give an error.
    spec fn fails(&self, error: DatabaseError) -> bool;
}

/// The rows of a table as a transaction sees them, in their order.
pub open spec fn rows_of<T: Table, TX: Transaction>(tx: TX) -> Rows<T> {
    TX::rows_in::<T>(tx.contents())
}

/// The value that a key has in some rows, the first of them if there are several.
pub open spec fn lookup<T: Table>(rows: Rows<T>, key: T::Key) -> Option<T::Value>
    decreases rows.len(),
{
    if rows.len() == 0 {
        None
    } else if rows[0].0 == key {
        Some(rows[0].1)
    } else {
        lookup::<T>(rows.drop_first(), key)
    }
}

/// The cursor with which a transaction reads.
pub type CursorTy<TX> = <TX as DbTx>::Cursor;

/// The cursor with which a transaction reads tables in which a key may have several values.
pub type DupCursorTy<TX> = <TX as DbTx>::DupCursor;

/// The cursor with which a transaction writes.
pub type CursorMutTy<TX> = <TX as DbTxMut>::CursorMut;

/// The cursor with which a transaction writes tables in which a key may have several values.
pub type DupCursorMutTy<TX> = <TX as DbTxMut>::DupCursorMut;

/// A transaction that reads.
pub trait DbTx: Transaction {
    /// A cursor over a table.
    type Cursor: DbCursorRO;

    /// A cursor over a table in which a key may have several values.
    type DupCursor: DbDupCursorRO;

    /// Whether a commit may end without an error, or with one.
    spec fn commits(self, error: Option<DatabaseError>) -> bool;

    /// The value of a key.
    fn get<T: Table>(&self, key: T::Key) -> (r: Result<Option<T::Value>, DatabaseError>)
        ensures
            match r {
                Ok(value) => value == lookup::<T>(rows_of::<T, Self>(*self), key),
                Err(error) => self.fails(error),
            },
    ;

    /// The value of the key that was encoded to some bytes.
    fn get_by_encoded_key<T: Table>(&self, bytes: &[u8]) -> (r: Result<
        Option<T::Value>,
        DatabaseError,
    >)
        ensures
            match r {
                Ok(value) => forall|key: T::Key| #[trigger]
                    key.encoded() == bytes@ ==> value == lookup::<T>(
                        rows_of::<T, Self>(*self),
                        key,
                    ),
                Err(error) => self.fails(error),
            },
    ;

    /// Ends the transaction. Of one that only reads, this lets go of what it held.
    fn commit(self) -> (r: Result<(), DatabaseError>)
        ensures
            match r {
                Ok(_) => self.commits(None),
                Err(error) => self.commits(Some(error)),
            },
    ;

    /// Ends the transaction and drops what it wrote.
    fn abort(self);

    /// A cursor over a table, before the first row.
    fn cursor_read<T: Table>(&self) -> (r: Result<Self::Cursor, DatabaseError>)
        ensures
            match r {
                Ok(cursor) => {
                    &&& cursor.is_over::<T>()
                    &&& cursor.rows::<T>() == rows_of::<T, Self>(*self)
                    &&& sorted::<T>(cursor.rows::<T>())
                    &&& cursor.at() == -1
                    &&& forall|error: DatabaseError| cursor.fails(error) ==> self.fails(error)
                },
                Err(error) => self.fails(error),
            },
    ;

    /// A cursor over a table in which a key may have several values, before the first row.
    fn cursor_dup_read<T: DupSort>(&self) -> (r: Result<Self::DupCursor, DatabaseError>)
        ensures
            match r {
                Ok(cursor) => {
                    &&& cursor.is_over::<T>()
                    &&& cursor.rows::<T>() == rows_of::<T, Self>(*self)
                    &&& sorted::<T>(cursor.rows::<T>())
                    &&& cursor.at() == -1
                    &&& forall|error: DatabaseError| cursor.fails(error) ==> self.fails(error)
                },
                Err(error) => self.fails(error),
            },
    ;

    /// How many rows a table has.
    fn entries<T: Table>(&self) -> (r: Result<usize, DatabaseError>)
        ensures
            match r {
                Ok(n) => n == rows_of::<T, Self>(*self).len(),
                Err(error) => self.fails(error),
            },
    ;

    /// Lets a transaction that only reads run for long.
    fn disable_long_read_transaction_safety(&mut self)
        ensures
            final(self).contents() == old(self).contents(),
    ;
}

/// Whether a key comes behind those of all rows.
pub open spec fn behind_all<T: Table>(rows: Rows<T>, key: T::Key) -> bool {
    forall|i: int| 0 <= i < rows.len() ==> comes_before((#[trigger] rows[i]).0, key)
}

/// Whether a key comes before another.
pub open spec fn comes_before<K: Key>(a: K, b: K) -> bool {
    a.le(b) && a != b
}

/// Rows in which each key has one value, with a value put in: the rows before its key, the new row,
/// and the rows behind.
pub open spec fn placed<T: Table>(rows: Rows<T>, key: T::Key, value: T::Value) -> Rows<T> {
    rows.filter(|row: TableRow<T>| comes_before(row.0, key)).push((key, value)) + rows.filter(
        |row: TableRow<T>| !row.0.le(key),
    )
}

/// What becomes of rows when a value is put in. Where a key may have several values, the place of
/// the new one among them is left to the table.
pub open spec fn is_put<T: Table>(
    before: Rows<T>,
    key: T::Key,
    value: T::Value,
    after: Rows<T>,
) -> bool {
    &&& behind_all::<T>(before, key) ==> after == before.push((key, value))
    &&& !T::has_duplicates() ==> after == placed::<T>(before, key, value)
    &&& T::has_duplicates() ==> forall|row: TableRow<T>| #[trigger]
        after.contains(row) <==> row == (key, value) || before.contains(row)
}

/// A transaction that writes.
pub trait DbTxMut: Transaction {
    /// A cursor that writes a table.
    type CursorMut: DbCursorRW<Self>;

    /// A cursor that writes a table in which a key may have several values.
    type DupCursorMut: DbDupCursorRW<Self>;

    /// Puts a value into a table. Where a key has one value, it replaces that.
    fn put<T: Table>(&mut self, key: T::Key, value: T::Value) -> (r: Result<(), DatabaseError>)
        ensures
            forall|error: DatabaseError| final(self).fails(error) == old(self).fails(error),
            match r {
                Ok(_) => is_put::<T>(
                    rows_of::<T, Self>(*old(self)),
                    key,
                    value,
                    rows_of::<T, Self>(*final(self)),
                ),
                Err(error) => old(self).fails(error) && final(self).contents() == old(
                    self,
                ).contents(),
            },
    ;

    /// Puts the value of the largest key into a table. The result is that of [`DbTxMut::put`], but
    /// the table may get there faster.
    fn append<T: Table>(&mut self, key: T::Key, value: T::Value) -> (r: Result<(), DatabaseError>)
        ensures
            forall|error: DatabaseError| final(self).fails(error) == old(self).fails(error),
            match r {
                Ok(_) => is_put::<T>(
                    rows_of::<T, Self>(*old(self)),
                    key,
                    value,
                    rows_of::<T, Self>(*final(self)),
                ),
                Err(error) => old(self).fails(error) && final(self).contents() == old(
                    self,
                ).contents(),
            },
    {
        self.put::<T>(key, value)
    }

    /// Takes the rows of a key out, or only the one with a value, and says whether there was one.
    fn delete<T: Table>(&mut self, key: T::Key, value: Option<T::Value>) -> (r: Result<
        bool,
        DatabaseError,
    >)
        ensures
            forall|error: DatabaseError| final(self).fails(error) == old(self).fails(error),
            match r {
                Ok(deleted) => {
                    let gone = |row: TableRow<T>|
                        row.0 == key && (value matches Some(value) ==> row.1 == value);
                    let before = rows_of::<T, Self>(*old(self));
                    &&& rows_of::<T, Self>(*final(self)) == before.filter(
                        |row: TableRow<T>| !gone(row),
                    )
                    &&& deleted == exists|i: int|
                        0 <= i < before.len() && gone(#[trigger] before[i])
                },
                Err(error) => old(self).fails(error) && final(self).contents() == old(
                    self,
                ).contents(),
            },
    ;

    /// Takes all rows out of a table.
    fn clear<T: Table>(&mut self) -> (r: Result<(), DatabaseError>)
        ensures
            forall|error: DatabaseError| final(self).fails(error) == old(self).fails(error),
            match r {
                Ok(_) => rows_of::<T, Self>(*final(self)) == Rows::<T>::empty(),
                Err(error) => old(self).fails(error) && final(self).contents() == old(
                    self,
                ).contents(),
            },
    ;

    /// A cursor that writes a table.
    fn cursor_write<T: Table>(&self) -> (r: Result<Self::CursorMut, DatabaseError>)
        ensures
            match r {
                Ok(cursor) => cursor.writes::<T>(),
                Err(error) => self.fails(error),
            },
    ;

    /// A cursor that writes a table in which a key may have several values.
    fn cursor_dup_write<T: DupSort>(&self) -> (r: Result<Self::DupCursorMut, DatabaseError>)
        ensures
            match r {
                Ok(cursor) => cursor.writes::<T>(),
                Err(error) => self.fails(error),
            },
    ;
}

/// A value that was put in is found under its key, and those of the other keys are found as before.
pub proof fn lemma_put_get<T: Table>(
    rows: Rows<T>,
    key: T::Key,
    value: T::Value,
    other: T::Key,
)
    ensures
        lookup::<T>(placed::<T>(rows, key, value), key) == Some(value),
        other != key ==> lookup::<T>(placed::<T>(rows, key, value), other) == lookup::<T>(
            rows,
            other,
        ),
{
    let before = |row: TableRow<T>| comes_before(row.0, key);
    let behind = |row: TableRow<T>| !row.0.le(key);
    let front = rows.filter(before);
    let back = rows.filter(behind);
    let added = seq![(key, value)];
    assert(placed::<T>(rows, key, value) =~= front + (added + back));
    lemma_lookup_filter::<T>(rows, before, key, false);
    lemma_lookup_filter::<T>(rows, before, other, comes_before(other, key));
    lemma_lookup_filter::<T>(rows, behind, other, !other.le(key));
    lemma_lookup_both::<T>(front, added + back, key);
    lemma_lookup_both::<T>(front, added + back, other);
    assert((added + back).drop_first() =~= back);
}

/// A key is looked up in one part of rows, and where it is not there in the rest.
proof fn lemma_lookup_both<T: Table>(a: Rows<T>, b: Rows<T>, key: T::Key)
    ensures
        lookup::<T>(a + b, key) == (match lookup::<T>(a, key) {
            Some(value) => Some(value),
            None => lookup::<T>(b, key),
        }),
    decreases a.len(),
{
    if a.len() == 0 {
        assert(a + b =~= b);
    } else {
        assert((a + b).drop_first() =~= a.drop_first() + b);
        lemma_lookup_both::<T>(a.drop_first(), b, key);
    }
}

/// A filter that keeps or drops all rows of a key keeps its value, or drops it.
proof fn lemma_lookup_filter<T: Table>(
    rows: Rows<T>,
    kept: spec_fn(TableRow<T>) -> bool,
    key: T::Key,
    keeps: bool,
)
    requires
        forall|row: TableRow<T>| row.0 == key ==> #[trigger] kept(row) == keeps,
    ensures
        lookup::<T>(rows.filter(kept), key) == (if keeps {
            lookup::<T>(rows, key)
        } else {
            None
        }),
    decreases rows.len(),
{
    reveal(Seq::filter);
    if rows.len() > 0 {
        let front = rows.drop_last();
        let last = rows.last();
        let one = seq![last];
        lemma_lookup_filter::<T>(front, kept, key, keeps);
        assert(rows =~= front + one);
        lemma_lookup_both::<T>(front, one, key);
        assert(lookup::<T>(one.drop_first(), key) is None);
        if kept(last) {
            assert(rows.filter(kept) =~= front.filter(kept) + one);
            lemma_lookup_both::<T>(front.filter(kept), one, key);
        }
    }
}

/// The value that is found under a key is that of the first row that has the key.
pub proof fn lemma_lookup_finds_the_first<T: Table>(rows: Rows<T>, key: T::Key, i: int)
    requires
        0 <= i < rows.len(),
        rows[i].0 == key,
        forall|j: int| 0 <= j < i ==> (#[trigger] rows[j]).0 != key,
    ensures
        lookup::<T>(rows, key) == Some(rows[i].1),
    decreases i,
{
    if i > 0 {
        let rest = rows.drop_first();
        assert(rows[0].0 != key);
        assert forall|j: int| 0 <= j < i - 1 implies (#[trigger] rest[j]).0 != key by {
            assert(rest[j] == rows[j + 1]);
        }
        lemma_lookup_finds_the_first::<T>(rest, key, i - 1);
    }
}

/// Nothing is found under a key that no row has.
pub proof fn lemma_lookup_finds_nothing<T: Table>(rows: Rows<T>, key: T::Key)
    requires
        forall|j: int| 0 <= j < rows.len() ==> (#[trigger] rows[j]).0 != key,
    ensures
        lookup::<T>(rows, key) is None,
    decreases rows.len(),
{
    if rows.len() > 0 {
        let rest = rows.drop_first();
        assert(rows[0].0 != key);
        assert forall|j: int| 0 <= j < rest.len() implies (#[trigger] rest[j]).0 != key by {
            assert(rest[j] == rows[j + 1]);
        }
        lemma_lookup_finds_nothing::<T>(rest, key);
    }
}

/// Where each key has one value, the rows after a value was put in hold it under its key and nothing
/// else there, hold every other row that was there, and no row besides; and they are as much in order
/// as the rows before.
pub proof fn lemma_put_rows<T: Table>(rows: Rows<T>, key: T::Key, value: T::Value)
    requires
        forall|i: int|
            0 <= i < rows.len() ==> (#[trigger] rows[i]).0.le(key) || key.le(rows[i].0),
        forall|i: int, j: int|
            0 <= i <= j < rows.len() ==> (#[trigger] rows[i]).0.le((#[trigger] rows[j]).0),
        key.le(key),
    ensures
        forall|row: TableRow<T>| #[trigger]
            placed::<T>(rows, key, value).contains(row) <==> row == (key, value) || row.0 != key
                && rows.contains(row),
        forall|i: int, j: int|
            0 <= i <= j < placed::<T>(rows, key, value).len() ==> (#[trigger] placed::<T>(
                rows,
                key,
                value,
            )[i]).0.le((#[trigger] placed::<T>(rows, key, value)[j]).0),
{
    let before = |row: TableRow<T>| comes_before(row.0, key);
    let behind = |row: TableRow<T>| !row.0.le(key);
    let front = rows.filter(before);
    let back = rows.filter(behind);
    let all = placed::<T>(rows, key, value);
    let n = front.len() as int;
    lemma_filtered::<T>(rows, before);
    lemma_filtered::<T>(rows, behind);
    assert(all =~= front + seq![(key, value)] + back);
    assert forall|row: TableRow<T>| #[trigger] all.contains(row) <==> row == (key, value) || row.0
        != key && rows.contains(row) by {
        if all.contains(row) {
            let i = choose|i: int| 0 <= i < all.len() && all[i] == row;
            if i < n {
                assert(front[i] == row);
                assert(front.contains(row));
            } else if i > n {
                assert(back[i - n - 1] == row);
                assert(back.contains(row));
                assert(behind(row));
            }
        }
        if row == (key, value) {
            assert(all[n] == row);
        }
        if row.0 != key && rows.contains(row) {
            if row.0.le(key) {
                assert(before(row));
                assert(front.contains(row));
                let i = choose|i: int| 0 <= i < front.len() && front[i] == row;
                assert(all[i] == row);
            } else {
                assert(behind(row));
                assert(back.contains(row));
                let i = choose|i: int| 0 <= i < back.len() && back[i] == row;
                assert(all[n + 1 + i] == row);
            }
        }
    }
    assert forall|i: int, j: int| 0 <= i <= j < all.len() implies (#[trigger] all[i]).0.le(
        (#[trigger] all[j]).0,
    ) by {
        if j < n {
            assert(front[i].0.le(front[j].0));
        } else if j == n {
            if i < n {
                assert(before(front[i]));
            }
        } else {
            assert(behind(back[j - n - 1]));
            assert(back.contains(back[j - n - 1]));
            assert(rows.contains(back[j - n - 1]));
            assert(key.le(all[j].0));
            if i < n {
                assert(before(front[i]));
                T::Key::le_transitive(all[i].0, key, all[j].0);
            } else if i > n {
                assert(back[i - n - 1].0.le(back[j - n - 1].0));
            }
        }
    }
}

/// Of rows in order those that are kept are in order, and are exactly those to be kept.
proof fn lemma_filtered<T: Table>(rows: Rows<T>, kept: spec_fn(TableRow<T>) -> bool)
    requires
        forall|i: int, j: int|
            0 <= i <= j < rows.len() ==> (#[trigger] rows[i]).0.le((#[trigger] rows[j]).0),
    ensures
        forall|row: TableRow<T>| #[trigger]
            rows.filter(kept).contains(row) <==> rows.contains(row) && kept(row),
        forall|i: int| 0 <= i < rows.filter(kept).len() ==> kept(#[trigger] rows.filter(kept)[i]),
        forall|i: int, j: int|
            0 <= i <= j < rows.filter(kept).len() ==> (#[trigger] rows.filter(kept)[i]).0.le(
                (#[trigger] rows.filter(kept)[j]).0,
            ),
    decreases rows.len(),
{
    reveal(Seq::filter);
    let out = rows.filter(kept);
    if rows.len() > 0 {
        let front = rows.drop_last();
        let last = rows.last();
        lemma_filtered::<T>(front, kept);
        let sub = front.filter(kept);
        assert(out == if kept(last) {
            sub.push(last)
        } else {
            sub
        });
        assert forall|row: TableRow<T>| #[trigger] out.contains(row) <==> rows.contains(row)
            && kept(row) by {
            if out.contains(row) {
                let i = choose|i: int| 0 <= i < out.len() && out[i] == row;
                if i < sub.len() {
                    assert(sub[i] == row);
                    assert(sub.contains(row));
                    let j = choose|j: int| 0 <= j < front.len() && front[j] == row;
                    assert(rows[j] == row);
                } else {
                    assert(rows[rows.len() - 1] == row);
                }
            }
            if rows.contains(row) && kept(row) {
                let i = choose|i: int| 0 <= i < rows.len() && rows[i] == row;
                if i < front.len() {
                    assert(front[i] == row);
                    assert(sub.contains(row));
                    let j = choose|j: int| 0 <= j < sub.len() && sub[j] == row;
                    assert(out[j] == row);
                } else {
                    assert(out[out.len() - 1] == row);
                }
            }
        }
        assert forall|i: int, j: int| 0 <= i <= j < out.len() implies (#[trigger] out[i]).0.le(
            (#[trigger] out[j]).0,
        ) by {
            if j < sub.len() {
                assert(sub[i].0.le(sub[j].0));
            } else {
                assert(out.contains(out[i]));
                let k = choose|k: int| 0 <= k < rows.len() && rows[k] == out[i];
                assert(rows[k].0.le(rows[rows.len() - 1].0));
            }
        }
    }
}

} // verus!
