use vstd::prelude::*;

use crate::storage::cursor::{
    lemma_next_key, lemma_range, lemma_range_prefix, rows_within, sorted, DbCursorRO, DbCursorRW,
    DbDupCursorRO, DbDupCursorRW,
};
use crate::storage::transaction::{rows_of, DbTx, DbTxMut};

verus! {

/// What went wrong in a database, with the code that the storage engine gave.
#[derive(Clone, Copy, Debug, PartialEq, Eq, Structural)]
pub enum DatabaseError {
    /// The database could not be opened.
    Open(i32),
    /// A transaction could not be begun.
    InitTx(i32),
    /// A cursor could not be made.
    InitCursor(i32),
    Read(i32),
    Write(i32),
    Delete(i32),
    Commit(i32),
    /// Stored bytes are not those of a key or value.
    Decode,
}

/// The bytes that are stored for a key or value.
pub type Stored = Seq<u8>;

/// A value that is stored in (ideally) fewer bytes than it takes in memory.
pub trait Compress: Sized {
    /// The bytes that are stored.
    spec fn compressed(&self) -> Stored;

    /// The value as it is, where it is bytes that cannot be compressed.
    fn uncompressable_ref(&self) -> (bytes: Option<&[u8]>)
        ensures
            bytes matches Some(bytes) ==> bytes@ == self.compressed(),
        default_ensures
            bytes is None,
    {
        None
    }

    /// The bytes that are stored.
    fn compress(self) -> (bytes: Vec<u8>)
        ensures
            bytes@ == self.compressed(),
    {
        let mut buf: Vec<u8> = Vec::new();
        self.compress_to_buf(&mut buf);
        proof {
            assert(Seq::<u8>::empty() + self.compressed() =~= self.compressed());
        }
        buf
    }

    /// Puts the bytes that are stored behind others.
    fn compress_to_buf(&self, buf: &mut Vec<u8>)
        ensures
            final(buf)@ == old(buf)@ + self.compressed(),
    ;
}

/// A value that is made from stored bytes.
pub trait Decompress: Sized {
    /// What is made from some bytes.
    spec fn decompressed(bytes: Stored) -> Result<Self, DatabaseError>;

    /// The value that some bytes stand for.
    fn decompress(value: &[u8]) -> (r: Result<Self, DatabaseError>)
        ensures
            r == Self::decompressed(value@),
    ;

    /// The value that some bytes stand for.
    fn decompress_owned(value: Vec<u8>) -> (r: Result<Self, DatabaseError>)
        ensures
            r == Self::decompressed(value@),
    {
        Self::decompress(value.as_slice())
    }
}

/// A key that is stored as bytes.
pub trait Encode: Sized {
    /// The bytes that are stored.
    spec fn encoded(self) -> Stored;

    /// The bytes that are stored.
    fn encode(self) -> (bytes: Vec<u8>)
        ensures
            bytes@ == self.encoded(),
    ;
}

/// A key that is made from stored bytes.
pub trait Decode: Sized {
    /// What is made from some bytes.
    spec fn decoded(bytes: Stored) -> Result<Self, DatabaseError>;

    /// The key that some bytes stand for.
    fn decode(value: &[u8]) -> (r: Result<Self, DatabaseError>)
        ensures
            r == Self::decoded(value@),
    ;

    /// The key that some bytes stand for.
    fn decode_owned(value: Vec<u8>) -> (r: Result<Self, DatabaseError>)
        ensures
            r == Self::decoded(value@),
    {
        Self::decode(value.as_slice())
    }
}

/// A key of a table. Keys have an order, which is that of the rows.
pub trait Key: Encode + Decode + Copy {
    /// Whether a key does not come behind another.
    spec fn le(self, other: Self) -> bool;

    /// Whether a key does not come behind another.
    fn at_most(&self, other: &Self) -> (r: bool)
        ensures
            r == self.le(*other),
    ;

    /// Two keys neither of which comes behind the other are the same.
    proof fn le_antisymmetric(a: Self, b: Self)
        requires
            a.le(b),
            b.le(a),
        ensures
            a == b,
    ;

    /// The order goes on.
    proof fn le_transitive(a: Self, b: Self, c: Self)
        requires
            a.le(b),
            b.le(c),
        ensures
            a.le(c),
    ;
}

/// A value of a table.
pub trait Value: Compress + Decompress {

}

impl<V: Compress + Decompress> Value for V {

}

/// A table of a database.
pub trait Table {
    /// The keys of the table.
    type Key: Key;

    /// The values of the table.
    type Value: Value;

    /// Whether a key may have several values.
    spec fn has_duplicates() -> bool;

    /// The name of the table.
    fn name() -> &'static str;

    /// Whether a key may have several values.
    fn dupsort() -> (r: bool)
        ensures
            r == Self::has_duplicates(),
    ;
}

/// The name of a table.
pub type TableName = Seq<char>;

/// What is known of a table whose type is not.
pub trait TableInfo {
    /// The name of the table.
    spec fn its_name(&self) -> TableName;

    /// Whether a key may have several values.
    spec fn has_duplicates(&self) -> bool;

    /// The name of the table.
    fn name(&self) -> (name: &'static str)
        ensures
            name@ == self.its_name(),
    ;

    /// Whether a key may have several values.
    fn is_dupsort(&self) -> (r: bool)
        ensures
            r == self.has_duplicates(),
    ;
}

/// A row of a table.
pub type TableRow<T> = (<T as Table>::Key, <T as Table>::Value);

/// The rows of a table, in their order.
pub type Rows<T> = Seq<TableRow<T>>;

/// A table in which a key may have several values, ordered by a key of their own.
pub trait DupSort: Table {
    /// What orders the values of a key.
    type SubKey: Key;
}

/// Whether some rows are others with the first of a list behind them.
pub open spec fn has_some_of<T: Table>(rows: Rows<T>, before: Rows<T>, list: Rows<T>) -> bool {
    exists|n: int| 0 <= n <= list.len() && rows == before + #[trigger] list.take(n)
}

/// Copies tables from another database. Where that fails, what was copied until then stays.
pub trait TableImporter: DbTxMut {
    /// Copies all rows of a table.
    fn import_table<T: Table, R: DbTx>(&mut self, source_tx: &R) -> (r: Result<(), DatabaseError>)
        ensures
            ({
                let before = rows_of::<T, Self>(*old(self));
                let after = rows_of::<T, Self>(*final(self));
                let source = rows_of::<T, R>(*source_tx);
                match r {
                    Ok(_) => after == before + source,
                    Err(error) => (source_tx.fails(error) || old(self).fails(error))
                        && has_some_of::<T>(after, before, source),
                }
            }),
    {
        let ghost before = rows_of::<T, Self>(*self);
        let ghost source = rows_of::<T, R>(*source_tx);
        proof {
            assert(before + source.take(0) =~= before);
        }
        let mut destination = match self.cursor_write::<T>() {
            Ok(cursor) => cursor,
            Err(error) => return Err(error),
        };
        let mut cursor = match source_tx.cursor_read::<T>() {
            Ok(cursor) => cursor,
            Err(error) => return Err(error),
        };
        let mut row = match cursor.first::<T>() {
            Ok(row) => row,
            Err(error) => return Err(error),
        };
        let ghost mut done: int = 0;
        while row.is_some()
            invariant
                cursor.is_over::<T>(),
                cursor.rows::<T>() == source,
                destination.writes::<T>(),
                source == rows_of::<T, R>(*source_tx),
                0 <= done <= source.len(),
                done < source.len() ==> cursor.at() == done && row == Some(source[done]),
                done == source.len() ==> row is None,
                before == rows_of::<T, Self>(*old(self)),
                rows_of::<T, Self>(*self) == before + source.take(done),
                forall|error: DatabaseError| self.fails(error) == old(self).fails(error),
                forall|error: DatabaseError| cursor.fails(error) ==> source_tx.fails(error),
            decreases source.len() - done,
        {
            if let Some((key, value)) = row {
                match destination.append::<T>(self, key, value) {
                    Ok(()) => {},
                    Err(error) => return Err(error),
                }
                proof {
                    assert((before + source.take(done)).push(source[done]) =~= before + source.take(
                        done + 1,
                    ));
                    done = done + 1;
                }
                row = match cursor.next::<T>() {
                    Ok(row) => row,
                    Err(error) => return Err(error),
                };
            } else {
                return Ok(());
            }
        }
        proof {
            assert(source.take(done) =~= source);
        }
        Ok(())
    }

    /// Copies the rows of a table from one key, or from the first row, up to another. Where a key
    /// has several values, all of them are copied.
    fn import_table_with_range<T: Table, R: DbTx>(
        &mut self,
        source_tx: &R,
        from: Option<T::Key>,
        to: T::Key,
    ) -> (r: Result<(), DatabaseError>)
        ensures
            ({
                let before = rows_of::<T, Self>(*old(self));
                let after = rows_of::<T, Self>(*final(self));
                let range = rows_within::<T>(rows_of::<T, R>(*source_tx), from, to);
                match r {
                    Ok(_) => after == before + range,
                    Err(error) => (source_tx.fails(error) || old(self).fails(error))
                        && has_some_of::<T>(after, before, range),
                }
            }),
    {
        let ghost before = rows_of::<T, Self>(*self);
        let ghost source = rows_of::<T, R>(*source_tx);
        let ghost range = rows_within::<T>(source, from, to);
        proof {
            assert(before + range.take(0) =~= before);
        }
        let mut destination = match self.cursor_write::<T>() {
            Ok(cursor) => cursor,
            Err(error) => return Err(error),
        };
        let mut cursor = match source_tx.cursor_read::<T>() {
            Ok(cursor) => cursor,
            Err(error) => return Err(error),
        };
        let found = match from {
            Some(from) => cursor.seek::<T>(from),
            None => cursor.first::<T>(),
        };
        let mut row = match found {
            Ok(row) => row,
            Err(error) => return Err(error),
        };
        let ghost start: int = if row is Some {
            cursor.at()
        } else {
            source.len() as int
        };
        let ghost mut done: int = start;
        proof {
            assert(before + source.subrange(start, start) =~= before);
        }
        while row.is_some()
            invariant
                cursor.is_over::<T>(),
                cursor.rows::<T>() == source,
                destination.writes::<T>(),
                source == rows_of::<T, R>(*source_tx),
                sorted::<T>(source),
                0 <= start <= done <= source.len(),
                done < source.len() ==> cursor.at() == done && row == Some(source[done]),
                done == source.len() ==> row is None,
                from is None ==> start == 0,
                from matches Some(from) ==> (start < source.len() ==> from.le(source[start].0)) && (
                forall|i: int| 0 <= i < start ==> !from.le((#[trigger] source[i]).0)),
                forall|i: int| start <= i < done ==> (#[trigger] source[i]).0.le(to),
                before == rows_of::<T, Self>(*old(self)),
                rows_of::<T, Self>(*self) == before + source.subrange(start, done),
                forall|error: DatabaseError| self.fails(error) == old(self).fails(error),
                forall|error: DatabaseError| cursor.fails(error) ==> source_tx.fails(error),
            decreases source.len() - done,
        {
            if let Some((key, value)) = row {
                proof {
                    lemma_range_prefix::<T>(source, from, to, start, done);
                }
                if !key.at_most(&to) {
                    proof {
                        lemma_range::<T>(source, from, to, start, done);
                    }
                    return Ok(());
                }
                match destination.append::<T>(self, key, value) {
                    Ok(()) => {},
                    Err(error) => return Err(error),
                }
                proof {
                    assert((before + source.subrange(start, done)).push(source[done]) =~= before
                        + source.subrange(start, done + 1));
                    done = done + 1;
                    lemma_range_prefix::<T>(source, from, to, start, done);
                }
                row = match cursor.next::<T>() {
                    Ok(row) => row,
                    Err(error) => return Err(error),
                };
            } else {
                return Ok(());
            }
        }
        proof {
            lemma_range::<T>(source, from, to, start, done);
        }
        Ok(())
    }

    /// Copies all rows of a table in which a key may have several values, key by key.
    fn import_dupsort<T: DupSort, R: DbTx>(&mut self, source_tx: &R) -> (r: Result<
        (),
        DatabaseError,
    >)
        ensures
            ({
                let before = rows_of::<T, Self>(*old(self));
                let after = rows_of::<T, Self>(*final(self));
                let source = rows_of::<T, R>(*source_tx);
                match r {
                    Ok(_) => after == before + source,
                    Err(error) => (source_tx.fails(error) || old(self).fails(error))
                        && has_some_of::<T>(after, before, source),
                }
            }),
    {
        let ghost before = rows_of::<T, Self>(*self);
        let ghost source = rows_of::<T, R>(*source_tx);
        proof {
            assert(before + source.take(0) =~= before);
            lemma_next_key::<T>(source, -1);
        }
        let mut destination = match self.cursor_dup_write::<T>() {
            Ok(cursor) => cursor,
            Err(error) => return Err(error),
        };
        let mut cursor = match source_tx.cursor_dup_read::<T>() {
            Ok(cursor) => cursor,
            Err(error) => return Err(error),
        };
        let mut next = match cursor.next_no_dup::<T>() {
            Ok(next) => next,
            Err(error) => return Err(error),
        };
        let ghost mut done: int = 0;
        while next.is_some()
            invariant
                cursor.is_over::<T>(),
                cursor.rows::<T>() == source,
                destination.writes::<T>(),
                source == rows_of::<T, R>(*source_tx),
                sorted::<T>(source),
                0 <= done <= source.len(),
                done < source.len() ==> cursor.at() == done && next == Some(source[done]) && (done
                    > 0 ==> source[done - 1].0 != source[done].0),
                done == source.len() ==> next is None,
                before == rows_of::<T, Self>(*old(self)),
                rows_of::<T, Self>(*self) == before + source.take(done),
                forall|error: DatabaseError| self.fails(error) == old(self).fails(error),
                forall|error: DatabaseError| cursor.fails(error) ==> source_tx.fails(error),
            decreases source.len() - done,
        {
            let ghost first = done;
            if let Some((key, _)) = next {
                let mut row = match cursor.seek_exact::<T>(key) {
                    Ok(row) => row,
                    Err(error) => return Err(error),
                };
                proof {
                    // The rows of the key begin here.
                    assert(source[first].0 == key);
                    let at = cursor.at();
                    if at < first {
                        T::Key::le_antisymmetric(source[first - 1].0, key);
                    }
                }
                while row.is_some()
                    invariant
                        cursor.is_over::<T>(),
                        cursor.rows::<T>() == source,
                        destination.writes::<T>(),
                        source == rows_of::<T, R>(*source_tx),
                        sorted::<T>(source),
                        0 <= first <= done <= source.len(),
                        first < source.len(),
                        source[first].0 == key,
                        row is None ==> done > first,
                        forall|i: int| first <= i < done ==> (#[trigger] source[i]).0 == key,
                        row is Some ==> done < source.len() && cursor.at() == done && row == Some(
                            source[done],
                        ) && source[done].0 == key,
                        row is None ==> cursor.at() == done - 1 && (done < source.len()
                            ==> source[done].0 != key),
                        before == rows_of::<T, Self>(*old(self)),
                        rows_of::<T, Self>(*self) == before + source.take(done),
                        forall|error: DatabaseError| self.fails(error) == old(self).fails(error),
                        forall|error: DatabaseError|
                            cursor.fails(error) ==> source_tx.fails(error),
                    decreases source.len() - done,
                {
                    if let Some((key, value)) = row {
                        match destination.append_dup::<T>(self, key, value) {
                            Ok(()) => {},
                            Err(error) => return Err(error),
                        }
                        proof {
                            assert((before + source.take(done)).push(source[done]) =~= before
                                + source.take(done + 1));
                            done = done + 1;
                        }
                        row = match cursor.next_dup::<T>() {
                            Ok(row) => row,
                            Err(error) => return Err(error),
                        };
                    } else {
                        return Ok(());
                    }
                }
                proof {
                    lemma_next_key::<T>(source, done - 1);
                }
                next = match cursor.next_no_dup::<T>() {
                    Ok(next) => next,
                    Err(error) => return Err(error),
                };
            } else {
                return Ok(());
            }
        }
        proof {
            assert(source.take(done) =~= source);
        }
        Ok(())
    }
}

} // verus!
