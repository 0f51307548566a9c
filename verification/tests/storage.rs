use reth::storage::cursor::{DbCursorRO, DbCursorRW, DbDupCursorRO, DbDupCursorRW, Place};
use reth::storage::database::Database;
use reth::storage::table::{
    Compress, DatabaseError, Decode, Decompress, DupSort, Encode, Key, Rows, Stored, Table,
    TableImporter, TableInfo, TableRow,
};
use reth::storage::transaction::{DbTx, DbTxMut, Transaction};
use std::collections::BTreeMap;
use std::sync::{Arc, Mutex};

// The functions that contracts alone speak of have bodies that nothing runs.

#[derive(Clone, Copy, Debug, PartialEq)]
struct Number(u32);

impl Encode for Number {
    fn encoded(self) -> Stored {
        unreachable!()
    }

    fn encode(self) -> Vec<u8> {
        self.0.to_be_bytes().to_vec()
    }
}

impl Decode for Number {
    fn decoded(_bytes: Stored) -> Result<Self, DatabaseError> {
        unreachable!()
    }

    fn decode(value: &[u8]) -> Result<Self, DatabaseError> {
        match value.try_into() {
            Ok(bytes) => Ok(Number(u32::from_be_bytes(bytes))),
            Err(_) => Err(DatabaseError::Decode),
        }
    }
}

impl Compress for Number {
    fn compressed(&self) -> Stored {
        unreachable!()
    }

    fn compress_to_buf(&self, buf: &mut Vec<u8>) {
        buf.extend_from_slice(&self.0.to_be_bytes());
    }
}

impl Decompress for Number {
    fn decompressed(_bytes: Stored) -> Result<Self, DatabaseError> {
        unreachable!()
    }

    fn decompress(value: &[u8]) -> Result<Self, DatabaseError> {
        Self::decode(value)
    }
}

impl Key for Number {
    fn le(self, _other: Self) -> bool {
        unreachable!()
    }

    fn at_most(&self, other: &Self) -> bool {
        self.0 <= other.0
    }

    fn le_antisymmetric(_a: Self, _b: Self) {}

    fn le_transitive(_a: Self, _b: Self, _c: Self) {}
}

struct Numbers;

impl Table for Numbers {
    type Key = Number;

    type Value = Number;

    fn has_duplicates() -> bool {
        unreachable!()
    }

    fn name() -> &'static str {
        "Numbers"
    }

    fn dupsort() -> bool {
        true
    }
}

impl DupSort for Numbers {
    type SubKey = Number;
}

struct Squares;

impl Table for Squares {
    type Key = Number;

    type Value = Number;

    fn has_duplicates() -> bool {
        unreachable!()
    }

    fn name() -> &'static str {
        "Squares"
    }

    fn dupsort() -> bool {
        false
    }
}

type StoredRow = (Vec<u8>, Vec<u8>);

type Tables = BTreeMap<&'static str, Vec<StoredRow>>;

/// Tables in memory, with a budget of reads and one of writes.
struct Memory {
    tables: Tables,
    reads: usize,
    writes: usize,
    commits_to: Option<Arc<Mutex<Tables>>>,
    commit_fails: bool,
}

fn row<T: Table>(row: &StoredRow) -> Result<TableRow<T>, DatabaseError> {
    Ok((T::Key::decode(&row.0)?, T::Value::decompress(&row.1)?))
}

impl Memory {
    fn new(rows: &[(u32, u32)]) -> Memory {
        let mut memory = Memory {
            tables: Tables::new(),
            reads: 1000,
            writes: 1000,
            commits_to: None,
            commit_fails: false,
        };
        for (key, value) in rows {
            memory.put::<Numbers>(Number(*key), Number(*value)).unwrap();
        }
        memory
    }

    fn table<T: Table>(&self) -> Vec<StoredRow> {
        self.tables.get(T::name()).cloned().unwrap_or_default()
    }

    fn plain<T: Table<Key = Number, Value = Number>>(&self) -> Vec<(u32, u32)> {
        self.table::<T>()
            .iter()
            .map(|stored| row::<T>(stored).map(|(key, value)| (key.0, value.0)).unwrap())
            .collect()
    }

    fn write(&mut self) -> Result<(), DatabaseError> {
        if self.writes == 0 {
            return Err(DatabaseError::Write(-2));
        }
        self.writes -= 1;
        Ok(())
    }
}

struct Cursor {
    rows: Vec<StoredRow>,
    at: Option<usize>,
    reads: usize,
}

impl Cursor {
    fn go<T: Table>(&mut self, to: Option<usize>) -> Result<Option<TableRow<T>>, DatabaseError> {
        if self.reads == 0 {
            return Err(DatabaseError::Read(-1));
        }
        self.reads -= 1;
        match to {
            Some(at) if at < self.rows.len() => {
                self.at = Some(at);
                row::<T>(&self.rows[at]).map(Some)
            }
            _ => Ok(None),
        }
    }
}

impl DbCursorRO for Cursor {
    fn is_over<T: Table>(&self) -> bool {
        unreachable!()
    }

    fn rows<T: Table>(&self) -> Rows<T> {
        unreachable!()
    }

    fn at(&self) -> Place {
        unreachable!()
    }

    fn fails(&self, _error: DatabaseError) -> bool {
        unreachable!()
    }

    fn first<T: Table>(&mut self) -> Result<Option<TableRow<T>>, DatabaseError> {
        self.go::<T>(Some(0))
    }

    fn next<T: Table>(&mut self) -> Result<Option<TableRow<T>>, DatabaseError> {
        self.go::<T>(Some(self.at.map_or(0, |at| at + 1)))
    }

    fn seek<T: Table>(&mut self, key: T::Key) -> Result<Option<TableRow<T>>, DatabaseError> {
        let key = key.encode();
        let to = self.rows.iter().position(|row| row.0 >= key);
        self.go::<T>(to)
    }

    fn seek_exact<T: Table>(&mut self, key: T::Key) -> Result<Option<TableRow<T>>, DatabaseError> {
        let key = key.encode();
        let to = self.rows.iter().position(|row| row.0 == key);
        self.go::<T>(to)
    }
}

impl DbDupCursorRO for Cursor {
    fn next_dup<T: DupSort>(&mut self) -> Result<Option<TableRow<T>>, DatabaseError> {
        let to = self.at.and_then(|at| {
            let more = at + 1 < self.rows.len() && self.rows[at + 1].0 == self.rows[at].0;
            more.then_some(at + 1)
        });
        self.go::<T>(to)
    }

    fn next_no_dup<T: DupSort>(&mut self) -> Result<Option<TableRow<T>>, DatabaseError> {
        let to = match self.at {
            None => Some(0),
            Some(at) => (at + 1..self.rows.len()).find(|i| self.rows[*i].0 != self.rows[at].0),
        };
        self.go::<T>(to)
    }
}

struct WriteCursor;

impl DbCursorRW<Memory> for WriteCursor {
    fn writes<T: Table>(&self) -> bool {
        unreachable!()
    }

    fn append<T: Table>(
        &mut self,
        tx: &mut Memory,
        key: T::Key,
        value: T::Value,
    ) -> Result<(), DatabaseError> {
        tx.write()?;
        let added = (key.encode(), value.compress());
        let rows = tx.tables.entry(T::name()).or_default();
        if rows.last().is_some_and(|last| *last >= added) {
            return Err(DatabaseError::Write(-3));
        }
        rows.push(added);
        Ok(())
    }
}

impl DbDupCursorRW<Memory> for WriteCursor {
    fn append_dup<T: DupSort>(
        &mut self,
        tx: &mut Memory,
        key: T::Key,
        value: T::Value,
    ) -> Result<(), DatabaseError> {
        self.append::<T>(tx, key, value)
    }
}

impl Transaction for Memory {
    type Contents = ();

    fn contents(&self) {
        unreachable!()
    }

    fn rows_in<T: Table>(_contents: ()) -> Rows<T> {
        unreachable!()
    }

    fn fails(&self, _error: DatabaseError) -> bool {
        unreachable!()
    }
}

impl DbTx for Memory {
    type Cursor = Cursor;

    type DupCursor = Cursor;

    fn commits(self, _error: Option<DatabaseError>) -> bool {
        unreachable!()
    }

    fn get<T: Table>(&self, key: T::Key) -> Result<Option<T::Value>, DatabaseError> {
        self.get_by_encoded_key::<T>(&key.encode())
    }

    fn get_by_encoded_key<T: Table>(
        &self,
        bytes: &[u8],
    ) -> Result<Option<T::Value>, DatabaseError> {
        match self.table::<T>().iter().find(|row| row.0 == bytes) {
            Some(found) => Ok(Some(row::<T>(found)?.1)),
            None => Ok(None),
        }
    }

    fn commit(self) -> Result<(), DatabaseError> {
        if self.commit_fails {
            return Err(DatabaseError::Commit(7));
        }
        if let Some(tables) = self.commits_to {
            *tables.lock().unwrap() = self.tables;
        }
        Ok(())
    }

    fn abort(self) {}

    fn cursor_read<T: Table>(&self) -> Result<Cursor, DatabaseError> {
        Ok(Cursor { rows: self.table::<T>(), at: None, reads: self.reads })
    }

    fn cursor_dup_read<T: DupSort>(&self) -> Result<Cursor, DatabaseError> {
        self.cursor_read::<T>()
    }

    fn entries<T: Table>(&self) -> Result<usize, DatabaseError> {
        Ok(self.table::<T>().len())
    }

    fn disable_long_read_transaction_safety(&mut self) {}
}

impl DbTxMut for Memory {
    type CursorMut = WriteCursor;

    type DupCursorMut = WriteCursor;

    fn put<T: Table>(&mut self, key: T::Key, value: T::Value) -> Result<(), DatabaseError> {
        self.write()?;
        let added = (key.encode(), value.compress());
        let rows = self.tables.entry(T::name()).or_default();
        rows.retain(|row| if T::dupsort() { *row != added } else { row.0 != added.0 });
        rows.push(added);
        rows.sort();
        Ok(())
    }

    fn delete<T: Table>(
        &mut self,
        key: T::Key,
        value: Option<T::Value>,
    ) -> Result<bool, DatabaseError> {
        self.write()?;
        let (key, value) = (key.encode(), value.map(|value| value.compress()));
        let rows = self.tables.entry(T::name()).or_default();
        let before = rows.len();
        rows.retain(|row| row.0 != key || value.as_ref().is_some_and(|value| row.1 != *value));
        Ok(rows.len() < before)
    }

    fn clear<T: Table>(&mut self) -> Result<(), DatabaseError> {
        self.write()?;
        self.tables.remove(T::name());
        Ok(())
    }

    fn cursor_write<T: Table>(&self) -> Result<WriteCursor, DatabaseError> {
        if self.writes == 0 {
            return Err(DatabaseError::InitCursor(-4));
        }
        Ok(WriteCursor)
    }

    fn cursor_dup_write<T: DupSort>(&self) -> Result<WriteCursor, DatabaseError> {
        self.cursor_write::<T>()
    }
}

impl TableImporter for Memory {}

const ROWS: [(u32, u32); 6] = [(1, 10), (2, 20), (2, 21), (2, 22), (5, 50), (9, 90)];

#[test]
fn tables_are_copied() {
    let source = Memory::new(&ROWS);
    let mut destination = Memory::new(&[(0, 0)]);
    assert_eq!(destination.import_table::<Numbers, Memory>(&source), Ok(()));
    let mut expected = vec![(0, 0)];
    expected.extend_from_slice(&ROWS);
    assert_eq!(destination.plain::<Numbers>(), expected);
    assert_eq!(destination.import_table::<Numbers, Memory>(&Memory::new(&[])), Ok(()));
    assert_eq!(destination.plain::<Numbers>(), expected);
    assert_eq!(destination.plain::<Squares>(), vec![]);
}

#[test]
fn ranges_are_copied() {
    let import = |from: Option<u32>, to: u32| {
        let mut destination = Memory::new(&[]);
        let source = Memory::new(&ROWS);
        destination
            .import_table_with_range::<Numbers, Memory>(&source, from.map(Number), Number(to))
            .unwrap();
        destination.plain::<Numbers>()
    };
    assert_eq!(import(None, 2), ROWS[..4].to_vec());
    assert_eq!(import(Some(2), 5), ROWS[1..5].to_vec());
    assert_eq!(import(Some(3), 4), vec![]);
    assert_eq!(import(Some(3), 100), ROWS[4..].to_vec());
    assert_eq!(import(Some(100), 200), vec![]);
    // A range that ends before it starts is empty.
    assert_eq!(import(Some(5), 2), vec![]);
}

#[test]
fn duplicates_are_copied() {
    let source = Memory::new(&ROWS);
    let mut destination = Memory::new(&[]);
    assert_eq!(destination.import_dupsort::<Numbers, Memory>(&source), Ok(()));
    assert_eq!(destination.plain::<Numbers>(), ROWS.to_vec());
}

#[test]
fn failed_imports_keep_what_was_copied() {
    let mut source = Memory::new(&ROWS);
    source.reads = 3;
    let mut destination = Memory::new(&[]);
    let failed = destination.import_table::<Numbers, Memory>(&source);
    assert_eq!(failed, Err(DatabaseError::Read(-1)));
    assert_eq!(destination.plain::<Numbers>(), ROWS[..3].to_vec());

    let mut destination = Memory::new(&[]);
    let failed = destination.import_dupsort::<Numbers, Memory>(&source);
    assert_eq!(failed, Err(DatabaseError::Read(-1)));
    assert_eq!(destination.plain::<Numbers>(), ROWS[..1].to_vec());

    let source = Memory::new(&ROWS);
    let mut destination = Memory::new(&[]);
    destination.writes = 2;
    assert_eq!(
        destination.import_table_with_range::<Numbers, Memory>(&source, Some(Number(2)), Number(9)),
        Err(DatabaseError::Write(-2))
    );
    assert_eq!(destination.plain::<Numbers>(), ROWS[1..3].to_vec());
    assert_eq!(
        destination.import_table::<Numbers, Memory>(&source),
        Err(DatabaseError::InitCursor(-4))
    );

    // A row that does not belong behind the others is refused.
    let mut destination = Memory::new(&[(4, 4)]);
    assert_eq!(
        destination.import_table::<Numbers, Memory>(&source),
        Err(DatabaseError::Write(-3))
    );
    assert_eq!(destination.plain::<Numbers>(), vec![(4, 4)]);
}

#[test]
fn what_is_put_is_found() {
    let mut memory = Memory::new(&[]);
    memory.put::<Squares>(Number(3), Number(9)).unwrap();
    memory.append::<Squares>(Number(7), Number(49)).unwrap();
    // Appending has the result of putting, also where the key is not the largest.
    memory.append::<Squares>(Number(3), Number(8)).unwrap();
    memory.append::<Squares>(Number(5), Number(25)).unwrap();
    assert_eq!(memory.plain::<Squares>(), vec![(3, 8), (5, 25), (7, 49)]);
    assert_eq!(memory.get::<Squares>(Number(3)), Ok(Some(Number(8))));
    assert_eq!(memory.get::<Squares>(Number(4)), Ok(None));
    assert_eq!(memory.get_by_encoded_key::<Squares>(&[0, 0, 0, 5]), Ok(Some(Number(25))));
    assert_eq!(memory.delete::<Squares>(Number(3), None), Ok(true));
    assert_eq!(memory.delete::<Squares>(Number(3), None), Ok(false));
    assert_eq!(memory.entries::<Squares>(), Ok(2));
    assert_eq!(memory.clear::<Squares>(), Ok(()));
    assert_eq!(memory.entries::<Squares>(), Ok(0));
}

/// A database that opens or not.
struct Store {
    open: bool,
    commit_fails: bool,
    tables: Arc<Mutex<Tables>>,
}

impl Store {
    fn new(open: bool, commit_fails: bool) -> Store {
        let tables = Arc::new(Mutex::new(Memory::new(&ROWS).tables));
        Store { open, commit_fails, tables }
    }

    fn begin(&self, commits_to: Option<Arc<Mutex<Tables>>>) -> Result<Memory, DatabaseError> {
        if !self.open {
            return Err(DatabaseError::InitTx(1));
        }
        let mut memory = Memory::new(&[]);
        memory.tables = self.tables.lock().unwrap().clone();
        memory.commits_to = commits_to;
        memory.commit_fails = self.commit_fails;
        Ok(memory)
    }
}

impl Database for Store {
    type TX = Memory;

    type TXMut = Memory;

    fn opens(&self, _outcome: Result<Memory, DatabaseError>) -> bool {
        unreachable!()
    }

    fn opens_mut(&self, _outcome: Result<Memory, DatabaseError>) -> bool {
        unreachable!()
    }

    fn tx(&self) -> Result<Memory, DatabaseError> {
        self.begin(None)
    }

    fn tx_mut(&self) -> Result<Memory, DatabaseError> {
        self.begin(Some(self.tables.clone()))
    }
}

/// Writes through the bounds of any database.
fn square<DB: Database>(db: &DB, n: u32) -> Result<Result<(), DatabaseError>, DatabaseError> {
    db.update(|tx| {
        tx.put::<Squares>(Number(n), Number(n * n))?;
        match tx.get::<Squares>(Number(n))? {
            Some(found) if found == Number(n * n) => Ok(()),
            _ => Err(DatabaseError::Decode),
        }
    })
}

#[test]
fn updates_write() {
    let store = Store::new(true, false);
    assert_eq!(square(&store, 3), Ok(Ok(())));
    assert_eq!(square(&&store, 4), Ok(Ok(())));
    let found = store.view(|tx| tx.get::<Squares>(Number(4)));
    assert_eq!(found, Ok(Ok(Some(Number(16)))));
    // An update that does not commit leaves nothing.
    let failing = Store::new(true, true);
    assert_eq!(square(&failing, 3), Err(DatabaseError::Commit(7)));
    assert!(!failing.tables.lock().unwrap().contains_key("Squares"));
    // Tables are imported in an update.
    let source = Memory::new(&[(11, 1)]);
    let imported = store.update(|tx| tx.import_table::<Numbers, Memory>(&source));
    assert_eq!(imported, Ok(Ok(())));
    assert_eq!(store.view(|tx| tx.entries::<Numbers>()), Ok(Ok(7)));
}

#[test]
fn views_and_updates_end_their_transactions() {
    let store = Store::new(true, false);
    assert_eq!(store.view(|tx: &mut Memory| tx.entries::<Numbers>()), Ok(Ok(6)));
    let found = store.update(|tx: &mut Memory| tx.get::<Numbers>(Number(5)));
    assert_eq!(found, Ok(Ok(Some(Number(50)))));
    let by_reference = &store;
    assert_eq!(Database::view(&by_reference, |tx: &mut Memory| tx.reads), Ok(1000));
    let shared = Arc::new(Store::new(true, false));
    assert_eq!(Database::update(&shared, |tx: &mut Memory| tx.reads), Ok(1000));

    let closed = Store::new(false, false);
    assert_eq!(closed.view(|_: &mut Memory| ()), Err(DatabaseError::InitTx(1)));
    assert_eq!(closed.update(|_: &mut Memory| ()), Err(DatabaseError::InitTx(1)));
    let failing = Store::new(true, true);
    assert_eq!(failing.view(|_: &mut Memory| ()), Err(DatabaseError::Commit(7)));
    assert_eq!(failing.update(|_: &mut Memory| ()), Err(DatabaseError::Commit(7)));
}

#[test]
fn keys_and_values_are_stored_as_bytes() {
    assert_eq!(Number(5).encode(), vec![0, 0, 0, 5]);
    assert_eq!(Number::decode_owned(vec![0, 0, 0, 5]), Ok(Number(5)));
    assert_eq!(Number::decode_owned(vec![0]), Err(DatabaseError::Decode));
    assert_eq!(Number(6).compress(), vec![0, 0, 0, 6]);
    assert_eq!(Number(6).uncompressable_ref(), None);
    assert_eq!(Number::decompress_owned(vec![0, 0, 0, 6]), Ok(Number(6)));
}

struct Info;

impl TableInfo for Info {
    fn its_name(&self) -> reth::storage::table::TableName {
        unreachable!()
    }

    fn has_duplicates(&self) -> bool {
        unreachable!()
    }

    fn name(&self) -> &'static str {
        <Numbers as Table>::name()
    }

    fn is_dupsort(&self) -> bool {
        <Numbers as Table>::dupsort()
    }
}

#[test]
fn tables_are_described() {
    let info: &Info = &Info;
    assert_eq!(info.name(), "Numbers");
    assert!(info.is_dupsort());
}
