use vstd::prelude::*;

use std::sync::Arc;

use crate::storage::table::{DatabaseError, TableImporter};
use crate::storage::transaction::{DbTx, DbTxMut};

verus! {

/// A database that begins transactions.
pub trait Database: Sized {
    /// A transaction that only reads.
    type TX: DbTx;

    /// A transaction that reads and writes.
    type TXMut: DbTxMut + DbTx + TableImporter;

    /// Whether a transaction that only reads may begin in some way.
    spec fn opens(&self, outcome: Result<Self::TX, DatabaseError>) -> bool;

    /// Whether a transaction that writes may begin in some way.
    spec fn opens_mut(&self, outcome: Result<Self::TXMut, DatabaseError>) -> bool;

    /// Begins a transaction that only reads.
    fn tx(&self) -> (r: Result<Self::TX, DatabaseError>)
        ensures
            self.opens(r),
    ;

    /// Begins a transaction that writes. The database has to be open for writing.
    fn tx_mut(&self) -> (r: Result<Self::TXMut, DatabaseError>)
        ensures
            self.opens_mut(r),
    ;

    /// Runs a function on a transaction that only reads, and ends the transaction. An error of the
    /// beginning or of the end is returned.
    fn view<T, F>(&self, f: F) -> (r: Result<T, DatabaseError>) where
        F: FnOnce(&mut Self::TX) -> T,

        requires
            forall|tx: &mut Self::TX| #[trigger] call_requires(f, (tx,)),
        ensures
            r is Ok ==> exists|tx: &mut Self::TX, res: T|
                self.opens(Ok(*tx)) && #[trigger] call_ensures(f, (tx,), res) && final(tx).commits(
                    None,
                ) && r == Ok::<T, DatabaseError>(res),
            r matches Err(error) ==> self.opens(Err(error)) || exists|tx: &mut Self::TX, res: T|
                self.opens(Ok(*tx)) && #[trigger] call_ensures(f, (tx,), res) && final(tx).commits(
                    Some(error),
                ),
    {
        let mut tx = match self.tx() {
            Ok(tx) => tx,
            Err(error) => return Err(error),
        };
        let res = f(&mut tx);
        match tx.commit() {
            Ok(()) => Ok(res),
            Err(error) => Err(error),
        }
    }

    /// Runs a function on a transaction that writes, and commits the transaction. An error of the
    /// beginning or of the commit is returned.
    fn update<T, F>(&self, f: F) -> (r: Result<T, DatabaseError>) where
        F: FnOnce(&mut Self::TXMut) -> T,

        requires
            forall|tx: &mut Self::TXMut| #[trigger] call_requires(f, (tx,)),
        ensures
            r is Ok ==> exists|tx: &mut Self::TXMut, res: T|
                self.opens_mut(Ok(*tx)) && #[trigger] call_ensures(f, (tx,), res) && final(tx).commits(None) && r == Ok::<T, DatabaseError>(res),
            r matches Err(error) ==> self.opens_mut(Err(error)) || exists|
                tx: &mut Self::TXMut,
                res: T,
            |
                self.opens_mut(Ok(*tx)) && #[trigger] call_ensures(f, (tx,), res) && final(tx).commits(Some(error)),
    {
        let mut tx = match self.tx_mut() {
            Ok(tx) => tx,
            Err(error) => return Err(error),
        };
        let res = f(&mut tx);
        match tx.commit() {
            Ok(()) => Ok(res),
            Err(error) => Err(error),
        }
    }
}

impl<DB: Database> Database for &DB {
    type TX = DB::TX;

    type TXMut = DB::TXMut;

    open spec fn opens(&self, outcome: Result<DB::TX, DatabaseError>) -> bool {
        (**self).opens(outcome)
    }

    open spec fn opens_mut(&self, outcome: Result<DB::TXMut, DatabaseError>) -> bool {
        (**self).opens_mut(outcome)
    }

    fn tx(&self) -> (r: Result<DB::TX, DatabaseError>) {
        (**self).tx()
    }

    fn tx_mut(&self) -> (r: Result<DB::TXMut, DatabaseError>) {
        (**self).tx_mut()
    }
}

impl<DB: Database> Database for Arc<DB> {
    type TX = DB::TX;

    type TXMut = DB::TXMut;

    open spec fn opens(&self, outcome: Result<DB::TX, DatabaseError>) -> bool {
        (**self).opens(outcome)
    }

    open spec fn opens_mut(&self, outcome: Result<DB::TXMut, DatabaseError>) -> bool {
        (**self).opens_mut(outcome)
    }

    fn tx(&self) -> (r: Result<DB::TX, DatabaseError>) {
        (**self).tx()
    }

    fn tx_mut(&self) -> (r: Result<DB::TXMut, DatabaseError>) {
        (**self).tx_mut()
    }
}

} // verus!
