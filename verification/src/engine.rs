//! Transactions over the committed state: snapshot, atomic commit with
//! conflict detection, and the invocation of routines inside a transaction.

use vstd::prelude::*;
use crate::db::{Db, DbState};
use crate::error::StoreError;
use crate::reducers::{
    clear_integration_tests, fired, firing_failure, first_schedule, greeting,
    start_integration_tests, test_scheduled_reducer,
};
use crate::datatypes::DatatypesModel;
use crate::row::{TestScheduledTable, ViewType, ViewTypeModel};
use crate::table::{found, inserted, TableState};

verus! {

/// The committed state of the store, and the number of commits that led to it.
pub struct Engine {
    committed: Db,
    version: u64,
}

/// A transaction: a private copy of the state that was committed when it
/// began. Its effects reach the committed state only through a commit.
pub struct Transaction {
    /// The state that the transaction works on.
    pub db: Db,
    /// The version of the committed state that the transaction started from.
    pub base: u64,
}

impl Engine {
    /// The committed state.
    pub closed spec fn state(&self) -> DbState {
        self.committed@
    }

    /// The number of commits so far.
    pub closed spec fn version(&self) -> u64 {
        self.version
    }

    /// An engine over empty tables.
    pub fn new() -> (e: Engine)
        ensures
            e.state().datatypes == (TableState::<DatatypesModel> { rows: Seq::empty(), sequence: 0 }),
            e.state().scheduled == (TableState::<TestScheduledTable> {
                rows: Seq::empty(),
                sequence: 0,
            }),
            e.state().no_pk == (TableState::<ViewTypeModel> { rows: Seq::empty(), sequence: 0 }),
            e.version() == 0,
    {
        Engine { committed: Db::new(), version: 0 }
    }

    /// An engine whose committed state is the given one.
    pub fn with_state(db: Db) -> (e: Engine)
        ensures
            e.state() == db@,
            e.version() == 0,
    {
        Engine { committed: db, version: 0 }
    }

    /// The committed state, for views to read.
    pub fn db(&self) -> (db: &Db)
        ensures
            db@ == self.state(),
    {
        &self.committed
    }

    /// Begins a transaction on a snapshot of the committed state.
    pub fn begin(&self) -> (tx: Transaction)
        ensures
            tx.db@ == self.state(),
            tx.base == self.version(),
    {
        Transaction { db: self.committed.duplicate(), base: self.version }
    }

    /// Commits a transaction: its state becomes the committed state, as a
    /// whole. A transaction that began before the latest commit conflicts
    /// with it and is refused; so is a commit that the version counter
    /// cannot count. A refused commit changes nothing.
    pub fn commit(&mut self, tx: Transaction) -> (r: Result<(), StoreError>)
        ensures
            match r {
                Ok(()) => {
                    &&& tx.base == old(self).version()
                    &&& old(self).version() < u64::MAX
                    &&& final(self).state() == tx.db@
                    &&& final(self).version() == old(self).version() + 1
                },
                Err(e) => {
                    &&& final(self).state() == old(self).state()
                    &&& final(self).version() == old(self).version()
                    &&& e == if tx.base != old(self).version() {
                        StoreError::TransactionConflict
                    } else {
                        StoreError::Overflow
                    }
                    &&& tx.base != old(self).version() || old(self).version() == u64::MAX
                },
            },
    {
        if tx.base != self.version {
            return Err(StoreError::TransactionConflict);
        }
        if self.version == u64::MAX {
            return Err(StoreError::Overflow);
        }
        self.committed = tx.db;
        self.version = self.version + 1;
        Ok(())
    }

    /// Fires the schedule entry with the given id: the scheduled routine runs
    /// on the entry's current row inside a transaction. Either all of its
    /// effects are committed together, or the committed state stays as it is.
    pub fn fire<F: Fn(u32) -> u32, G: Fn(u64) -> u64>(
        &mut self,
        scheduled_id: u64,
        next_f32: F,
        next_f64: G,
    ) -> (r: Result<(), StoreError>)
        requires
            forall|bits: u32| call_requires(next_f32, (bits,)),
            forall|bits: u64| call_requires(next_f64, (bits,)),
        ensures
            match r {
                Ok(()) => {
                    &&& found::<TestScheduledTable>(old(self).state().scheduled, scheduled_id)
                        matches Some(row)
                    &&& fired(old(self).state(), row, final(self).state(), next_f32, next_f64)
                    &&& final(self).version() == old(self).version() + 1
                },
                Err(e) => {
                    &&& final(self).state() == old(self).state()
                    &&& final(self).version() == old(self).version()
                    &&& Self::fire_failure(old(self).state(), old(self).version(), scheduled_id)
                        == Some(e)
                },
            },
    {
        let tx = self.begin();
        let mut tx = tx;
        let row = match tx.db.test_scheduled_table.find(scheduled_id) {
            Some(row) => row,
            None => {
                return Err(StoreError::KeyNotFound);
            },
        };
        match test_scheduled_reducer(&mut tx.db, row, next_f32, next_f64) {
            Ok(()) => self.commit(tx),
            Err(e) => Err(e),
        }
    }

    /// Why firing an entry fails, if it does: there is no entry with that id,
    /// the routine fails, or the version counter cannot count the commit.
    pub open spec fn fire_failure(s: DbState, version: u64, scheduled_id: u64) -> Option<
        StoreError,
    > {
        match found::<TestScheduledTable>(s.scheduled, scheduled_id) {
            None => Some(StoreError::KeyNotFound),
            Some(row) => if firing_failure(s, row) is Some {
                firing_failure(s, row)
            } else if version == u64::MAX {
                Some(StoreError::Overflow)
            } else {
                None
            },
        }
    }

    /// Runs the arming routine inside a transaction.
    pub fn call_start(&mut self) -> (r: Result<(), StoreError>)
        ensures
            match r {
                Ok(()) => {
                    &&& inserted::<TestScheduledTable>(old(self).state().scheduled, first_schedule())
                        matches Ok((scheduled, _))
                    &&& inserted::<ViewType>(old(self).state().no_pk, greeting()) matches Ok(
                        (no_pk, _),
                    )
                    &&& final(self).state() == (DbState {
                        datatypes: old(self).state().datatypes,
                        scheduled,
                        no_pk,
                    })
                    &&& final(self).version() == old(self).version() + 1
                },
                Err(e) => {
                    &&& final(self).state() == old(self).state()
                    &&& final(self).version() == old(self).version()
                    &&& e == StoreError::Overflow
                    &&& old(self).state().scheduled.sequence == u64::MAX || old(self).version()
                        == u64::MAX
                },
            },
            old(self).state().scheduled.sequence < u64::MAX && old(self).version() < u64::MAX
                ==> r is Ok,
    {
        let mut tx = self.begin();
        match start_integration_tests(&mut tx.db) {
            Ok(()) => self.commit(tx),
            Err(e) => Err(e),
        }
    }

    /// Runs the clearing routine inside a transaction.
    pub fn call_clear(&mut self) -> (r: Result<(), StoreError>)
        ensures
            match r {
                Ok(()) => {
                    &&& final(self).state().datatypes.rows == Seq::<DatatypesModel>::empty()
                    &&& final(self).state().scheduled.rows == Seq::<TestScheduledTable>::empty()
                    &&& final(self).state().no_pk.rows == Seq::<ViewTypeModel>::empty()
                    &&& final(self).state().datatypes.sequence == old(
                        self,
                    ).state().datatypes.sequence
                    &&& final(self).state().scheduled.sequence == old(
                        self,
                    ).state().scheduled.sequence
                    &&& final(self).state().no_pk.sequence == old(self).state().no_pk.sequence
                    &&& final(self).version() == old(self).version() + 1
                },
                Err(e) => {
                    &&& final(self).state() == old(self).state()
                    &&& final(self).version() == old(self).version()
                    &&& e == StoreError::Overflow
                    &&& old(self).version() == u64::MAX
                },
            },
            old(self).version() < u64::MAX ==> r is Ok,
    {
        let mut tx = self.begin();
        clear_integration_tests(&mut tx.db);
        self.commit(tx)
    }
}

} // verus!
