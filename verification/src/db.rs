//! The store handle: the three tables that routines and views work on.

use vstd::prelude::*;
use crate::datatypes::{DatatypesModel, TestTableDatatypes};
use crate::row::{TestScheduledTable, ViewType, ViewTypeModel};
use crate::table::{valid, Table, TableState};

verus! {

/// The tables of the store. A routine receives the handle for the length of
/// one transaction; a view reads the committed state through it.
pub struct Db {
    pub test_table_datatypes: Table<TestTableDatatypes>,
    pub test_scheduled_table: Table<TestScheduledTable>,
    pub test_no_pk_table: Table<ViewType>,
}

/// The mathematical state of the store: the state of each table.
pub struct DbState {
    pub datatypes: TableState<DatatypesModel>,
    pub scheduled: TableState<TestScheduledTable>,
    pub no_pk: TableState<ViewTypeModel>,
}

impl DbState {
    /// Every table satisfies its invariant.
    pub open spec fn valid(self) -> bool {
        &&& valid::<TestTableDatatypes>(self.datatypes)
        &&& valid::<TestScheduledTable>(self.scheduled)
        &&& valid::<ViewType>(self.no_pk)
    }
}

impl View for Db {
    type V = DbState;

    open spec fn view(&self) -> DbState {
        DbState {
            datatypes: self.test_table_datatypes@,
            scheduled: self.test_scheduled_table@,
            no_pk: self.test_no_pk_table@,
        }
    }
}

impl Db {
    /// A store whose tables are all empty.
    pub fn new() -> (db: Db)
        ensures
            db@.datatypes == (TableState::<DatatypesModel> { rows: Seq::empty(), sequence: 0 }),
            db@.scheduled == (TableState::<TestScheduledTable> { rows: Seq::empty(), sequence: 0 }),
            db@.no_pk == (TableState::<ViewTypeModel> { rows: Seq::empty(), sequence: 0 }),
            db@.valid(),
    {
        Db {
            test_table_datatypes: Table::new(),
            test_scheduled_table: Table::new(),
            test_no_pk_table: Table::new(),
        }
    }

    /// A store in the same state: the snapshot that a transaction works on.
    pub fn duplicate(&self) -> (db: Db)
        ensures
            db@ == self@,
            self@.valid(),
    {
        Db {
            test_table_datatypes: self.test_table_datatypes.duplicate(),
            test_scheduled_table: self.test_scheduled_table.duplicate(),
            test_no_pk_table: self.test_no_pk_table.duplicate(),
        }
    }
}

} // verus!
