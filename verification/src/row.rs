//! Row schemas: what every table row offers to the store, and the rows of
//! the scheduled table and of the table without a primary key.

use vstd::prelude::*;
use crate::value::ScheduleAt;

verus! {

/// A typed table row. Its view is its mathematical model; the store reads the
/// primary key, the secondary-index key and the integer columns through it.
pub trait Row: View + Sized {
    /// Whether the schema declares a primary key. A declared primary key is
    /// auto-increment, and zero is the value that asks for assignment.
    spec fn keyed() -> bool;

    /// The primary key column.
    spec fn key_of(v: Self::V) -> u64;

    /// The same row under another primary key.
    spec fn rekeyed(v: Self::V, key: u64) -> Self::V;

    /// The column that carries the secondary index.
    spec fn index_of(v: Self::V) -> u64;

    /// The largest value of the indexed column's type.
    spec fn index_max() -> u64;

    /// Whether the column at this position exists and holds integers that a
    /// predicate can compare.
    spec fn comparable(column: nat) -> bool;

    /// The integer held by the column at this position.
    spec fn column_of(v: Self::V, column: nat) -> int;

    /// Changing the key changes nothing but the key.
    proof fn lemma_rekeyed(v: Self::V, key: u64)
        ensures
            Self::keyed() ==> Self::key_of(Self::rekeyed(v, key)) == key,
            Self::keyed() && Self::key_of(v) == key ==> Self::rekeyed(v, key) == v,
            !Self::keyed() ==> Self::rekeyed(v, key) == v,
            Self::index_of(Self::rekeyed(v, key)) == Self::index_of(v),
    ;

    /// No index key lies above the largest value of its column's type.
    proof fn lemma_index_bounded(v: Self::V)
        ensures
            Self::index_of(v) <= Self::index_max(),
    ;

    /// Whether the schema declares a primary key.
    fn is_keyed() -> (b: bool)
        ensures
            b == Self::keyed(),
    ;

    /// The primary key of the row.
    fn key(&self) -> (k: u64)
        ensures
            k == Self::key_of(self@),
    ;

    /// The row under another primary key.
    fn with_key(self, key: u64) -> (r: Self)
        ensures
            r@ == Self::rekeyed(self@, key),
    ;

    /// The value of the indexed column.
    fn index_key(&self) -> (k: u64)
        ensures
            k == Self::index_of(self@),
    ;

    /// Whether a predicate can compare the column at this position.
    fn is_comparable(column: usize) -> (b: bool)
        ensures
            b == Self::comparable(column as nat),
    ;

    /// The integer in the column at this position, if it holds one.
    fn column(&self, column: usize) -> (r: Option<i128>)
        ensures
            match r {
                Some(x) => Self::comparable(column as nat) && x == Self::column_of(
                    self@,
                    column as nat,
                ),
                None => !Self::comparable(column as nat),
            },
    ;

    /// A copy that holds the same values.
    fn duplicate(&self) -> (r: Self)
        ensures
            r@ == self@,
    ;

    /// Structural equality: every column holds the same value.
    fn same(&self, other: &Self) -> (b: bool)
        ensures
            b == (self@ == other@),
    ;
}

/// A row of the scheduled table: a standing timer entry bound to the
/// scheduled routine, with two counters that every firing raises.
#[derive(Debug, Clone, Copy, PartialEq, Eq, Structural)]
pub struct TestScheduledTable {
    pub scheduled_id: u64,
    pub h1: u16,
    pub scheduled_at: ScheduleAt,
    pub h2: u16,
    pub public_count: u64,
    pub private_count: u64,
}

impl View for TestScheduledTable {
    type V = TestScheduledTable;

    open spec fn view(&self) -> TestScheduledTable {
        *self
    }
}

impl DeepView for TestScheduledTable {
    type V = TestScheduledTable;

    open spec fn deep_view(&self) -> TestScheduledTable {
        *self
    }
}

impl Row for TestScheduledTable {
    open spec fn keyed() -> bool {
        true
    }

    open spec fn key_of(v: TestScheduledTable) -> u64 {
        v.scheduled_id
    }

    open spec fn rekeyed(v: TestScheduledTable, key: u64) -> TestScheduledTable {
        TestScheduledTable { scheduled_id: key, ..v }
    }

    open spec fn index_of(v: TestScheduledTable) -> u64 {
        v.public_count
    }

    open spec fn index_max() -> u64 {
        u64::MAX
    }

    open spec fn comparable(column: nat) -> bool {
        column == 0 || column == 1 || column == 3 || column == 4 || column == 5
    }

    open spec fn column_of(v: TestScheduledTable, column: nat) -> int {
        if column == 0 {
            v.scheduled_id as int
        } else if column == 1 {
            v.h1 as int
        } else if column == 3 {
            v.h2 as int
        } else if column == 4 {
            v.public_count as int
        } else {
            v.private_count as int
        }
    }

    proof fn lemma_rekeyed(v: TestScheduledTable, key: u64) {
    }

    proof fn lemma_index_bounded(v: TestScheduledTable) {
    }

    fn is_keyed() -> (b: bool) {
        true
    }

    fn key(&self) -> (k: u64) {
        self.scheduled_id
    }

    fn with_key(self, key: u64) -> (r: Self) {
        TestScheduledTable {
            scheduled_id: key,
            h1: self.h1,
            scheduled_at: self.scheduled_at,
            h2: self.h2,
            public_count: self.public_count,
            private_count: self.private_count,
        }
    }

    fn index_key(&self) -> (k: u64) {
        self.public_count
    }

    fn is_comparable(column: usize) -> (b: bool) {
        column == 0 || column == 1 || column == 3 || column == 4 || column == 5
    }

    fn column(&self, column: usize) -> (r: Option<i128>) {
        if column == 0 {
            Some(self.scheduled_id as i128)
        } else if column == 1 {
            Some(self.h1 as i128)
        } else if column == 3 {
            Some(self.h2 as i128)
        } else if column == 4 {
            Some(self.public_count as i128)
        } else if column == 5 {
            Some(self.private_count as i128)
        } else {
            None
        }
    }

    fn duplicate(&self) -> (r: Self) {
        *self
    }

    fn same(&self, other: &Self) -> (b: bool) {
        self.scheduled_id == other.scheduled_id && self.h1 == other.h1 && self.scheduled_at
            == other.scheduled_at && self.h2 == other.h2 && self.public_count
            == other.public_count && self.private_count == other.private_count
    }
}

/// A row of the table without a primary key: a number that carries the
/// secondary index, and a name.
#[derive(Debug, Clone, PartialEq, Eq)]
pub struct ViewType {
    pub row: u64,
    pub name: String,
}

/// What a `ViewType` row holds, as mathematical values.
pub struct ViewTypeModel {
    pub row: u64,
    pub name: Seq<char>,
}

impl View for ViewType {
    type V = ViewTypeModel;

    open spec fn view(&self) -> ViewTypeModel {
        ViewTypeModel { row: self.row, name: self.name@ }
    }
}

impl DeepView for ViewType {
    type V = ViewTypeModel;

    open spec fn deep_view(&self) -> ViewTypeModel {
        self@
    }
}

impl Row for ViewType {
    open spec fn keyed() -> bool {
        false
    }

    open spec fn key_of(v: ViewTypeModel) -> u64 {
        0
    }

    open spec fn rekeyed(v: ViewTypeModel, key: u64) -> ViewTypeModel {
        v
    }

    open spec fn index_of(v: ViewTypeModel) -> u64 {
        v.row
    }

    open spec fn index_max() -> u64 {
        u64::MAX
    }

    open spec fn comparable(column: nat) -> bool {
        column == 0
    }

    open spec fn column_of(v: ViewTypeModel, column: nat) -> int {
        v.row as int
    }

    proof fn lemma_rekeyed(v: ViewTypeModel, key: u64) {
    }

    proof fn lemma_index_bounded(v: ViewTypeModel) {
    }

    fn is_keyed() -> (b: bool) {
        false
    }

    fn key(&self) -> (k: u64) {
        0
    }

    fn with_key(self, key: u64) -> (r: Self) {
        self
    }

    fn index_key(&self) -> (k: u64) {
        self.row
    }

    fn is_comparable(column: usize) -> (b: bool) {
        column == 0
    }

    fn column(&self, column: usize) -> (r: Option<i128>) {
        if column == 0 {
            Some(self.row as i128)
        } else {
            None
        }
    }

    fn duplicate(&self) -> (r: Self) {
        ViewType { row: self.row, name: self.name.clone() }
    }

    fn same(&self, other: &Self) -> (b: bool) {
        self.row == other.row && self.name == other.name
    }
}

} // verus!
