//! The read-only views: projections of the committed state of one table.

use vstd::prelude::*;
use crate::datatypes::TestTableDatatypes;
use crate::db::Db;
use crate::query::{Comparison, Predicate, Query, TableName};
use crate::row::{TestScheduledTable, ViewType};
use crate::table::{index_scan, models};

verus! {

/// The first element of a sequence, if it has one.
pub open spec fn first_of<V>(s: Seq<V>) -> Option<V> {
    if s.len() > 0 {
        Some(s[0])
    } else {
        None
    }
}

/// The sequence of at most one element that holds an optional value.
pub open spec fn zero_or_one<V>(v: Option<V>) -> Seq<V> {
    match v {
        Some(x) => seq![x],
        None => Seq::empty(),
    }
}

/// The scheduled row as the public-count view shows it: the key, the
/// schedule and the public counter are kept, `h1` and `h2` are 1, and the
/// private counter is blanked.
pub open spec fn public_face(row: TestScheduledTable) -> TestScheduledTable {
    TestScheduledTable { h1: 1, h2: 1, private_count: 0, ..row }
}

/// The scheduled row as the private-count view shows it: as the public-count
/// view does, but with the private counter kept.
pub open spec fn private_face(row: TestScheduledTable) -> TestScheduledTable {
    TestScheduledTable { h1: 1, h2: 1, ..row }
}

/// All datatypes rows, by ascending `t_u32`.
pub fn view_test_anonymous_all_types(db: &Db) -> (out: Vec<TestTableDatatypes>)
    ensures
        models::<TestTableDatatypes>(out@) == index_scan::<TestTableDatatypes>(
            db@.datatypes.rows,
            0,
            u32::MAX as u64,
        ),
{
    db.test_table_datatypes.filter(0, u32::MAX as u64).collect()
}

/// The datatypes row with the smallest `t_u32`, as a list of at most one row.
pub fn view_test_first_type_row(db: &Db) -> (out: Vec<TestTableDatatypes>)
    ensures
        models::<TestTableDatatypes>(out@) == zero_or_one(
            first_of(
                index_scan::<TestTableDatatypes>(db@.datatypes.rows, 0, u32::MAX as u64),
            ),
        ),
{
    let mut cursor = db.test_table_datatypes.filter(0, u32::MAX as u64);
    let mut out: Vec<TestTableDatatypes> = Vec::new();
    if let Some(row) = cursor.next() {
        out.push(row);
    }
    assert(models::<TestTableDatatypes>(out@) =~= zero_or_one(
        first_of(index_scan::<TestTableDatatypes>(db@.datatypes.rows, 0, u32::MAX as u64)),
    ));
    out
}

/// The datatypes rows whose `t_u32` is 30.
pub fn view_test_u32_at_30(db: &Db) -> (out: Vec<TestTableDatatypes>)
    ensures
        models::<TestTableDatatypes>(out@) == index_scan::<TestTableDatatypes>(
            db@.datatypes.rows,
            30,
            30,
        ),
{
    db.test_table_datatypes.filter_point(30).collect()
}

/// The scheduled row with the smallest public counter, with its private
/// counter blanked, as a list of at most one row.
pub fn view_test_public_scheduled_count(db: &Db) -> (out: Vec<TestScheduledTable>)
    ensures
        out@ == zero_or_one(
            match first_of(index_scan::<TestScheduledTable>(db@.scheduled.rows, 0, u64::MAX)) {
                Some(row) => Some(public_face(row)),
                None => None,
            },
        ),
{
    let mut cursor = db.test_scheduled_table.filter(0, u64::MAX);
    let mut out: Vec<TestScheduledTable> = Vec::new();
    if let Some(row) = cursor.next() {
        out.push(
            TestScheduledTable {
                scheduled_id: row.scheduled_id,
                h1: 1,
                scheduled_at: row.scheduled_at,
                h2: 1,
                public_count: row.public_count,
                private_count: 0,
            },
        );
    }
    assert(out@ =~= zero_or_one(
        match first_of(index_scan::<TestScheduledTable>(db@.scheduled.rows, 0, u64::MAX)) {
            Some(row) => Some(public_face(row)),
            None => None,
        },
    ));
    out
}

/// The scheduled row with the smallest public counter, with both counters
/// shown, as a list of at most one row.
pub fn view_test_private_scheduled_count(db: &Db) -> (out: Vec<TestScheduledTable>)
    ensures
        out@ == zero_or_one(
            match first_of(index_scan::<TestScheduledTable>(db@.scheduled.rows, 0, u64::MAX)) {
                Some(row) => Some(private_face(row)),
                None => None,
            },
        ),
{
    let mut cursor = db.test_scheduled_table.filter(0, u64::MAX);
    let mut out: Vec<TestScheduledTable> = Vec::new();
    if let Some(row) = cursor.next() {
        out.push(
            TestScheduledTable {
                scheduled_id: row.scheduled_id,
                h1: 1,
                scheduled_at: row.scheduled_at,
                h2: 1,
                public_count: row.public_count,
                private_count: row.private_count,
            },
        );
    }
    assert(out@ =~= zero_or_one(
        match first_of(index_scan::<TestScheduledTable>(db@.scheduled.rows, 0, u64::MAX)) {
            Some(row) => Some(private_face(row)),
            None => None,
        },
    ));
    out
}

/// The row of the table without a primary key that has the smallest `row`.
pub fn view_test_no_pk_option(db: &Db) -> (out: Option<ViewType>)
    ensures
        out.deep_view() == first_of(index_scan::<ViewType>(db@.no_pk.rows, 0, u64::MAX)),
{
    let mut cursor = db.test_no_pk_table.filter(0, u64::MAX);
    cursor.next()
}

/// All rows of the table without a primary key, by ascending `row`.
pub fn view_test_no_pk_vec(db: &Db) -> (out: Vec<ViewType>)
    ensures
        models::<ViewType>(out@) == index_scan::<ViewType>(db@.no_pk.rows, 0, u64::MAX),
{
    db.test_no_pk_table.filter(0, u64::MAX).collect()
}

/// The scheduled row with the smallest public counter between 5 and 100,
/// both included.
pub fn view_test_option(db: &Db) -> (out: Option<TestScheduledTable>)
    ensures
        out == first_of(index_scan::<TestScheduledTable>(db@.scheduled.rows, 5, 100)),
{
    let mut cursor = db.test_scheduled_table.filter(5, 100);
    cursor.next()
}

/// The query for the rows of the table without a primary key whose `row` is
/// above zero. The query is handed out unevaluated.
pub fn view_test_no_pk_query() -> (q: Query)
    ensures
        q == (Query {
            table: TableName::TestNoPkTable,
            filter: Some(
                Predicate::Compare { column: 0, comparison: Comparison::Gt, literal: 0 },
            ),
        }),
{
    Query {
        table: TableName::TestNoPkTable,
        filter: Some(Predicate::compare(0, Comparison::Gt, 0)),
    }
}

/// The query for the scheduled rows whose `h1` is 1. The query is handed out
/// unevaluated.
pub fn view_test_query() -> (q: Query)
    ensures
        q == (Query {
            table: TableName::TestScheduledTable,
            filter: Some(
                Predicate::Compare { column: 1, comparison: Comparison::Eq, literal: 1 },
            ),
        }),
{
    Query {
        table: TableName::TestScheduledTable,
        filter: Some(Predicate::compare(1, Comparison::Eq, 1)),
    }
}

} // verus!
