//! The mutation routines: the scheduled routine, the routine that arms the
//! schedule, and the routine that clears every table.

use vstd::prelude::*;
use crate::datatypes::{DatatypesModel, TestTableDatatypes};
use crate::db::{Db, DbState};
use crate::error::StoreError;
use crate::row::{Row, TestScheduledTable, ViewType, ViewTypeModel};
use crate::table::{inserted, lemma_key_position, models, updated, valid, Table, TableState};
use crate::value::ScheduleAt;

verus! {

/// The number of rows below which a firing seeds a default row.
pub const SEED_LIMIT: u64 = 10;

/// The period of the schedule that the arming routine sets up, in microseconds.
pub const SCHEDULE_PERIOD_MICROS: i64 = 1000000;

/// The row as the scheduled routine re-arms it: both counters raised by one.
pub open spec fn bumped(row: TestScheduledTable) -> TestScheduledTable {
    TestScheduledTable {
        public_count: (row.public_count + 1) as u64,
        private_count: (row.private_count + 1) as u64,
        ..row
    }
}

/// What seeding does to the datatypes table: below the limit one default row
/// enters under the next key of the sequence; at or above it nothing changes.
/// The second component is the failure that stopped it.
pub open spec fn seeded(s: TableState<DatatypesModel>) -> (
    TableState<DatatypesModel>,
    Option<StoreError>,
) {
    if s.rows.len() < SEED_LIMIT {
        match inserted::<TestTableDatatypes>(s, TestTableDatatypes::default_model()) {
            Ok((t, _)) => (t, None),
            Err(e) => (s, Some(e)),
        }
    } else {
        (s, None)
    }
}

/// The state in which the scheduled routine starts to rewrite the datatypes
/// rows, or the state and the failure at which it stopped before: the
/// counters of the due row are raised, the row is re-armed by an update, and
/// the datatypes table is seeded.
pub open spec fn prepared(s: DbState, row: TestScheduledTable) -> (DbState, Option<StoreError>) {
    if row.private_count == u64::MAX || row.public_count == u64::MAX {
        (s, Some(StoreError::Overflow))
    } else {
        match updated::<TestScheduledTable>(s.scheduled, bumped(row)) {
            Err(e) => (s, Some(e)),
            Ok(scheduled) => {
                let (datatypes, failure) = seeded(s.datatypes);
                (DbState { datatypes, scheduled, no_pk: s.no_pk }, failure)
            },
        }
    }
}

/// The number of leading rows that can take one more step.
pub open spec fn advanceable(rows: Seq<DatatypesModel>) -> nat
    decreases rows.len(),
{
    if rows.len() == 0 || !TestTableDatatypes::can_advance(rows[0]) {
        0
    } else {
        1 + advanceable(rows.skip(1))
    }
}

/// `after` is `before` with its first `n` rows rewritten by one firing, each
/// floating-point column by its stepping function, and the other rows
/// untouched.
pub open spec fn stepped<F: Fn(u32) -> u32, G: Fn(u64) -> u64>(
    before: Seq<DatatypesModel>,
    after: Seq<DatatypesModel>,
    n: int,
    next_f32: F,
    next_f64: G,
) -> bool {
    &&& after.len() == before.len()
    &&& forall|i: int|
        0 <= i < n && i < before.len() ==> {
            &&& call_ensures(next_f32, (before[i].t_f32,), (#[trigger] after[i]).t_f32)
            &&& call_ensures(next_f64, (before[i].t_f64,), after[i].t_f64)
            &&& after[i] == TestTableDatatypes::advanced_model(
                before[i],
                after[i].t_f32,
                after[i].t_f64,
            )
        }
    &&& forall|i: int| n <= i < before.len() ==> #[trigger] after[i] == before[i]
}

/// Why a firing for the due row `row` fails in the state `s`, if it does: the
/// failure that stops its preparation, or the first datatypes row that
/// cannot take another step.
pub open spec fn firing_failure(s: DbState, row: TestScheduledTable) -> Option<StoreError> {
    let (mid, failure) = prepared(s, row);
    if failure is Some {
        failure
    } else if advanceable(mid.datatypes.rows) < mid.datatypes.rows.len() {
        Some(StoreError::Overflow)
    } else {
        None
    }
}

/// `after` is what a firing for the due row `row` that succeeds makes of
/// `before`: the row is re-armed with raised counters, the datatypes table
/// is seeded, and every datatypes row is rewritten.
pub open spec fn fired<F: Fn(u32) -> u32, G: Fn(u64) -> u64>(
    before: DbState,
    row: TestScheduledTable,
    after: DbState,
    next_f32: F,
    next_f64: G,
) -> bool {
    let mid = prepared(before, row).0;
    &&& firing_failure(before, row) is None
    &&& after.scheduled == mid.scheduled
    &&& after.no_pk == mid.no_pk
    &&& after.datatypes.sequence == mid.datatypes.sequence
    &&& stepped(
        mid.datatypes.rows,
        after.datatypes.rows,
        mid.datatypes.rows.len() as int,
        next_f32,
        next_f64,
    )
}

/// Where the first `n` rows can advance and the next one, if there is one,
/// cannot, `n` is the number of leading rows that can.
proof fn lemma_advanceable(rows: Seq<DatatypesModel>, n: int)
    requires
        0 <= n <= rows.len(),
        forall|j: int| 0 <= j < n ==> TestTableDatatypes::can_advance(#[trigger] rows[j]),
        n == rows.len() || !TestTableDatatypes::can_advance(rows[n]),
    ensures
        advanceable(rows) == n,
    decreases n,
{
    if n > 0 {
        assert(TestTableDatatypes::can_advance(rows[0]));
        let rest = rows.skip(1);
        assert forall|j: int| 0 <= j < n - 1 implies TestTableDatatypes::can_advance(
            #[trigger] rest[j],
        ) by {
            assert(rest[j] == rows[j + 1]);
        }
        if n < rows.len() {
            assert(rest[n - 1] == rows[n]);
        }
        lemma_advanceable(rest, n - 1);
    }
}

/// Seeds the datatypes table: while it holds fewer rows than the limit, one
/// default row is inserted, verbatim but for the key that the store assigns.
pub fn seed_default_row(db: &mut Db) -> (r: Result<(), StoreError>)
    ensures
        final(db)@.datatypes == seeded(old(db)@.datatypes).0,
        final(db)@.scheduled == old(db)@.scheduled,
        final(db)@.no_pk == old(db)@.no_pk,
        match r {
            Ok(()) => seeded(old(db)@.datatypes).1 is None,
            Err(e) => seeded(old(db)@.datatypes).1 == Some(e),
        },
        valid::<TestTableDatatypes>(final(db)@.datatypes),
{
    if db.test_table_datatypes.count() < SEED_LIMIT {
        match db.test_table_datatypes.insert(TestTableDatatypes::default()) {
            Ok(_) => Ok(()),
            Err(e) => Err(e),
        }
    } else {
        Ok(())
    }
}

/// One firing of the schedule for the due row `row`. It raises both counters
/// of the row and re-arms it by an update, seeds the datatypes table, and
/// then rewrites the datatypes rows in storage order. It stops at the first
/// failure; the store handle then holds what was done up to there, for the
/// transaction to discard.
pub fn test_scheduled_reducer<F: Fn(u32) -> u32, G: Fn(u64) -> u64>(
    db: &mut Db,
    row: TestScheduledTable,
    next_f32: F,
    next_f64: G,
) -> (r: Result<(), StoreError>)
    requires
        forall|bits: u32| call_requires(next_f32, (bits,)),
        forall|bits: u64| call_requires(next_f64, (bits,)),
    ensures
        match prepared(old(db)@, row).1 {
            Some(e) => r == Err::<(), StoreError>(e) && final(db)@ == prepared(old(db)@, row).0,
            None => {
                let mid = prepared(old(db)@, row).0;
                let n = advanceable(mid.datatypes.rows);
                &&& final(db)@.scheduled == mid.scheduled
                &&& final(db)@.no_pk == mid.no_pk
                &&& final(db)@.datatypes.sequence == mid.datatypes.sequence
                &&& stepped(
                    mid.datatypes.rows,
                    final(db)@.datatypes.rows,
                    n as int,
                    next_f32,
                    next_f64,
                )
                &&& r == if n == mid.datatypes.rows.len() {
                    Ok::<(), StoreError>(())
                } else {
                    Err::<(), StoreError>(StoreError::Overflow)
                }
            },
        },
        match r {
            Ok(()) => fired(old(db)@, row, final(db)@, next_f32, next_f64),
            Err(e) => firing_failure(old(db)@, row) == Some(e),
        },
{
    if row.private_count == u64::MAX || row.public_count == u64::MAX {
        return Err(StoreError::Overflow);
    }
    let rearmed = TestScheduledTable {
        scheduled_id: row.scheduled_id,
        h1: row.h1,
        scheduled_at: row.scheduled_at,
        h2: row.h2,
        public_count: row.public_count + 1,
        private_count: row.private_count + 1,
    };
    match db.test_scheduled_table.update(rearmed) {
        Ok(()) => {},
        Err(e) => {
            return Err(e);
        },
    }
    match seed_default_row(db) {
        Ok(()) => {},
        Err(e) => {
            return Err(e);
        },
    }
    let ghost mid = db@;
    assert(prepared(old(db)@, row) == (mid, None::<StoreError>));
    let snapshot = db.test_table_datatypes.iter();
    let mut i: usize = 0;
    while i < snapshot.len()
        invariant
            i <= snapshot.len(),
            prepared(old(db)@, row) == (mid, None::<StoreError>),
            models::<TestTableDatatypes>(snapshot@) == mid.datatypes.rows,
            valid::<TestTableDatatypes>(db@.datatypes),
            valid::<TestTableDatatypes>(mid.datatypes),
            db@.scheduled == mid.scheduled,
            db@.no_pk == mid.no_pk,
            db@.datatypes.sequence == mid.datatypes.sequence,
            stepped(mid.datatypes.rows, db@.datatypes.rows, i as int, next_f32, next_f64),
            forall|j: int|
                0 <= j < i ==> TestTableDatatypes::can_advance(#[trigger] mid.datatypes.rows[j]),
            forall|bits: u32| call_requires(next_f32, (bits,)),
            forall|bits: u64| call_requires(next_f64, (bits,)),
        decreases snapshot.len() - i,
    {
        let current = &snapshot[i];
        assert(current@ == mid.datatypes.rows[i as int]);
        let t_f32: u32 = next_f32(current.t_f32);
        let t_f64: u64 = next_f64(current.t_f64);
        match current.advanced(t_f32, t_f64) {
            Ok(next) => {
                proof {
                    let before = db@.datatypes;
                    assert(before.rows[i as int] == mid.datatypes.rows[i as int]);
                    lemma_key_position::<TestTableDatatypes>(before, i as int);
                    assert(TestTableDatatypes::key_of(next@) == TestTableDatatypes::key_of(
                        before.rows[i as int],
                    ));
                }
                let done = db.test_table_datatypes.update(next);
                assert(done is Ok);
            },
            Err(e) => {
                proof {
                    lemma_advanceable(mid.datatypes.rows, i as int);
                }
                return Err(e);
            },
        }
        i += 1;
    }
    proof {
        lemma_advanceable(mid.datatypes.rows, i as int);
    }
    Ok(())
}

/// The scheduled row that the arming routine inserts, before the store
/// assigns its key.
pub open spec fn first_schedule() -> TestScheduledTable {
    TestScheduledTable {
        scheduled_id: 0,
        h1: 1,
        scheduled_at: ScheduleAt::Interval { micros: SCHEDULE_PERIOD_MICROS },
        h2: 1,
        public_count: 0,
        private_count: 0,
    }
}

/// The row that the arming routine puts into the table without a primary key.
pub open spec fn greeting() -> ViewTypeModel {
    ViewTypeModel { row: 1, name: "Hello World"@ }
}

/// Arms the schedule: inserts one scheduled row, with both counters at zero
/// and a repeating period of one second, under the next key of the sequence,
/// and makes sure that the table without a primary key holds the greeting row.
pub fn start_integration_tests(db: &mut Db) -> (r: Result<(), StoreError>)
    ensures
        final(db)@.datatypes == old(db)@.datatypes,
        match inserted::<TestScheduledTable>(old(db)@.scheduled, first_schedule()) {
            Ok((scheduled, _)) => {
                &&& r is Ok
                &&& final(db)@.scheduled == scheduled
                &&& inserted::<ViewType>(old(db)@.no_pk, greeting()) matches Ok((no_pk, _))
                &&& final(db)@.no_pk == no_pk
            },
            Err(e) => r == Err::<(), StoreError>(e) && final(db)@ == old(db)@,
        },
{
    let schedule = TestScheduledTable {
        scheduled_id: 0,
        h1: 1,
        scheduled_at: ScheduleAt::every_micros(SCHEDULE_PERIOD_MICROS),
        h2: 1,
        public_count: 0,
        private_count: 0,
    };
    match db.test_scheduled_table.insert(schedule) {
        Ok(_) => {},
        Err(e) => {
            return Err(e);
        },
    }
    let hello = ViewType { row: 1, name: "Hello World".to_owned() };
    let stored = db.test_no_pk_table.insert(hello);
    assert(stored is Ok);
    Ok(())
}

/// Deletes every row of a table, one by one, in iteration order.
fn delete_all<R: Row>(table: &mut Table<R>)
    ensures
        final(table)@ == (TableState::<R::V> {
            rows: Seq::empty(),
            sequence: old(table)@.sequence,
        }),
{
    let snapshot = table.iter();
    let ghost start = table@;
    let mut i: usize = 0;
    assert(start.rows.skip(0) =~= start.rows);
    while i < snapshot.len()
        invariant
            i <= snapshot.len(),
            models::<R>(snapshot@) == start.rows,
            table@.rows == start.rows.skip(i as int),
            table@.sequence == start.sequence,
            valid::<R>(table@),
        decreases snapshot.len() - i,
    {
        proof {
            let rows = table@.rows;
            assert(rows[0] == snapshot[i as int]@);
            assert(rows.contains(snapshot[i as int]@));
            let p = rows.index_of(snapshot[i as int]@);
            assert(0 <= p < rows.len() && rows[p] == rows[0]);
            assert(p == 0);
            assert(rows.remove(0) =~= start.rows.skip(i + 1));
        }
        let done = table.delete(&snapshot[i]);
        assert(done is Ok);
        i += 1;
    }
    assert(table@.rows =~= Seq::<R::V>::empty());
}

/// Clears all three tables. Afterwards every count is zero and every
/// iteration is empty; the sequences keep their values, so that no key is
/// assigned a second time.
pub fn clear_integration_tests(db: &mut Db)
    ensures
        final(db)@.datatypes == (TableState::<DatatypesModel> {
            rows: Seq::empty(),
            sequence: old(db)@.datatypes.sequence,
        }),
        final(db)@.scheduled == (TableState::<TestScheduledTable> {
            rows: Seq::empty(),
            sequence: old(db)@.scheduled.sequence,
        }),
        final(db)@.no_pk == (TableState::<ViewTypeModel> {
            rows: Seq::empty(),
            sequence: old(db)@.no_pk.sequence,
        }),
{
    delete_all(&mut db.test_scheduled_table);
    delete_all(&mut db.test_table_datatypes);
    delete_all(&mut db.test_no_pk_table);
}

} // verus!
