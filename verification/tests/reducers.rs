use test_server_module::{
    clear_integration_tests, procedure_test_get_table_datatypes_row, seed_default_row,
    start_integration_tests, test_scheduled_reducer, Db, Engine, ScheduleAt, StoreError,
    TestEnum, TestScheduledTable, TestTableDatatypes, TestType, ViewType,
};

fn next_f32(bits: u32) -> u32 {
    (f32::from_bits(bits) - 0.0001).to_bits()
}

fn next_f64(bits: u64) -> u64 {
    (f64::from_bits(bits) - 0.0001).to_bits()
}

fn example() -> TestType {
    TestType { test_name: "test_name".to_string(), test_int: 1 }
}

fn armed(id: u64, public_count: u64, private_count: u64) -> TestScheduledTable {
    TestScheduledTable {
        scheduled_id: id,
        h1: 1,
        scheduled_at: ScheduleAt::Interval { micros: 1_000_000 },
        h2: 1,
        public_count,
        private_count,
    }
}

#[test]
fn default_row_is_the_declared_value() {
    let d = TestTableDatatypes::default();
    assert_eq!(d.t_u64, 0);
    assert_eq!((d.t_u8, d.t_u16, d.t_u32, d.t_u128), (0, 0, 0, 0));
    assert_eq!(f32::from_bits(d.t_f32), 0.0);
    assert_eq!(f64::from_bits(d.t_f64), 0.0);
    assert_eq!((d.t_i8, d.t_i16, d.t_i32, d.t_i64), (0, 0, 0, 0));
    assert_eq!(d.t_string, "");
    assert_eq!(d.t_vec_string, vec!["".to_string()]);
    assert_eq!(d.t_vec_u8, vec![0u8]);
    assert_eq!(d.t_opt_string, Some("".to_string()));
    assert_eq!(d.t_opt_u64, Some(0));
    assert_eq!(d.t_test_enum, TestEnum::A);
    assert_eq!(d.t_test_enum_vec, vec![TestEnum::A]);
    assert_eq!(d.t_test_enum_option, Some(TestEnum::A));
    assert_eq!(d.t_test_type, example());
    assert_eq!(d.t_test_type_vec, vec![example()]);
    assert_eq!(d.t_test_type_option, Some(example()));
}

#[test]
fn seeding_inserts_one_default_row_per_call_below_ten_rows() {
    let mut db = Db::new();
    for n in 1u64..=10 {
        assert_eq!(seed_default_row(&mut db), Ok(()));
        assert_eq!(db.test_table_datatypes.count(), n);
        let rows = db.test_table_datatypes.iter();
        let expected = TestTableDatatypes { t_u64: n, ..TestTableDatatypes::default() };
        assert_eq!(rows[(n - 1) as usize], expected);
        assert_eq!(rows[(n - 1) as usize].t_string, "");
        assert_eq!(rows[(n - 1) as usize].t_vec_string, vec!["".to_string()]);
        assert_eq!(rows[(n - 1) as usize].t_opt_string, Some("".to_string()));
    }
    assert_eq!(seed_default_row(&mut db), Ok(()));
    assert_eq!(db.test_table_datatypes.count(), 10);
}

#[test]
fn advanced_row_has_the_expected_columns() {
    let row = TestTableDatatypes { t_u64: 9, t_u8: 41, t_i16: -7, ..TestTableDatatypes::default() };
    let next = row.advanced(next_f32(row.t_f32), next_f64(row.t_f64)).unwrap();
    assert_eq!(next.t_u64, 9);
    assert_eq!((next.t_u8, next.t_u16, next.t_u32, next.t_u128), (42, 1, 1, 1));
    assert_eq!(f32::from_bits(next.t_f32), 0.0f32 - 0.0001);
    assert_eq!(f64::from_bits(next.t_f64), 0.0f64 - 0.0001);
    assert_eq!((next.t_i8, next.t_i16, next.t_i32, next.t_i64), (-1, -8, -1, -1));
    assert_eq!(next.t_string, "41");
    assert_eq!(next.t_vec_string, vec!["41".to_string(), "-7".to_string()]);
    assert_eq!(next.t_vec_u8, vec![41u8, 41]);
    assert_eq!(next.t_opt_string, None);
    assert_eq!(next.t_opt_u64, None);
    assert_eq!(next.t_test_enum, TestEnum::A);
    assert_eq!(next.t_test_enum_vec, vec![TestEnum::A, TestEnum::B]);
    assert_eq!(next.t_test_enum_option, Some(TestEnum::A));
    assert_eq!(next.t_test_type, example());
    assert_eq!(next.t_test_type_vec, vec![example(), example()]);
    assert_eq!(next.t_test_type_option, Some(example()));
    let again = next.advanced(5, 6).unwrap();
    assert_eq!((again.t_f32, again.t_f64), (5, 6));
    assert_eq!(again.t_opt_string, Some("Some".to_string()));
    assert_eq!(again.t_opt_u64, Some(9));
    assert_eq!(again.t_string, "42");
    assert_eq!(again.t_vec_string, vec!["42".to_string(), "-8".to_string()]);
}

#[test]
fn advancing_stops_at_the_range_of_each_column() {
    let base = TestTableDatatypes::default();
    let stuck = [
        TestTableDatatypes { t_u8: u8::MAX, ..base.clone() },
        TestTableDatatypes { t_u16: u16::MAX, ..base.clone() },
        TestTableDatatypes { t_u32: u32::MAX, ..base.clone() },
        TestTableDatatypes { t_u128: u128::MAX, ..base.clone() },
        TestTableDatatypes { t_i8: i8::MIN, ..base.clone() },
        TestTableDatatypes { t_i16: i16::MIN, ..base.clone() },
        TestTableDatatypes { t_i32: i32::MIN, ..base.clone() },
        TestTableDatatypes { t_i64: i64::MIN, ..base.clone() },
    ];
    for row in stuck.iter() {
        assert_eq!(row.advanced(0, 0), Err(StoreError::Overflow));
    }
    let edge = TestTableDatatypes { t_u8: 254, t_i8: -127, ..base };
    let next = edge.advanced(0, 0).unwrap();
    assert_eq!((next.t_u8, next.t_i8), (255, -128));
}

#[test]
fn arming_inserts_the_schedule_and_the_greeting() {
    let mut db = Db::new();
    assert_eq!(start_integration_tests(&mut db), Ok(()));
    assert_eq!(db.test_scheduled_table.iter(), vec![armed(1, 0, 0)]);
    assert_eq!(
        db.test_no_pk_table.iter(),
        vec![ViewType { row: 1, name: "Hello World".to_string() }]
    );
    assert_eq!(db.test_table_datatypes.count(), 0);
    assert_eq!(start_integration_tests(&mut db), Ok(()));
    assert_eq!(db.test_scheduled_table.iter(), vec![armed(1, 0, 0), armed(2, 0, 0)]);
    assert_eq!(db.test_no_pk_table.count(), 1);
}

#[test]
fn arming_fails_when_the_schedule_sequence_is_exhausted() {
    let mut db = Db::new();
    db.test_scheduled_table.insert(armed(u64::MAX, 0, 0)).unwrap();
    assert_eq!(start_integration_tests(&mut db), Err(StoreError::Overflow));
    assert_eq!(db.test_scheduled_table.count(), 1);
    assert_eq!(db.test_no_pk_table.count(), 0);
}

#[test]
fn one_firing_raises_both_counters_and_keeps_the_row_armed() {
    let mut engine = Engine::new();
    assert_eq!(engine.call_start(), Ok(()));
    assert_eq!(engine.db().test_scheduled_table.find(1), Some(armed(1, 0, 0)));
    assert_eq!(engine.fire(1, next_f32, next_f64), Ok(()));
    assert_eq!(engine.db().test_scheduled_table.find(1), Some(armed(1, 1, 1)));
    assert_eq!(engine.db().test_scheduled_table.count(), 1);
    assert_eq!(engine.db().test_table_datatypes.count(), 1);
}

#[test]
fn firing_seeds_then_rewrites_every_row() {
    let mut db = Db::new();
    start_integration_tests(&mut db).unwrap();
    assert_eq!(test_scheduled_reducer(&mut db, armed(1, 0, 0), next_f32, next_f64), Ok(()));
    let first = TestTableDatatypes { t_u64: 1, ..TestTableDatatypes::default() }
        .advanced(next_f32(0), next_f64(0))
        .unwrap();
    assert_eq!(db.test_table_datatypes.iter(), vec![first.clone()]);
    assert_eq!(first.t_string, "0");
    assert_eq!(first.t_vec_string, vec!["0".to_string(), "0".to_string()]);
    assert_eq!(first.t_u8, 1);
    assert_eq!(first.t_opt_u64, None);

    assert_eq!(test_scheduled_reducer(&mut db, armed(1, 1, 1), next_f32, next_f64), Ok(()));
    let rows = db.test_table_datatypes.iter();
    assert_eq!(rows.len(), 2);
    assert_eq!(rows[0], first.advanced(next_f32(first.t_f32), next_f64(first.t_f64)).unwrap());
    assert_eq!(rows[0].t_u8, 2);
    assert_eq!(rows[0].t_string, "1");
    assert_eq!(rows[0].t_vec_string, vec!["1".to_string(), "-1".to_string()]);
    assert_eq!(rows[0].t_opt_string, Some("Some".to_string()));
    assert_eq!(rows[0].t_opt_u64, Some(1));
    assert_eq!(f32::from_bits(rows[0].t_f32), (0.0f32 - 0.0001) - 0.0001);
    assert_eq!(rows[1].t_u64, 2);
    assert_eq!(rows[1].t_u8, 1);
    assert_eq!(db.test_scheduled_table.find(1), Some(armed(1, 2, 2)));
}

#[test]
fn firing_stops_seeding_at_ten_rows() {
    let mut engine = Engine::new();
    engine.call_start().unwrap();
    for _ in 0..12 {
        assert_eq!(engine.fire(1, next_f32, next_f64), Ok(()));
    }
    assert_eq!(engine.db().test_table_datatypes.count(), 10);
    assert_eq!(engine.db().test_scheduled_table.find(1), Some(armed(1, 12, 12)));
    let rows = engine.db().test_table_datatypes.iter();
    assert_eq!(rows[0].t_u8, 12);
    assert_eq!(rows[9].t_u8, 3);
    assert_eq!(rows[9].t_u64, 10);
}

#[test]
fn failed_firing_leaves_the_committed_state_unchanged() {
    let mut engine = Engine::new();
    engine.call_start().unwrap();
    let mut tx = engine.begin();
    tx.db.test_table_datatypes.insert(TestTableDatatypes::default()).unwrap();
    tx.db
        .test_table_datatypes
        .insert(TestTableDatatypes { t_i8: i8::MIN, ..TestTableDatatypes::default() })
        .unwrap();
    assert_eq!(engine.commit(tx), Ok(()));
    let before_rows = engine.db().test_table_datatypes.iter();
    let before_timers = engine.db().test_scheduled_table.iter();

    assert_eq!(engine.fire(1, next_f32, next_f64), Err(StoreError::Overflow));
    assert_eq!(engine.db().test_table_datatypes.iter(), before_rows);
    assert_eq!(engine.db().test_scheduled_table.iter(), before_timers);
    assert_eq!(engine.db().test_scheduled_table.find(1), Some(armed(1, 0, 0)));
}

#[test]
fn failed_routine_stops_at_the_first_row_that_cannot_advance() {
    let mut db = Db::new();
    start_integration_tests(&mut db).unwrap();
    let good = db.test_table_datatypes.insert(TestTableDatatypes::default()).unwrap();
    let bad = db
        .test_table_datatypes
        .insert(TestTableDatatypes { t_u16: u16::MAX, ..TestTableDatatypes::default() })
        .unwrap();
    let r = test_scheduled_reducer(&mut db, armed(1, 0, 0), next_f32, next_f64);
    assert_eq!(r, Err(StoreError::Overflow));
    let rows = db.test_table_datatypes.iter();
    assert_eq!(rows.len(), 3);
    assert_eq!(rows[0], good.advanced(next_f32(0), next_f64(0)).unwrap());
    assert_eq!(rows[1], bad);
    assert_eq!(rows[2], TestTableDatatypes { t_u64: 3, ..TestTableDatatypes::default() });
    assert_eq!(db.test_scheduled_table.find(1), Some(armed(1, 1, 1)));
}

#[test]
fn firing_an_unknown_entry_is_refused() {
    let mut engine = Engine::new();
    assert_eq!(engine.fire(1, next_f32, next_f64), Err(StoreError::KeyNotFound));
    engine.call_start().unwrap();
    assert_eq!(engine.fire(2, next_f32, next_f64), Err(StoreError::KeyNotFound));
    assert_eq!(engine.db().test_table_datatypes.count(), 0);
}

#[test]
fn routine_refuses_a_row_that_is_not_in_the_table() {
    let mut db = Db::new();
    let r = test_scheduled_reducer(&mut db, armed(5, 0, 0), next_f32, next_f64);
    assert_eq!(r, Err(StoreError::KeyNotFound));
    assert_eq!(db.test_table_datatypes.count(), 0);
}

#[test]
fn routine_refuses_counters_at_their_maximum() {
    let mut db = Db::new();
    db.test_scheduled_table.insert(armed(0, u64::MAX, 0)).unwrap();
    db.test_scheduled_table.insert(armed(0, 0, u64::MAX)).unwrap();
    let a = test_scheduled_reducer(&mut db, armed(1, u64::MAX, 0), next_f32, next_f64);
    let b = test_scheduled_reducer(&mut db, armed(2, 0, u64::MAX), next_f32, next_f64);
    assert_eq!(a, Err(StoreError::Overflow));
    assert_eq!(b, Err(StoreError::Overflow));
    assert_eq!(db.test_scheduled_table.iter(), vec![armed(1, u64::MAX, 0), armed(2, 0, u64::MAX)]);
    assert_eq!(db.test_table_datatypes.count(), 0);
}

#[test]
fn second_of_two_concurrent_transactions_conflicts() {
    let mut engine = Engine::new();
    let mut first = engine.begin();
    let mut second = engine.begin();
    start_integration_tests(&mut first.db).unwrap();
    seed_default_row(&mut second.db).unwrap();
    assert_eq!(engine.commit(first), Ok(()));
    assert_eq!(engine.commit(second), Err(StoreError::TransactionConflict));
    assert_eq!(engine.db().test_scheduled_table.count(), 1);
    assert_eq!(engine.db().test_table_datatypes.count(), 0);
    let mut third = engine.begin();
    seed_default_row(&mut third.db).unwrap();
    assert_eq!(engine.commit(third), Ok(()));
    assert_eq!(engine.db().test_table_datatypes.count(), 1);
}

#[test]
fn uncommitted_transaction_has_no_effect() {
    let mut engine = Engine::new();
    {
        let mut tx = engine.begin();
        start_integration_tests(&mut tx.db).unwrap();
        assert_eq!(tx.db.test_scheduled_table.count(), 1);
    }
    assert_eq!(engine.db().test_scheduled_table.count(), 0);
    assert_eq!(engine.call_clear(), Ok(()));
}

#[test]
fn clear_empties_every_table() {
    let mut engine = Engine::new();
    engine.call_start().unwrap();
    engine.fire(1, next_f32, next_f64).unwrap();
    engine.fire(1, next_f32, next_f64).unwrap();
    assert_eq!(engine.db().test_table_datatypes.count(), 2);
    assert_eq!(engine.call_clear(), Ok(()));
    assert_eq!(engine.db().test_table_datatypes.count(), 0);
    assert_eq!(engine.db().test_scheduled_table.count(), 0);
    assert_eq!(engine.db().test_no_pk_table.count(), 0);
    assert_eq!(engine.db().test_table_datatypes.iter(), vec![]);
    assert_eq!(engine.db().test_scheduled_table.iter(), vec![]);
    assert_eq!(engine.db().test_no_pk_table.iter(), vec![]);
}

#[test]
fn clear_does_not_reset_the_sequences() {
    let mut db = Db::new();
    start_integration_tests(&mut db).unwrap();
    seed_default_row(&mut db).unwrap();
    seed_default_row(&mut db).unwrap();
    clear_integration_tests(&mut db);
    assert_eq!(db.test_table_datatypes.count(), 0);
    start_integration_tests(&mut db).unwrap();
    seed_default_row(&mut db).unwrap();
    assert_eq!(db.test_scheduled_table.iter(), vec![armed(2, 0, 0)]);
    assert_eq!(db.test_table_datatypes.iter()[0].t_u64, 3);
}

#[test]
fn procedure_finds_a_row_by_its_key() {
    let mut engine = Engine::new();
    engine.call_start().unwrap();
    engine.fire(1, next_f32, next_f64).unwrap();
    let rows = engine.db().test_table_datatypes.iter();
    assert_eq!(procedure_test_get_table_datatypes_row(&mut engine, 1), Some(rows[0].clone()));
    assert_eq!(procedure_test_get_table_datatypes_row(&mut engine, 2), None);
    assert_eq!(procedure_test_get_table_datatypes_row(&mut engine, 0), None);
    assert_eq!(engine.db().test_table_datatypes.iter(), rows);
}
