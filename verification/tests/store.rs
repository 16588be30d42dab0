use test_server_module::table::Table;
use test_server_module::{
    Row, ScheduleAt, StoreError, TestScheduledTable, TestTableDatatypes, ViewType,
};

fn timer(id: u64, public_count: u64) -> TestScheduledTable {
    TestScheduledTable {
        scheduled_id: id,
        h1: 7,
        scheduled_at: ScheduleAt::Interval { micros: 10 },
        h2: 8,
        public_count,
        private_count: 0,
    }
}

fn typed(t_u32: u32) -> TestTableDatatypes {
    TestTableDatatypes { t_u32, ..TestTableDatatypes::default() }
}

fn named(row: u64, name: &str) -> ViewType {
    ViewType { row, name: name.to_string() }
}

#[test]
fn insert_assigns_keys_from_one_upwards() {
    let mut t: Table<TestScheduledTable> = Table::new();
    assert_eq!(t.count(), 0);
    let a = t.insert(timer(0, 5)).unwrap();
    let b = t.insert(timer(0, 6)).unwrap();
    let c = t.insert(timer(0, 7)).unwrap();
    assert_eq!((a.scheduled_id, b.scheduled_id, c.scheduled_id), (1, 2, 3));
    assert_eq!(a, timer(1, 5));
    assert_eq!(t.count(), 3);
    assert_eq!(t.iter(), vec![timer(1, 5), timer(2, 6), timer(3, 7)]);
}

#[test]
fn assigned_keys_are_not_reused_after_deletes() {
    let mut t: Table<TestScheduledTable> = Table::new();
    let a = t.insert(timer(0, 1)).unwrap();
    let b = t.insert(timer(0, 2)).unwrap();
    assert_eq!(t.delete(&b), Ok(()));
    assert_eq!(t.delete(&a), Ok(()));
    assert_eq!(t.count(), 0);
    let c = t.insert(timer(0, 3)).unwrap();
    assert_eq!(c.scheduled_id, 3);
    assert_eq!(t.delete(&c), Ok(()));
    let d = t.insert(timer(0, 4)).unwrap();
    assert_eq!(d.scheduled_id, 4);
}

#[test]
fn insert_with_a_taken_key_is_refused() {
    let mut t: Table<TestScheduledTable> = Table::new();
    t.insert(timer(0, 1)).unwrap();
    assert_eq!(t.insert(timer(1, 9)), Err(StoreError::DuplicateKey));
    assert_eq!(t.iter(), vec![timer(1, 1)]);
}

#[test]
fn insert_with_a_free_key_keeps_it_and_raises_the_sequence() {
    let mut t: Table<TestScheduledTable> = Table::new();
    assert_eq!(t.insert(timer(10, 1)), Ok(timer(10, 1)));
    assert_eq!(t.insert(timer(4, 2)), Ok(timer(4, 2)));
    assert_eq!(t.insert(timer(0, 3)), Ok(timer(11, 3)));
}

#[test]
fn insert_fails_when_the_sequence_is_exhausted() {
    let mut t: Table<TestScheduledTable> = Table::new();
    t.insert(timer(u64::MAX, 1)).unwrap();
    assert_eq!(t.insert(timer(0, 2)), Err(StoreError::Overflow));
    assert_eq!(t.count(), 1);
}

#[test]
fn update_replaces_the_whole_row_in_place() {
    let mut t: Table<TestScheduledTable> = Table::new();
    t.insert(timer(0, 1)).unwrap();
    t.insert(timer(0, 2)).unwrap();
    let mut changed = timer(1, 50);
    changed.h1 = 99;
    changed.private_count = 3;
    assert_eq!(t.update(changed), Ok(()));
    assert_eq!(t.iter(), vec![changed, timer(2, 2)]);
    assert_eq!(t.find(1), Some(changed));
}

#[test]
fn update_of_an_absent_key_is_refused() {
    let mut t: Table<TestScheduledTable> = Table::new();
    t.insert(timer(0, 1)).unwrap();
    assert_eq!(t.update(timer(2, 1)), Err(StoreError::KeyNotFound));
    assert_eq!(t.update(timer(0, 1)), Err(StoreError::KeyNotFound));
    assert_eq!(t.iter(), vec![timer(1, 1)]);
}

#[test]
fn delete_of_an_absent_row_is_refused() {
    let mut t: Table<TestScheduledTable> = Table::new();
    t.insert(timer(0, 1)).unwrap();
    assert_eq!(t.delete(&timer(2, 1)), Err(StoreError::KeyNotFound));
    assert_eq!(t.delete(&timer(1, 2)), Err(StoreError::KeyNotFound));
    assert_eq!(t.count(), 1);
    assert_eq!(t.delete(&timer(1, 1)), Ok(()));
    assert_eq!(t.delete(&timer(1, 1)), Err(StoreError::KeyNotFound));
}

#[test]
fn find_misses_absent_keys() {
    let mut t: Table<TestScheduledTable> = Table::new();
    t.insert(timer(0, 1)).unwrap();
    assert_eq!(t.find(0), None);
    assert_eq!(t.find(2), None);
    assert_eq!(t.find(1), Some(timer(1, 1)));
}

#[test]
fn table_without_key_is_a_set() {
    let mut t: Table<ViewType> = Table::new();
    assert_eq!(t.insert(named(1, "a")), Ok(named(1, "a")));
    assert_eq!(t.insert(named(1, "a")), Ok(named(1, "a")));
    assert_eq!(t.insert(named(1, "b")), Ok(named(1, "b")));
    assert_eq!(t.count(), 2);
    assert_eq!(t.iter(), vec![named(1, "a"), named(1, "b")]);
    assert_eq!(t.update(named(1, "a")), Err(StoreError::KeyNotFound));
    assert_eq!(t.find(1), None);
    assert_eq!(t.delete(&named(1, "a")), Ok(()));
    assert_eq!(t.iter(), vec![named(1, "b")]);
}

#[test]
fn filter_returns_all_rows_in_ascending_index_order() {
    let mut t: Table<TestTableDatatypes> = Table::new();
    for k in [7u32, 3, 9, 0, 5, 1, 8, 2, 6, 4] {
        t.insert(typed(k)).unwrap();
    }
    let all = t.filter(0, u32::MAX as u64).collect();
    assert_eq!(all.len(), 10);
    let keys: Vec<u32> = all.iter().map(|r| r.t_u32).collect();
    assert_eq!(keys, vec![0, 1, 2, 3, 4, 5, 6, 7, 8, 9]);
    let ids: Vec<u64> = all.iter().map(|r| r.t_u64).collect();
    assert_eq!(ids, vec![4, 6, 8, 2, 10, 5, 9, 1, 7, 3]);
}

#[test]
fn filter_of_an_absent_point_is_empty() {
    let mut t: Table<TestTableDatatypes> = Table::new();
    for k in 0u32..10 {
        t.insert(typed(k)).unwrap();
    }
    assert_eq!(t.filter_point(30).collect(), Vec::<TestTableDatatypes>::new());
    let at_3 = t.filter_point(3).collect();
    assert_eq!(at_3.len(), 1);
    assert_eq!(at_3[0].t_u32, 3);
}

#[test]
fn filter_includes_both_bounds() {
    let mut t: Table<TestScheduledTable> = Table::new();
    for c in [101u64, 100, 4, 5, 50] {
        t.insert(timer(0, c)).unwrap();
    }
    let got: Vec<u64> = t.filter(5, 100).collect().iter().map(|r| r.public_count).collect();
    assert_eq!(got, vec![5, 50, 100]);
    assert_eq!(t.filter(6, 5).collect(), vec![]);
}

#[test]
fn filter_reaches_the_largest_value_of_the_column() {
    let mut t: Table<TestTableDatatypes> = Table::new();
    t.insert(typed(u32::MAX)).unwrap();
    t.insert(typed(0)).unwrap();
    let keys: Vec<u32> =
        t.filter(0, u32::MAX as u64).collect().iter().map(|r| r.t_u32).collect();
    assert_eq!(keys, vec![0, u32::MAX]);
}

#[test]
fn filter_keeps_storage_order_among_equal_keys() {
    let mut t: Table<ViewType> = Table::new();
    t.insert(named(2, "x")).unwrap();
    t.insert(named(1, "b")).unwrap();
    t.insert(named(2, "y")).unwrap();
    t.insert(named(1, "a")).unwrap();
    let got = t.filter(0, u64::MAX).collect();
    assert_eq!(got, vec![named(1, "b"), named(1, "a"), named(2, "x"), named(2, "y")]);
}

#[test]
fn cursor_hands_out_rows_from_the_front() {
    let mut t: Table<ViewType> = Table::new();
    t.insert(named(3, "c")).unwrap();
    t.insert(named(1, "a")).unwrap();
    t.insert(named(2, "b")).unwrap();
    let mut cursor = t.filter(0, u64::MAX);
    assert_eq!(cursor.next(), Some(named(1, "a")));
    assert_eq!(cursor.collect(), vec![named(2, "b"), named(3, "c")]);
    let mut empty = t.filter(10, 20);
    assert_eq!(empty.next(), None);
    assert_eq!(empty.next(), None);
}

#[test]
fn duplicate_of_a_table_is_independent() {
    let mut t: Table<TestScheduledTable> = Table::new();
    t.insert(timer(0, 1)).unwrap();
    let mut copy = t.duplicate();
    copy.insert(timer(0, 2)).unwrap();
    assert_eq!(t.count(), 1);
    assert_eq!(copy.iter(), vec![timer(1, 1), timer(2, 2)]);
}

#[test]
fn row_columns_by_position() {
    let row = timer(4, 9);
    assert_eq!(row.column(0), Some(4));
    assert_eq!(row.column(1), Some(7));
    assert_eq!(row.column(2), None);
    assert_eq!(row.column(4), Some(9));
    assert_eq!(row.column(6), None);
    let typed_row = TestTableDatatypes { t_i8: -3, t_u128: 5, ..typed(12) };
    assert_eq!(typed_row.column(3), Some(12));
    assert_eq!(typed_row.column(4), None);
    assert_eq!(typed_row.column(7), Some(-3));
    assert_eq!(typed_row.column(11), None);
    assert_eq!(named(8, "n").column(0), Some(8));
    assert_eq!(named(8, "n").column(1), None);
    assert!(typed_row.same(&typed_row.duplicate()));
    assert!(!typed_row.same(&typed(12)));
}
