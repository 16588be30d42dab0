use test_server_module::{
    view_test_anonymous_all_types, view_test_first_type_row, view_test_no_pk_option,
    view_test_no_pk_vec, view_test_option, view_test_private_scheduled_count,
    view_test_public_scheduled_count, view_test_u32_at_30, Db, ScheduleAt, TestScheduledTable,
    TestTableDatatypes, ViewType,
};

fn timer(public_count: u64, private_count: u64) -> TestScheduledTable {
    TestScheduledTable {
        scheduled_id: 0,
        h1: 3,
        scheduled_at: ScheduleAt::Time { micros_since_unix_epoch: 77 },
        h2: 4,
        public_count,
        private_count,
    }
}

fn ten_rows() -> Db {
    let mut db = Db::new();
    for k in [9u32, 8, 7, 6, 5, 4, 3, 2, 1, 0] {
        db.test_table_datatypes
            .insert(TestTableDatatypes { t_u32: k, ..TestTableDatatypes::default() })
            .unwrap();
    }
    db
}

#[test]
fn all_types_view_returns_ten_rows_in_index_order() {
    let db = ten_rows();
    let rows = view_test_anonymous_all_types(&db);
    let keys: Vec<u32> = rows.iter().map(|r| r.t_u32).collect();
    assert_eq!(keys, vec![0, 1, 2, 3, 4, 5, 6, 7, 8, 9]);
    assert_eq!(rows[0].t_u64, 10);
    assert_eq!(view_test_anonymous_all_types(&Db::new()), vec![]);
}

#[test]
fn first_type_row_view_returns_the_smallest_index() {
    let db = ten_rows();
    let rows = view_test_first_type_row(&db);
    assert_eq!(rows.len(), 1);
    assert_eq!((rows[0].t_u32, rows[0].t_u64), (0, 10));
    assert_eq!(view_test_first_type_row(&Db::new()), vec![]);
}

#[test]
fn point_view_at_30_is_empty_without_such_a_row() {
    let mut db = ten_rows();
    assert_eq!(view_test_u32_at_30(&db), vec![]);
    db.test_table_datatypes
        .insert(TestTableDatatypes { t_u32: 30, ..TestTableDatatypes::default() })
        .unwrap();
    db.test_table_datatypes
        .insert(TestTableDatatypes { t_u32: 31, ..TestTableDatatypes::default() })
        .unwrap();
    let rows = view_test_u32_at_30(&db);
    assert_eq!(rows.len(), 1);
    assert_eq!((rows[0].t_u32, rows[0].t_u64), (30, 11));
}

#[test]
fn scheduled_count_views_show_the_first_row_by_public_count() {
    let mut db = Db::new();
    assert_eq!(view_test_public_scheduled_count(&db), vec![]);
    assert_eq!(view_test_private_scheduled_count(&db), vec![]);
    db.test_scheduled_table.insert(timer(8, 21)).unwrap();
    db.test_scheduled_table.insert(timer(2, 22)).unwrap();
    let shown = TestScheduledTable {
        scheduled_id: 2,
        h1: 1,
        scheduled_at: ScheduleAt::Time { micros_since_unix_epoch: 77 },
        h2: 1,
        public_count: 2,
        private_count: 0,
    };
    assert_eq!(view_test_public_scheduled_count(&db), vec![shown]);
    assert_eq!(
        view_test_private_scheduled_count(&db),
        vec![TestScheduledTable { private_count: 22, ..shown }]
    );
}

#[test]
fn views_over_the_private_table_read_it_for_any_caller() {
    let mut db = Db::new();
    assert_eq!(view_test_no_pk_option(&db), None);
    assert_eq!(view_test_no_pk_vec(&db), vec![]);
    db.test_no_pk_table.insert(ViewType { row: 4, name: "d".to_string() }).unwrap();
    db.test_no_pk_table.insert(ViewType { row: 0, name: "z".to_string() }).unwrap();
    db.test_no_pk_table.insert(ViewType { row: u64::MAX, name: "m".to_string() }).unwrap();
    assert_eq!(view_test_no_pk_option(&db), Some(ViewType { row: 0, name: "z".to_string() }));
    assert_eq!(
        view_test_no_pk_vec(&db),
        vec![
            ViewType { row: 0, name: "z".to_string() },
            ViewType { row: 4, name: "d".to_string() },
            ViewType { row: u64::MAX, name: "m".to_string() },
        ]
    );
}

#[test]
fn option_view_takes_the_first_row_between_5_and_100() {
    let mut db = Db::new();
    db.test_scheduled_table.insert(timer(4, 0)).unwrap();
    db.test_scheduled_table.insert(timer(101, 0)).unwrap();
    assert_eq!(view_test_option(&db), None);
    db.test_scheduled_table.insert(timer(100, 0)).unwrap();
    assert_eq!(view_test_option(&db), Some(TestScheduledTable { scheduled_id: 3, ..timer(100, 0) }));
    db.test_scheduled_table.insert(timer(5, 1)).unwrap();
    assert_eq!(view_test_option(&db), Some(TestScheduledTable { scheduled_id: 4, ..timer(5, 1) }));
}
