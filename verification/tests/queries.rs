use test_server_module::query::{run, select};
use test_server_module::{
    view_test_no_pk_query, view_test_query, Comparison, Db, Predicate, Query, QueryRows,
    ScheduleAt, TableName, TestScheduledTable, TestTableDatatypes, ViewType,
};

fn named(row: u64, name: &str) -> ViewType {
    ViewType { row, name: name.to_string() }
}

fn timer(h1: u16, public_count: u64) -> TestScheduledTable {
    TestScheduledTable {
        scheduled_id: 0,
        h1,
        scheduled_at: ScheduleAt::Interval { micros: 1 },
        h2: 0,
        public_count,
        private_count: 0,
    }
}

#[test]
fn query_views_hand_out_their_predicates() {
    assert_eq!(
        view_test_no_pk_query(),
        Query {
            table: TableName::TestNoPkTable,
            filter: Some(Predicate::Compare {
                column: 0,
                comparison: Comparison::Gt,
                literal: 0
            }),
        }
    );
    assert_eq!(
        view_test_query(),
        Query {
            table: TableName::TestScheduledTable,
            filter: Some(Predicate::Compare {
                column: 1,
                comparison: Comparison::Eq,
                literal: 1
            }),
        }
    );
}

#[test]
fn no_pk_query_selects_rows_above_zero() {
    let mut db = Db::new();
    db.test_no_pk_table.insert(named(3, "c")).unwrap();
    db.test_no_pk_table.insert(named(0, "z")).unwrap();
    db.test_no_pk_table.insert(named(1, "a")).unwrap();
    let q = view_test_no_pk_query();
    assert_eq!(run(&db, &q), QueryRows::NoPk(vec![named(3, "c"), named(1, "a")]));
}

#[test]
fn scheduled_query_selects_rows_with_h1_one() {
    let mut db = Db::new();
    db.test_scheduled_table.insert(timer(1, 5)).unwrap();
    db.test_scheduled_table.insert(timer(2, 6)).unwrap();
    db.test_scheduled_table.insert(timer(1, 7)).unwrap();
    let q = view_test_query();
    let expected = vec![
        TestScheduledTable { scheduled_id: 1, ..timer(1, 5) },
        TestScheduledTable { scheduled_id: 3, ..timer(1, 7) },
    ];
    assert_eq!(run(&db, &q), QueryRows::Scheduled(expected));
}

#[test]
fn comparisons_and_connectives() {
    assert!(Comparison::Eq.test(3, 3));
    assert!(!Comparison::Ne.test(3, 3));
    assert!(Comparison::Gt.test(4, 3));
    assert!(!Comparison::Lt.test(4, 3));
    assert!(Comparison::Gte.test(-1, -1));
    assert!(Comparison::Lte.test(-2, -1));
    let mut db = Db::new();
    for k in 0u32..6 {
        db.test_table_datatypes
            .insert(TestTableDatatypes { t_u32: k, t_i8: -(k as i8), ..TestTableDatatypes::default() })
            .unwrap();
    }
    let between = Predicate::compare(3, Comparison::Gte, 2).and(Predicate::compare(
        7,
        Comparison::Gt,
        -4,
    ));
    let got: Vec<u32> =
        select(&db.test_table_datatypes, &Some(between)).iter().map(|r| r.t_u32).collect();
    assert_eq!(got, vec![2, 3]);
    let either =
        Predicate::compare(0, Comparison::Eq, 1).or(Predicate::compare(3, Comparison::Eq, 5));
    let got: Vec<u64> =
        select(&db.test_table_datatypes, &Some(either)).iter().map(|r| r.t_u64).collect();
    assert_eq!(got, vec![1, 6]);
    assert_eq!(select(&db.test_table_datatypes, &None).len(), 6);
}

#[test]
fn malformed_predicate_selects_nothing() {
    let mut db = Db::new();
    db.test_no_pk_table.insert(named(3, "c")).unwrap();
    let on_text = Predicate::compare(1, Comparison::Ne, 0);
    assert!(!on_text.check::<ViewType>());
    assert_eq!(on_text.evaluate(&named(3, "c")), None);
    assert_eq!(Predicate::compare(0, Comparison::Lt, 4).evaluate(&named(3, "c")), Some(true));
    assert_eq!(select(&db.test_no_pk_table, &Some(on_text)), vec![]);
    let half = Predicate::compare(0, Comparison::Gt, 0).or(Predicate::compare(9, Comparison::Eq, 0));
    assert!(!half.check::<ViewType>());
    let q = Query { table: TableName::TestNoPkTable, filter: Some(half) };
    assert_eq!(run(&db, &q), QueryRows::NoPk(vec![]));
    let wide = Predicate::compare(4, Comparison::Eq, 0);
    assert!(!wide.check::<TestTableDatatypes>());
    assert!(Predicate::compare(10, Comparison::Eq, 0).check::<TestTableDatatypes>());
    let all = Query { table: TableName::TestTableDatatypes, filter: None };
    assert_eq!(run(&db, &all), QueryRows::Datatypes(vec![]));
}
