use test_server_module::module::{datatypes_table, module_schema, no_pk_table, scheduled_table};
use test_server_module::schema::{
    Caller, Column, ColumnType, IndexDecl, Returns, Schema, SchemaError, Shape, TableDecl,
    ViewDecl,
};

fn column(name: &str, primary_key: bool, auto_inc: bool) -> Column {
    Column {
        name: name.to_string(),
        kind: ColumnType::U64,
        shape: Shape::Single,
        primary_key,
        auto_inc,
    }
}

fn table(name: &str, columns: Vec<Column>) -> TableDecl {
    TableDecl { name: name.to_string(), columns, indexes: vec![], public: true, scheduled: None }
}

fn schema(tables: Vec<TableDecl>) -> Schema {
    Schema { tables, reducers: vec![], views: vec![], procedures: vec![] }
}

#[test]
fn module_declaration_is_valid() {
    let s = module_schema();
    assert_eq!(s.validate(), Ok(()));
    assert_eq!(s.tables.len(), 3);
    assert_eq!(s.tables[0], datatypes_table());
    assert_eq!(s.tables[1], scheduled_table());
    assert_eq!(s.tables[2], no_pk_table());
    assert_eq!(
        s.reducers,
        vec!["test_scheduled_reducer", "start_integration_tests", "clear_integration_tests"]
    );
    assert_eq!(s.procedures, vec!["procedure_test_get_table_datatypes_row"]);
    assert_eq!(s.views.len(), 10);
    assert!(s.has_reducer(&"clear_integration_tests".to_string()));
    assert!(!s.has_reducer(&"missing".to_string()));
    assert_eq!(s.table_position(&"test_no_pk_table".to_string()), Some(2));
    assert_eq!(s.table_position(&"test_no_pk".to_string()), None);
}

#[test]
fn module_tables_declare_their_columns_and_roles() {
    let t = datatypes_table();
    assert_eq!(t.name, "test_table_datatypes");
    assert_eq!(t.columns.len(), 22);
    assert_eq!(t.primary_key(), Some(0));
    assert!(t.columns[0].auto_inc);
    assert_eq!(t.columns[3].name, "t_u32");
    assert_eq!(t.columns[5].kind, ColumnType::F32);
    assert_eq!((t.columns[12].kind, t.columns[12].shape), (ColumnType::Text, Shape::Sequence));
    assert_eq!((t.columns[21].kind, t.columns[21].shape), (ColumnType::Struct, Shape::Optional));
    assert_eq!(t.indexes, vec![IndexDecl { name: "t_u32".to_string(), columns: vec![3] }]);
    assert!(t.public);
    assert_eq!(t.scheduled, None);

    let s = scheduled_table();
    assert_eq!(s.columns.len(), 6);
    assert_eq!(s.primary_key(), Some(0));
    assert_eq!(s.columns[2].kind, ColumnType::Schedule);
    assert_eq!(s.scheduled, Some("test_scheduled_reducer".to_string()));
    assert_eq!(
        s.indexes,
        vec![IndexDecl { name: "get_by_public_count".to_string(), columns: vec![4] }]
    );
    assert_eq!(s.columns[4].name, "public_count");

    let n = no_pk_table();
    assert_eq!(n.columns.len(), 2);
    assert_eq!(n.primary_key(), None);
    assert!(!n.public);
    assert_eq!(n.indexes, vec![IndexDecl { name: "row".to_string(), columns: vec![0] }]);
}

#[test]
fn public_views_are_open_to_anonymous_callers() {
    let s = module_schema();
    for view in s.views.iter() {
        assert!(view.public);
        assert!(view.externally_invokable());
    }
    let over_private: Vec<&ViewDecl> =
        s.views.iter().filter(|v| v.table == "test_no_pk_table").collect();
    assert_eq!(over_private.len(), 3);
    for view in over_private {
        assert_eq!(view.caller, Caller::Anonymous);
        assert!(view.externally_invokable());
    }
    assert_eq!(s.views[6].name, "test_no_pk_query");
    assert_eq!(s.views[6].yields, Returns::Query);
    assert_eq!(s.views[8].yields, Returns::OptionalRow);
    assert_eq!(s.views[1].caller, Caller::Identified);
    let hidden = ViewDecl { public: false, ..s.views[0].clone() };
    assert!(!hidden.externally_invokable());
}

#[test]
fn validation_reports_the_first_defect() {
    let twice = schema(vec![table("a", vec![]), table("b", vec![]), table("a", vec![])]);
    assert_eq!(twice.validate(), Err(SchemaError::DuplicateTable));

    let two_keys =
        schema(vec![table("a", vec![column("x", true, false), column("y", true, true)])]);
    assert_eq!(two_keys.validate(), Err(SchemaError::DuplicatePrimaryKey));

    let stray = schema(vec![table("a", vec![column("x", true, true), column("y", false, true)])]);
    assert_eq!(stray.validate(), Err(SchemaError::AutoIncWithoutKey));

    let mut indexed = table("a", vec![column("x", false, false)]);
    indexed.indexes.push(IndexDecl { name: "by_x".to_string(), columns: vec![0] });
    assert_eq!(schema(vec![indexed.clone()]).validate(), Ok(()));
    indexed.indexes.push(IndexDecl { name: "by_y".to_string(), columns: vec![0, 1] });
    assert_eq!(schema(vec![indexed]).validate(), Err(SchemaError::IndexColumnMissing));

    let mut timed = table("a", vec![column("x", true, true)]);
    timed.scheduled = Some("tick".to_string());
    let mut s = schema(vec![timed]);
    assert_eq!(s.validate(), Err(SchemaError::MissingReducer));
    s.reducers.push("tick".to_string());
    assert_eq!(s.validate(), Ok(()));

    s.views.push(ViewDecl {
        name: "v".to_string(),
        public: true,
        caller: Caller::Anonymous,
        table: "b".to_string(),
        yields: Returns::Rows,
    });
    assert_eq!(s.validate(), Err(SchemaError::MissingTable));
    s.tables.push(table("b", vec![]));
    assert_eq!(s.validate(), Ok(()));
    s.tables.push(table("b", vec![column("x", true, false), column("y", true, false)]));
    assert_eq!(s.validate(), Err(SchemaError::DuplicateTable));
    assert_eq!(schema(vec![]).validate(), Ok(()));
}
