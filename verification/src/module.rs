//! The declaration of this module: its three tables, its routines, its
//! views and its procedure.

use vstd::prelude::*;
use crate::datatypes::TestTableDatatypes;
use crate::row::{Row, TestScheduledTable, ViewType};
use crate::schema::{
    dangling_column, dangling_index, defect, key_count, lemma_key_count, reducer_named,
    stray_auto_inc,
    table_named, unbound_schedule, Caller, Column, ColumnType, IndexDecl, Returns, Schema, Shape,
    TableDecl, ViewDecl,
};

verus! {

/// What a column declares: name, type, shape, and whether it is the primary
/// key and auto-increment.
pub type ColumnModel = (Seq<char>, ColumnType, Shape, bool, bool);

/// What a view declares: name, visibility, access context, table, and the
/// shape of its result.
pub type ViewModel = (Seq<char>, bool, Caller, Seq<char>, Returns);

/// The declaration of a column that plays no key role.
pub open spec fn plain_column_model(name: Seq<char>, kind: ColumnType, shape: Shape) -> ColumnModel {
    (name, kind, shape, false, false)
}

/// The declaration of an auto-increment primary key column.
pub open spec fn key_column_model(name: Seq<char>, kind: ColumnType) -> ColumnModel {
    (name, kind, Shape::Single, true, true)
}

/// What a sequence of columns declares.
pub open spec fn column_models(columns: Seq<Column>) -> Seq<ColumnModel> {
    columns.map_values(|c: Column| (c.name@, c.kind, c.shape, c.primary_key, c.auto_inc))
}

/// What a sequence of views declares.
pub open spec fn view_models(views: Seq<ViewDecl>) -> Seq<ViewModel> {
    views.map_values(|v: ViewDecl| (v.name@, v.public, v.caller, v.table@, v.yields))
}

/// The texts of a sequence of names.
pub open spec fn texts(names: Seq<String>) -> Seq<Seq<char>> {
    names.map_values(|s: String| s@)
}

/// The text of an optional name.
pub open spec fn option_text(name: Option<String>) -> Option<Seq<char>> {
    match name {
        Some(s) => Some(s@),
        None => None,
    }
}

fn plain_column(name: &str, kind: ColumnType, shape: Shape) -> (c: Column)
    ensures
        (c.name@, c.kind, c.shape, c.primary_key, c.auto_inc) == plain_column_model(
            name@,
            kind,
            shape,
        ),
{
    Column { name: name.to_owned(), kind, shape, primary_key: false, auto_inc: false }
}

fn key_column(name: &str, kind: ColumnType) -> (c: Column)
    ensures
        (c.name@, c.kind, c.shape, c.primary_key, c.auto_inc) == key_column_model(name@, kind),
{
    Column { name: name.to_owned(), kind, shape: Shape::Single, primary_key: true, auto_inc: true }
}

fn view(name: &str, caller: Caller, table: &str, yields: Returns) -> (v: ViewDecl)
    ensures
        (v.name@, v.public, v.caller, v.table@, v.yields) == (
            name@,
            true,
            caller,
            table@,
            yields,
        ),
{
    ViewDecl { name: name.to_owned(), public: true, caller, table: table.to_owned(), yields }
}

/// The columns of the table with one column of every supported type, in order.
pub open spec fn datatypes_columns() -> Seq<ColumnModel> {
    seq![
        key_column_model("t_u64"@, ColumnType::U64),
        plain_column_model("t_u8"@, ColumnType::U8, Shape::Single),
        plain_column_model("t_u16"@, ColumnType::U16, Shape::Single),
        plain_column_model("t_u32"@, ColumnType::U32, Shape::Single),
        plain_column_model("t_u128"@, ColumnType::U128, Shape::Single),
        plain_column_model("t_f32"@, ColumnType::F32, Shape::Single),
        plain_column_model("t_f64"@, ColumnType::F64, Shape::Single),
        plain_column_model("t_i8"@, ColumnType::I8, Shape::Single),
        plain_column_model("t_i16"@, ColumnType::I16, Shape::Single),
        plain_column_model("t_i32"@, ColumnType::I32, Shape::Single),
        plain_column_model("t_i64"@, ColumnType::I64, Shape::Single),
        plain_column_model("t_string"@, ColumnType::Text, Shape::Single),
        plain_column_model("t_vec_string"@, ColumnType::Text, Shape::Sequence),
        plain_column_model("t_vec_u8"@, ColumnType::U8, Shape::Sequence),
        plain_column_model("t_opt_string"@, ColumnType::Text, Shape::Optional),
        plain_column_model("t_opt_u64"@, ColumnType::U64, Shape::Optional),
        plain_column_model("t_test_enum"@, ColumnType::Enum, Shape::Single),
        plain_column_model("t_test_enum_vec"@, ColumnType::Enum, Shape::Sequence),
        plain_column_model("t_test_enum_option"@, ColumnType::Enum, Shape::Optional),
        plain_column_model("t_test_type"@, ColumnType::Struct, Shape::Single),
        plain_column_model("t_test_type_vec"@, ColumnType::Struct, Shape::Sequence),
        plain_column_model("t_test_type_option"@, ColumnType::Struct, Shape::Optional),
    ]
}

/// Declares the table with one column of every supported type.
pub fn datatypes_table() -> (t: TableDecl)
    ensures
        t.name@ == "test_table_datatypes"@,
        column_models(t.columns@) == datatypes_columns(),
        t.indexes@.len() == 1,
        t.indexes@[0].name@ == "t_u32"@,
        t.indexes@[0].columns@ == seq![3usize],
        t.public,
        t.scheduled is None,
        key_count(t.columns@) == 1,
        !stray_auto_inc(t),
        !dangling_index(t),
{
    let columns: Vec<Column> = vec![
        key_column("t_u64", ColumnType::U64),
        plain_column("t_u8", ColumnType::U8, Shape::Single),
        plain_column("t_u16", ColumnType::U16, Shape::Single),
        plain_column("t_u32", ColumnType::U32, Shape::Single),
        plain_column("t_u128", ColumnType::U128, Shape::Single),
        plain_column("t_f32", ColumnType::F32, Shape::Single),
        plain_column("t_f64", ColumnType::F64, Shape::Single),
        plain_column("t_i8", ColumnType::I8, Shape::Single),
        plain_column("t_i16", ColumnType::I16, Shape::Single),
        plain_column("t_i32", ColumnType::I32, Shape::Single),
        plain_column("t_i64", ColumnType::I64, Shape::Single),
        plain_column("t_string", ColumnType::Text, Shape::Single),
        plain_column("t_vec_string", ColumnType::Text, Shape::Sequence),
        plain_column("t_vec_u8", ColumnType::U8, Shape::Sequence),
        plain_column("t_opt_string", ColumnType::Text, Shape::Optional),
        plain_column("t_opt_u64", ColumnType::U64, Shape::Optional),
        plain_column("t_test_enum", ColumnType::Enum, Shape::Single),
        plain_column("t_test_enum_vec", ColumnType::Enum, Shape::Sequence),
        plain_column("t_test_enum_option", ColumnType::Enum, Shape::Optional),
        plain_column("t_test_type", ColumnType::Struct, Shape::Single),
        plain_column("t_test_type_vec", ColumnType::Struct, Shape::Sequence),
        plain_column("t_test_type_option", ColumnType::Struct, Shape::Optional),
    ];
    let positions: Vec<usize> = vec![3];
    let indexes: Vec<IndexDecl> = vec![IndexDecl { name: "t_u32".to_owned(), columns: positions }];
    let t = TableDecl {
        name: "test_table_datatypes".to_owned(),
        columns,
        indexes,
        public: true,
        scheduled: None,
    };
    proof {
        assert(column_models(t.columns@) =~= datatypes_columns());
        assert forall|i: int| 0 <= i < t.columns@.len() && i != 0 implies !(
        #[trigger] t.columns@[i]).primary_key by {
            assert(column_models(t.columns@)[i] == datatypes_columns()[i]);
        }
        assert(column_models(t.columns@)[0] == datatypes_columns()[0]);
        lemma_key_count(t.columns@, 0);
        assert forall|i: int| 0 <= i < t.columns@.len() implies !((#[trigger] t.columns@[i]).auto_inc
            && !t.columns@[i].primary_key) by {
            assert(column_models(t.columns@)[i] == datatypes_columns()[i]);
        }
        assert forall|i: int| 0 <= i < t.indexes@.len() implies !dangling_column(
            #[trigger] t.indexes@[i],
            t.columns@.len(),
        ) by {
            assert(t.indexes@[i].columns@ =~= seq![3usize]);
        }
    }
    t
}

/// The columns of the scheduled table, in order.
pub open spec fn scheduled_columns() -> Seq<ColumnModel> {
    seq![
        key_column_model("scheduled_id"@, ColumnType::U64),
        plain_column_model("h1"@, ColumnType::U16, Shape::Single),
        plain_column_model("scheduled_at"@, ColumnType::Schedule, Shape::Single),
        plain_column_model("h2"@, ColumnType::U16, Shape::Single),
        plain_column_model("public_count"@, ColumnType::U64, Shape::Single),
        plain_column_model("private_count"@, ColumnType::U64, Shape::Single),
    ]
}

/// Declares the scheduled table.
pub fn scheduled_table() -> (t: TableDecl)
    ensures
        t.name@ == "test_scheduled_table"@,
        column_models(t.columns@) == scheduled_columns(),
        t.indexes@.len() == 1,
        t.indexes@[0].name@ == "get_by_public_count"@,
        t.indexes@[0].columns@ == seq![4usize],
        t.public,
        option_text(t.scheduled) == Some("test_scheduled_reducer"@),
        key_count(t.columns@) == 1,
        !stray_auto_inc(t),
        !dangling_index(t),
{
    let columns: Vec<Column> = vec![
        key_column("scheduled_id", ColumnType::U64),
        plain_column("h1", ColumnType::U16, Shape::Single),
        plain_column("scheduled_at", ColumnType::Schedule, Shape::Single),
        plain_column("h2", ColumnType::U16, Shape::Single),
        plain_column("public_count", ColumnType::U64, Shape::Single),
        plain_column("private_count", ColumnType::U64, Shape::Single),
    ];
    let positions: Vec<usize> = vec![4];
    let indexes: Vec<IndexDecl> = vec![IndexDecl { name: "get_by_public_count".to_owned(), columns: positions }];
    let t = TableDecl {
        name: "test_scheduled_table".to_owned(),
        columns,
        indexes,
        public: true,
        scheduled: Some("test_scheduled_reducer".to_owned()),
    };
    proof {
        assert(column_models(t.columns@) =~= scheduled_columns());
        assert forall|i: int| 0 <= i < t.columns@.len() && i != 0 implies !(
        #[trigger] t.columns@[i]).primary_key by {
            assert(column_models(t.columns@)[i] == scheduled_columns()[i]);
        }
        assert(column_models(t.columns@)[0] == scheduled_columns()[0]);
        lemma_key_count(t.columns@, 0);
        assert forall|i: int| 0 <= i < t.columns@.len() implies !((#[trigger] t.columns@[i]).auto_inc
            && !t.columns@[i].primary_key) by {
            assert(column_models(t.columns@)[i] == scheduled_columns()[i]);
        }
        assert forall|i: int| 0 <= i < t.indexes@.len() implies !dangling_column(
            #[trigger] t.indexes@[i],
            t.columns@.len(),
        ) by {
            assert(t.indexes@[i].columns@ =~= seq![4usize]);
        }
    }
    t
}

/// The columns of the private table without a primary key, in order.
pub open spec fn no_pk_columns() -> Seq<ColumnModel> {
    seq![
        plain_column_model("row"@, ColumnType::U64, Shape::Single),
        plain_column_model("name"@, ColumnType::Text, Shape::Single),
    ]
}

/// Declares the private table without a primary key.
pub fn no_pk_table() -> (t: TableDecl)
    ensures
        t.name@ == "test_no_pk_table"@,
        column_models(t.columns@) == no_pk_columns(),
        t.indexes@.len() == 1,
        t.indexes@[0].name@ == "row"@,
        t.indexes@[0].columns@ == seq![0usize],
        !t.public,
        t.scheduled is None,
        key_count(t.columns@) == 0,
        !stray_auto_inc(t),
        !dangling_index(t),
{
    let columns: Vec<Column> = vec![
        plain_column("row", ColumnType::U64, Shape::Single),
        plain_column("name", ColumnType::Text, Shape::Single),
    ];
    let positions: Vec<usize> = vec![0];
    let indexes: Vec<IndexDecl> = vec![IndexDecl { name: "row".to_owned(), columns: positions }];
    let t = TableDecl {
        name: "test_no_pk_table".to_owned(),
        columns,
        indexes,
        public: false,
        scheduled: None,
    };
    proof {
        assert(column_models(t.columns@) =~= no_pk_columns());
        assert forall|i: int| 0 <= i < t.columns@.len() && i != 0 implies !(
        #[trigger] t.columns@[i]).primary_key by {
            assert(column_models(t.columns@)[i] == no_pk_columns()[i]);
        }
        assert(column_models(t.columns@)[0] == no_pk_columns()[0]);
        lemma_key_count(t.columns@, 0);
        assert forall|i: int| 0 <= i < t.columns@.len() implies !((#[trigger] t.columns@[i]).auto_inc
            && !t.columns@[i].primary_key) by {
            assert(column_models(t.columns@)[i] == no_pk_columns()[i]);
        }
        assert forall|i: int| 0 <= i < t.indexes@.len() implies !dangling_column(
            #[trigger] t.indexes@[i],
            t.columns@.len(),
        ) by {
            assert(t.indexes@[i].columns@ =~= seq![0usize]);
        }
    }
    t
}

/// Whether a declared column holds single integers of at most 64 bits, which
/// a query predicate can compare with a literal.
pub open spec fn holds_comparable_integers(c: ColumnModel) -> bool {
    &&& c.2 == Shape::Single
    &&& c.1 != ColumnType::U128
    &&& c.1 != ColumnType::F32
    &&& c.1 != ColumnType::F64
    &&& c.1 != ColumnType::Text
    &&& c.1 != ColumnType::Enum
    &&& c.1 != ColumnType::Struct
    &&& c.1 != ColumnType::Schedule
}

/// The columns that a query predicate may name are, position by position,
/// the declared columns that hold single integers of at most 64 bits.
pub proof fn lemma_comparable_columns(column: nat)
    ensures
        TestTableDatatypes::comparable(column) == (column < datatypes_columns().len()
            && holds_comparable_integers(datatypes_columns()[column as int])),
        TestScheduledTable::comparable(column) == (column < scheduled_columns().len()
            && holds_comparable_integers(scheduled_columns()[column as int])),
        ViewType::comparable(column) == (column < no_pk_columns().len()
            && holds_comparable_integers(no_pk_columns()[column as int])),
{
}

/// The views of the module. All of them are public.
pub open spec fn module_views() -> Seq<ViewModel> {
    seq![
        ("test_anonymous_all_types"@, true, Caller::Anonymous, "test_table_datatypes"@, Returns::Rows),
        ("test_first_type_row"@, true, Caller::Identified, "test_table_datatypes"@, Returns::Rows),
        ("test_u32_at_30"@, true, Caller::Anonymous, "test_table_datatypes"@, Returns::Rows),
        ("test_public_scheduled_count"@, true, Caller::Identified, "test_scheduled_table"@, Returns::Rows),
        ("test_private_scheduled_count"@, true, Caller::Identified, "test_scheduled_table"@, Returns::Rows),
        ("test_no_pk_option"@, true, Caller::Anonymous, "test_no_pk_table"@, Returns::OptionalRow),
        ("test_no_pk_query"@, true, Caller::Anonymous, "test_no_pk_table"@, Returns::Query),
        ("test_no_pk_vec"@, true, Caller::Anonymous, "test_no_pk_table"@, Returns::Rows),
        ("test_option"@, true, Caller::Identified, "test_scheduled_table"@, Returns::OptionalRow),
        ("test_query"@, true, Caller::Identified, "test_scheduled_table"@, Returns::Query),
    ]
}

/// The declaration of the whole module. It has no defect, and every view in
/// it is open to external callers.
pub fn module_schema() -> (s: Schema)
    ensures
        defect(s) is None,
        s.tables@.len() == 3,
        s.tables@[0].name@ == "test_table_datatypes"@,
        column_models(s.tables@[0].columns@) == datatypes_columns(),
        s.tables@[0].public,
        s.tables@[1].name@ == "test_scheduled_table"@,
        column_models(s.tables@[1].columns@) == scheduled_columns(),
        s.tables@[1].public,
        option_text(s.tables@[1].scheduled) == Some("test_scheduled_reducer"@),
        s.tables@[2].name@ == "test_no_pk_table"@,
        column_models(s.tables@[2].columns@) == no_pk_columns(),
        !s.tables@[2].public,
        texts(s.reducers@) == seq![
            "test_scheduled_reducer"@,
            "start_integration_tests"@,
            "clear_integration_tests"@,
        ],
        view_models(s.views@) == module_views(),
        forall|i: int| 0 <= i < s.views@.len() ==> (#[trigger] s.views@[i]).public,
        texts(s.procedures@) == seq!["procedure_test_get_table_datatypes_row"@],
{
    let tables: Vec<TableDecl> = vec![datatypes_table(), scheduled_table(), no_pk_table()];
    let reducers: Vec<String> = vec![
        "test_scheduled_reducer".to_owned(),
        "start_integration_tests".to_owned(),
        "clear_integration_tests".to_owned(),
    ];
    let views: Vec<ViewDecl> = vec![
        view("test_anonymous_all_types", Caller::Anonymous, "test_table_datatypes", Returns::Rows),
        view("test_first_type_row", Caller::Identified, "test_table_datatypes", Returns::Rows),
        view("test_u32_at_30", Caller::Anonymous, "test_table_datatypes", Returns::Rows),
        view("test_public_scheduled_count", Caller::Identified, "test_scheduled_table", Returns::Rows),
        view("test_private_scheduled_count", Caller::Identified, "test_scheduled_table", Returns::Rows),
        view("test_no_pk_option", Caller::Anonymous, "test_no_pk_table", Returns::OptionalRow),
        view("test_no_pk_query", Caller::Anonymous, "test_no_pk_table", Returns::Query),
        view("test_no_pk_vec", Caller::Anonymous, "test_no_pk_table", Returns::Rows),
        view("test_option", Caller::Identified, "test_scheduled_table", Returns::OptionalRow),
        view("test_query", Caller::Identified, "test_scheduled_table", Returns::Query),
    ];
    let procedures: Vec<String> = vec!["procedure_test_get_table_datatypes_row".to_owned()];
    let s = Schema { tables, reducers, views, procedures };
    proof {
        reveal_strlit("test_table_datatypes");
        reveal_strlit("test_scheduled_table");
        reveal_strlit("test_no_pk_table");
        assert(texts(s.reducers@) =~= seq![
            "test_scheduled_reducer"@,
            "start_integration_tests"@,
            "clear_integration_tests"@,
        ]);
        assert(view_models(s.views@) =~= module_views());
        assert(texts(s.procedures@) =~= seq!["procedure_test_get_table_datatypes_row"@]);
        assert forall|i: int| 0 <= i < s.views@.len() implies (#[trigger] s.views@[i]).public by {
            assert(view_models(s.views@)[i] == module_views()[i]);
        }
        assert("test_table_datatypes"@[5] != "test_scheduled_table"@[5]);
        assert("test_table_datatypes"@.len() != "test_no_pk_table"@.len());
        assert("test_scheduled_table"@.len() != "test_no_pk_table"@.len());
        assert(reducer_named(s, "test_scheduled_reducer"@)) by {
            assert(s.reducers@[0]@ == "test_scheduled_reducer"@);
        }
        assert forall|i: int| 0 <= i < s.tables@.len() implies !unbound_schedule(
            s,
            #[trigger] s.tables@[i],
        ) by {
            assert(option_text(s.tables@[0].scheduled) is None);
            assert(option_text(s.tables@[2].scheduled) is None);
        }
        assert(table_named(s, "test_table_datatypes"@)) by {
            assert(s.tables@[0].name@ == "test_table_datatypes"@);
        }
        assert(table_named(s, "test_scheduled_table"@)) by {
            assert(s.tables@[1].name@ == "test_scheduled_table"@);
        }
        assert(table_named(s, "test_no_pk_table"@)) by {
            assert(s.tables@[2].name@ == "test_no_pk_table"@);
        }
        assert forall|i: int| 0 <= i < s.views@.len() implies table_named(
            s,
            (#[trigger] s.views@[i]).table@,
        ) by {
            assert(view_models(s.views@)[i] == module_views()[i]);
        }
    }
    s
}

} // verus!
