//! A schema-driven table store with scheduled, atomic mutation routines and
//! read-only views over its committed state.

pub mod datatypes;
pub mod db;
pub mod engine;
pub mod error;
mod fields;
pub mod formats;
pub mod module;
pub mod procedures;
pub mod query;
pub mod reducers;
pub mod row;
pub mod schema;
pub mod table;
pub mod text;
pub mod value;
pub mod views;
pub mod wire;

pub use datatypes::TestTableDatatypes;
pub use db::Db;
pub use engine::{Engine, Transaction};
pub use error::StoreError;
pub use procedures::procedure_test_get_table_datatypes_row;
pub use query::{Comparison, Predicate, Query, QueryRows, TableName};
pub use reducers::{
    clear_integration_tests, seed_default_row, start_integration_tests, test_scheduled_reducer,
};
pub use row::{Row, TestScheduledTable, ViewType};
pub use value::{ScheduleAt, TestEnum, TestType};
pub use views::{
    view_test_anonymous_all_types, view_test_first_type_row, view_test_no_pk_option,
    view_test_no_pk_query, view_test_no_pk_vec, view_test_option, view_test_private_scheduled_count,
    view_test_public_scheduled_count, view_test_query, view_test_u32_at_30,
};
pub use wire::{decode, encode, Wire};
