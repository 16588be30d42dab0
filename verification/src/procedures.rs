//! The procedures: externally invoked reads inside a transaction scope.

use vstd::prelude::*;
use crate::datatypes::TestTableDatatypes;
use crate::engine::Engine;
use crate::table::found;

verus! {

/// Looks up the datatypes row with the primary key `t_u64` inside one
/// transaction scope. The committed state stays as it is.
pub fn procedure_test_get_table_datatypes_row(engine: &mut Engine, t_u64: u64) -> (r: Option<
    TestTableDatatypes,
>)
    ensures
        final(engine).state() == old(engine).state(),
        final(engine).version() == old(engine).version(),
        r.deep_view() == found::<TestTableDatatypes>(old(engine).state().datatypes, t_u64),
{
    let tx = engine.begin();
    if let Some(row) = tx.db.test_table_datatypes.find(t_u64) {
        return Some(row);
    }
    None
}

} // verus!
