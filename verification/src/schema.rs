//! The schema registry: tables with their columns, key and index roles and
//! bound routines, and the views over them, declared as data and validated
//! before use.

use vstd::prelude::*;

verus! {

/// The type of the values of a column.
#[derive(Debug, Clone, Copy, PartialEq, Eq, Structural)]
pub enum ColumnType {
    U8,
    U16,
    U32,
    U64,
    U128,
    F32,
    F64,
    I8,
    I16,
    I32,
    I64,
    Text,
    Enum,
    Struct,
    Schedule,
}

/// Whether a column holds one value, a sequence of values, or an optional value.
#[derive(Debug, Clone, Copy, PartialEq, Eq, Structural)]
pub enum Shape {
    Single,
    Sequence,
    Optional,
}

/// A named, typed column and its key roles.
#[derive(Debug, Clone, PartialEq, Eq)]
pub struct Column {
    pub name: String,
    pub kind: ColumnType,
    pub shape: Shape,
    pub primary_key: bool,
    pub auto_inc: bool,
}

/// A named ordered index over columns, given by their positions.
#[derive(Debug, Clone, PartialEq, Eq)]
pub struct IndexDecl {
    pub name: String,
    pub columns: Vec<usize>,
}

/// A table: its name, its columns in order, its indexes, whether external
/// readers may see it, and the routine that its rows schedule, if any.
#[derive(Debug, Clone, PartialEq, Eq)]
pub struct TableDecl {
    pub name: String,
    pub columns: Vec<Column>,
    pub indexes: Vec<IndexDecl>,
    pub public: bool,
    pub scheduled: Option<String>,
}

/// The access context that a view is invoked with.
#[derive(Debug, Clone, Copy, PartialEq, Eq, Structural)]
pub enum Caller {
    Anonymous,
    Identified,
}

/// What a view hands back.
#[derive(Debug, Clone, Copy, PartialEq, Eq, Structural)]
pub enum Returns {
    OptionalRow,
    Rows,
    Query,
}

/// A view: its name, its visibility, its access context, the table that it
/// reads, and the shape of its result.
#[derive(Debug, Clone, PartialEq, Eq)]
pub struct ViewDecl {
    pub name: String,
    pub public: bool,
    pub caller: Caller,
    pub table: String,
    pub yields: Returns,
}

/// Everything that a module declares.
#[derive(Debug, Clone, PartialEq, Eq)]
pub struct Schema {
    pub tables: Vec<TableDecl>,
    pub reducers: Vec<String>,
    pub views: Vec<ViewDecl>,
    pub procedures: Vec<String>,
}

/// What makes a schema unusable.
#[derive(Debug, Clone, Copy, PartialEq, Eq, Structural)]
pub enum SchemaError {
    /// Two tables have the same name.
    DuplicateTable,
    /// A table marks more than one column as its primary key.
    DuplicatePrimaryKey,
    /// A column is auto-increment without being the primary key.
    AutoIncWithoutKey,
    /// An index names a column position that the table does not have.
    IndexColumnMissing,
    /// A table schedules a routine that the module does not declare.
    MissingReducer,
    /// A view reads a table that the module does not declare.
    MissingTable,
}

/// The number of columns that are marked as primary key.
pub open spec fn key_count(columns: Seq<Column>) -> nat
    decreases columns.len(),
{
    if columns.len() == 0 {
        0
    } else {
        key_count(columns.drop_last()) + if columns.last().primary_key {
            1nat
        } else {
            0nat
        }
    }
}

/// A table in which no column but the one at position `k` is marked as
/// primary key has one key column if that one is marked, and none otherwise.
pub proof fn lemma_key_count(columns: Seq<Column>, k: int)
    requires
        forall|i: int|
            0 <= i < columns.len() && i != k ==> !(#[trigger] columns[i]).primary_key,
    ensures
        key_count(columns) == if 0 <= k < columns.len() && columns[k].primary_key {
            1nat
        } else {
            0nat
        },
    decreases columns.len(),
{
    if columns.len() > 0 {
        let front = columns.drop_last();
        assert forall|i: int| 0 <= i < front.len() && i != k implies !(
        #[trigger] front[i]).primary_key by {
            assert(front[i] == columns[i]);
        }
        lemma_key_count(front, k);
        if 0 <= k < front.len() {
            assert(front[k] == columns[k]);
        }
    }
}

/// Whether some column is auto-increment without being the primary key.
pub open spec fn stray_auto_inc(t: TableDecl) -> bool {
    exists|i: int|
        0 <= i < t.columns@.len() && (#[trigger] t.columns@[i]).auto_inc
            && !t.columns@[i].primary_key
}

/// Whether an index names a column position that the table does not have.
pub open spec fn dangling_column(index: IndexDecl, width: nat) -> bool {
    exists|j: int| 0 <= j < index.columns@.len() && #[trigger] index.columns@[j] >= width
}

/// Whether some index of the table names a column that the table does not have.
pub open spec fn dangling_index(t: TableDecl) -> bool {
    exists|i: int|
        0 <= i < t.indexes@.len() && dangling_column(#[trigger] t.indexes@[i], t.columns@.len())
}

/// Whether the module declares a routine of this name.
pub open spec fn reducer_named(s: Schema, name: Seq<char>) -> bool {
    exists|i: int| 0 <= i < s.reducers@.len() && (#[trigger] s.reducers@[i])@ == name
}

/// Whether the module declares a table of this name.
pub open spec fn table_named(s: Schema, name: Seq<char>) -> bool {
    exists|i: int| 0 <= i < s.tables@.len() && (#[trigger] s.tables@[i]).name@ == name
}

/// Whether the table schedules a routine that the module does not declare.
pub open spec fn unbound_schedule(s: Schema, t: TableDecl) -> bool {
    t.scheduled matches Some(name) && !reducer_named(s, name@)
}

/// The first defect of a schema, in the order in which validation looks for
/// them, or none for a schema that can be used.
pub open spec fn defect(s: Schema) -> Option<SchemaError> {
    if exists|i: int, j: int|
        0 <= i < j < s.tables@.len() && (#[trigger] s.tables@[i]).name@ == (
        #[trigger] s.tables@[j]).name@ {
        Some(SchemaError::DuplicateTable)
    } else if exists|i: int|
        0 <= i < s.tables@.len() && key_count((#[trigger] s.tables@[i]).columns@) > 1 {
        Some(SchemaError::DuplicatePrimaryKey)
    } else if exists|i: int| 0 <= i < s.tables@.len() && stray_auto_inc(#[trigger] s.tables@[i]) {
        Some(SchemaError::AutoIncWithoutKey)
    } else if exists|i: int| 0 <= i < s.tables@.len() && dangling_index(#[trigger] s.tables@[i]) {
        Some(SchemaError::IndexColumnMissing)
    } else if exists|i: int|
        0 <= i < s.tables@.len() && unbound_schedule(s, #[trigger] s.tables@[i]) {
        Some(SchemaError::MissingReducer)
    } else if exists|i: int|
        0 <= i < s.views@.len() && !table_named(s, (#[trigger] s.views@[i]).table@) {
        Some(SchemaError::MissingTable)
    } else {
        None
    }
}

impl TableDecl {
    /// The position of the primary key column, if the table has one.
    pub fn primary_key(&self) -> (r: Option<usize>)
        ensures
            match r {
                Some(i) => i < self.columns@.len() && self.columns@[i as int].primary_key
                    && forall|j: int| 0 <= j < i ==> !(#[trigger] self.columns@[j]).primary_key,
                None => forall|j: int|
                    0 <= j < self.columns@.len() ==> !(#[trigger] self.columns@[j]).primary_key,
            },
    {
        let mut i: usize = 0;
        while i < self.columns.len()
            invariant
                i <= self.columns.len(),
                forall|j: int| 0 <= j < i ==> !(#[trigger] self.columns@[j]).primary_key,
            decreases self.columns.len() - i,
        {
            if self.columns[i].primary_key {
                return Some(i);
            }
            i += 1;
        }
        None
    }

    fn has_two_keys(&self) -> (r: bool)
        ensures
            r == (key_count(self.columns@) > 1),
    {
        let mut found: usize = 0;
        let mut i: usize = 0;
        assert(self.columns@.take(0) =~= Seq::<Column>::empty());
        while i < self.columns.len()
            invariant
                i <= self.columns.len(),
                found == key_count(self.columns@.take(i as int)),
                found <= i,
            decreases self.columns.len() - i,
        {
            proof {
                let next = self.columns@.take(i + 1);
                assert(next.drop_last() =~= self.columns@.take(i as int));
                assert(next.last() == self.columns@[i as int]);
            }
            if self.columns[i].primary_key {
                found += 1;
            }
            i += 1;
        }
        assert(self.columns@.take(i as int) =~= self.columns@);
        found > 1
    }

    fn has_stray_auto_inc(&self) -> (r: bool)
        ensures
            r == stray_auto_inc(*self),
    {
        let mut i: usize = 0;
        while i < self.columns.len()
            invariant
                i <= self.columns.len(),
                forall|j: int|
                    0 <= j < i ==> !((#[trigger] self.columns@[j]).auto_inc
                        && !self.columns@[j].primary_key),
            decreases self.columns.len() - i,
        {
            if self.columns[i].auto_inc && !self.columns[i].primary_key {
                return true;
            }
            i += 1;
        }
        false
    }

    #[verifier::loop_isolation(false)]
    fn has_dangling_index(&self) -> (r: bool)
        ensures
            r == dangling_index(*self),
    {
        let width: usize = self.columns.len();
        let mut i: usize = 0;
        while i < self.indexes.len()
            invariant
                i <= self.indexes.len(),
                width == self.columns@.len(),
                forall|k: int|
                    0 <= k < i ==> !dangling_column(#[trigger] self.indexes@[k], width as nat),
            decreases self.indexes.len() - i,
        {
            let index = &self.indexes[i];
            let mut j: usize = 0;
            while j < index.columns.len()
                invariant
                    j <= index.columns.len(),
                    forall|k: int| 0 <= k < j ==> #[trigger] index.columns@[k] < width,
                decreases index.columns.len() - j,
            {
                if index.columns[j] >= width {
                    assert(dangling_column(self.indexes@[i as int], width as nat));
                    return true;
                }
                j += 1;
            }
            i += 1;
        }
        false
    }
}

impl ViewDecl {
    /// Whether an external caller may invoke the view. A view that is
    /// declared public is open to every caller, the anonymous one included.
    pub fn externally_invokable(&self) -> (r: bool)
        ensures
            r == self.public,
    {
        self.public
    }
}

impl Schema {
    /// Whether the module declares a routine of this name.
    pub fn has_reducer(&self, name: &String) -> (r: bool)
        ensures
            r == reducer_named(*self, name@),
    {
        let mut i: usize = 0;
        while i < self.reducers.len()
            invariant
                i <= self.reducers.len(),
                forall|j: int| 0 <= j < i ==> (#[trigger] self.reducers@[j])@ != name@,
            decreases self.reducers.len() - i,
        {
            if self.reducers[i] == *name {
                return true;
            }
            i += 1;
        }
        false
    }

    /// The position of the table of this name, if the module declares one.
    pub fn table_position(&self, name: &String) -> (r: Option<usize>)
        ensures
            r is Some == table_named(*self, name@),
            r matches Some(i) ==> i < self.tables@.len() && self.tables@[i as int].name@ == name@,
    {
        let mut i: usize = 0;
        while i < self.tables.len()
            invariant
                i <= self.tables.len(),
                forall|j: int| 0 <= j < i ==> (#[trigger] self.tables@[j]).name@ != name@,
            decreases self.tables.len() - i,
        {
            if self.tables[i].name == *name {
                return Some(i);
            }
            i += 1;
        }
        None
    }

    fn has_duplicate_table(&self) -> (r: bool)
        ensures
            r == exists|i: int, j: int|
                0 <= i < j < self.tables@.len() && (#[trigger] self.tables@[i]).name@ == (
                #[trigger] self.tables@[j]).name@,
    {
        let mut j: usize = 0;
        while j < self.tables.len()
            invariant
                j <= self.tables.len(),
                forall|a: int, b: int|
                    0 <= a < b < j ==> (#[trigger] self.tables@[a]).name@ != (
                    #[trigger] self.tables@[b]).name@,
            decreases self.tables.len() - j,
        {
            let mut i: usize = 0;
            while i < j
                invariant
                    i <= j < self.tables.len(),
                    forall|a: int|
                        0 <= a < i ==> (#[trigger] self.tables@[a]).name@
                            != self.tables@[j as int].name@,
                decreases j - i,
            {
                if self.tables[i].name == self.tables[j].name {
                    return true;
                }
                i += 1;
            }
            j += 1;
        }
        false
    }

    /// Validates the schema: `Ok` for a schema without defect, and
    /// otherwise the first defect.
    #[verifier::loop_isolation(false)]
    pub fn validate(&self) -> (r: Result<(), SchemaError>)
        ensures
            match r {
                Ok(()) => defect(*self) is None,
                Err(e) => defect(*self) == Some(e),
            },
    {
        if self.has_duplicate_table() {
            return Err(SchemaError::DuplicateTable);
        }
        let mut i: usize = 0;
        while i < self.tables.len()
            invariant
                i <= self.tables.len(),
                forall|k: int| 0 <= k < i ==> key_count((#[trigger] self.tables@[k]).columns@) <= 1,
            decreases self.tables.len() - i,
        {
            if self.tables[i].has_two_keys() {
                return Err(SchemaError::DuplicatePrimaryKey);
            }
            i += 1;
        }
        let mut i: usize = 0;
        while i < self.tables.len()
            invariant
                i <= self.tables.len(),
                forall|k: int| 0 <= k < i ==> !stray_auto_inc(#[trigger] self.tables@[k]),
            decreases self.tables.len() - i,
        {
            if self.tables[i].has_stray_auto_inc() {
                return Err(SchemaError::AutoIncWithoutKey);
            }
            i += 1;
        }
        let mut i: usize = 0;
        while i < self.tables.len()
            invariant
                i <= self.tables.len(),
                forall|k: int| 0 <= k < i ==> !dangling_index(#[trigger] self.tables@[k]),
            decreases self.tables.len() - i,
        {
            if self.tables[i].has_dangling_index() {
                return Err(SchemaError::IndexColumnMissing);
            }
            i += 1;
        }
        let mut i: usize = 0;
        while i < self.tables.len()
            invariant
                i <= self.tables.len(),
                forall|k: int| 0 <= k < i ==> !unbound_schedule(*self, #[trigger] self.tables@[k]),
            decreases self.tables.len() - i,
        {
            match &self.tables[i].scheduled {
                Some(name) => {
                    if !self.has_reducer(name) {
                        return Err(SchemaError::MissingReducer);
                    }
                },
                None => {},
            }
            i += 1;
        }
        let mut i: usize = 0;
        while i < self.views.len()
            invariant
                i <= self.views.len(),
                forall|k: int|
                    0 <= k < i ==> table_named(*self, (#[trigger] self.views@[k]).table@),
            decreases self.views.len() - i,
        {
            if self.table_position(&self.views[i].table).is_none() {
                return Err(SchemaError::MissingTable);
            }
            i += 1;
        }
        Ok(())
    }
}

} // verus!
