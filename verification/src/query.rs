//! Queries as data: a predicate tree over the integer columns of one table,
//! and the evaluator that walks it.

use vstd::prelude::*;
use crate::datatypes::TestTableDatatypes;
use crate::db::Db;
use crate::row::{Row, TestScheduledTable, ViewType};
use crate::table::{models, Table};

verus! {

/// The tables of the store, by name.
#[derive(Debug, Clone, Copy, PartialEq, Eq, Structural)]
pub enum TableName {
    TestTableDatatypes,
    TestScheduledTable,
    TestNoPkTable,
}

/// How a column is compared with a literal.
#[derive(Debug, Clone, Copy, PartialEq, Eq, Structural)]
pub enum Comparison {
    Eq,
    Ne,
    Gt,
    Lt,
    Gte,
    Lte,
}

/// A boolean expression over the columns of a row. A column is named by its
/// position in the schema.
#[derive(Debug, PartialEq, Eq)]
pub enum Predicate {
    Compare { column: usize, comparison: Comparison, literal: i128 },
    And(Box<Predicate>, Box<Predicate>),
    Or(Box<Predicate>, Box<Predicate>),
}

/// An unevaluated query: the rows of one table that satisfy a predicate, or
/// all of its rows where there is none.
#[derive(Debug, PartialEq, Eq)]
pub struct Query {
    pub table: TableName,
    pub filter: Option<Predicate>,
}

/// The rows that a query evaluates to, typed by its table.
#[derive(Debug, Clone, PartialEq, Eq)]
pub enum QueryRows {
    Datatypes(Vec<TestTableDatatypes>),
    Scheduled(Vec<TestScheduledTable>),
    NoPk(Vec<ViewType>),
}

/// The meaning of a comparison on integers.
pub open spec fn compares(comparison: Comparison, left: int, right: int) -> bool {
    match comparison {
        Comparison::Eq => left == right,
        Comparison::Ne => left != right,
        Comparison::Gt => left > right,
        Comparison::Lt => left < right,
        Comparison::Gte => left >= right,
        Comparison::Lte => left <= right,
    }
}

/// Whether every column that a predicate names exists in the schema and
/// holds integers that can be compared.
pub open spec fn well_formed<R: Row>(p: Predicate) -> bool
    decreases p,
{
    match p {
        Predicate::Compare { column, .. } => R::comparable(column as nat),
        Predicate::And(a, b) => well_formed::<R>(*a) && well_formed::<R>(*b),
        Predicate::Or(a, b) => well_formed::<R>(*a) && well_formed::<R>(*b),
    }
}

/// Whether a row satisfies a well-formed predicate.
pub open spec fn holds<R: Row>(p: Predicate, v: R::V) -> bool
    decreases p,
{
    match p {
        Predicate::Compare { column, comparison, literal } => compares(
            comparison,
            R::column_of(v, column as nat),
            literal as int,
        ),
        Predicate::And(a, b) => holds::<R>(*a, v) && holds::<R>(*b, v),
        Predicate::Or(a, b) => holds::<R>(*a, v) || holds::<R>(*b, v),
    }
}

/// The rows that a filter selects, in storage order. A malformed predicate
/// selects nothing.
pub open spec fn selected<R: Row>(rows: Seq<R::V>, filter: Option<Predicate>) -> Seq<R::V> {
    match filter {
        None => rows,
        Some(p) => if well_formed::<R>(p) {
            rows.filter(|v: R::V| holds::<R>(p, v))
        } else {
            Seq::empty()
        },
    }
}

impl Comparison {
    /// Compares two integers.
    pub fn test(&self, left: i128, right: i128) -> (r: bool)
        ensures
            r == compares(*self, left as int, right as int),
    {
        match self {
            Comparison::Eq => left == right,
            Comparison::Ne => left != right,
            Comparison::Gt => left > right,
            Comparison::Lt => left < right,
            Comparison::Gte => left >= right,
            Comparison::Lte => left <= right,
        }
    }
}

impl Predicate {
    /// The predicate that compares one column with a literal.
    pub fn compare(column: usize, comparison: Comparison, literal: i128) -> (p: Predicate)
        ensures
            p == (Predicate::Compare { column, comparison, literal }),
    {
        Predicate::Compare { column, comparison, literal }
    }

    /// The conjunction of two predicates.
    pub fn and(self, other: Predicate) -> (p: Predicate)
        ensures
            p == Predicate::And(Box::new(self), Box::new(other)),
    {
        Predicate::And(Box::new(self), Box::new(other))
    }

    /// The disjunction of two predicates.
    pub fn or(self, other: Predicate) -> (p: Predicate)
        ensures
            p == Predicate::Or(Box::new(self), Box::new(other)),
    {
        Predicate::Or(Box::new(self), Box::new(other))
    }

    /// Whether the predicate is well-formed for the rows of a schema.
    pub fn check<R: Row>(&self) -> (r: bool)
        ensures
            r == well_formed::<R>(*self),
        decreases self,
    {
        match self {
            Predicate::Compare { column, .. } => R::is_comparable(*column),
            Predicate::And(a, b) => {
                let left = a.check::<R>();
                let right = b.check::<R>();
                left && right
            },
            Predicate::Or(a, b) => {
                let left = a.check::<R>();
                let right = b.check::<R>();
                left && right
            },
        }
    }

    /// Evaluates the predicate on a row; `None` for a malformed predicate.
    pub fn evaluate<R: Row>(&self, row: &R) -> (r: Option<bool>)
        ensures
            r == if well_formed::<R>(*self) {
                Some(holds::<R>(*self, row@))
            } else {
                None
            },
        decreases self,
    {
        match self {
            Predicate::Compare { column, comparison, literal } => {
                match row.column(*column) {
                    Some(value) => Some(comparison.test(value, *literal)),
                    None => None,
                }
            },
            Predicate::And(a, b) => {
                match (a.evaluate(row), b.evaluate(row)) {
                    (Some(left), Some(right)) => Some(left && right),
                    _ => None,
                }
            },
            Predicate::Or(a, b) => {
                match (a.evaluate(row), b.evaluate(row)) {
                    (Some(left), Some(right)) => Some(left || right),
                    _ => None,
                }
            },
        }
    }
}

/// The rows of a table that a filter selects, in storage order.
pub fn select<R: Row>(table: &Table<R>, filter: &Option<Predicate>) -> (out: Vec<R>)
    ensures
        models::<R>(out@) == selected::<R>(table@.rows, *filter),
{
    let rows = table.iter();
    match filter {
        None => rows,
        Some(p) => {
            let mut out: Vec<R> = Vec::new();
            if !p.check::<R>() {
                assert(models::<R>(out@) =~= Seq::<R::V>::empty());
                return out;
            }
            let ghost pred = |v: R::V| holds::<R>(*p, v);
            let ghost all = table@.rows;
            let mut i: usize = 0;
            assert(all.take(0).filter(pred) =~= Seq::<R::V>::empty()) by {
                reveal(Seq::filter);
            }
            assert(models::<R>(out@) =~= Seq::<R::V>::empty());
            while i < rows.len()
                invariant
                    i <= rows.len(),
                    well_formed::<R>(*p),
                    pred == (|v: R::V| holds::<R>(*p, v)),
                    models::<R>(rows@) == all,
                    models::<R>(out@) == all.take(i as int).filter(pred),
                decreases rows.len() - i,
            {
                let keep = match p.evaluate(&rows[i]) {
                    Some(keep) => keep,
                    None => false,
                };
                proof {
                    let front = all.take(i as int);
                    let next = all.take(i + 1);
                    assert(next =~= front.push(all[i as int]));
                    assert(next.drop_last() =~= front);
                    assert(next.filter(pred) == if pred(all[i as int]) {
                        front.filter(pred).push(all[i as int])
                    } else {
                        front.filter(pred)
                    }) by {
                        reveal(Seq::filter);
                    }
                    assert(all[i as int] == rows[i as int]@);
                }
                if keep {
                    let copy = rows[i].duplicate();
                    assert(models::<R>(out@.push(copy)) =~= models::<R>(out@).push(copy@));
                    out.push(copy);
                }
                i += 1;
            }
            assert(all.take(i as int) =~= all);
            out
        },
    }
}

/// Evaluates a query against the current state of its table.
pub fn run(db: &Db, query: &Query) -> (rows: QueryRows)
    ensures
        match query.table {
            TableName::TestTableDatatypes => rows matches QueryRows::Datatypes(out)
                && models::<TestTableDatatypes>(out@) == selected::<TestTableDatatypes>(
                db@.datatypes.rows,
                query.filter,
            ),
            TableName::TestScheduledTable => rows matches QueryRows::Scheduled(out) && out@
                == selected::<TestScheduledTable>(db@.scheduled.rows, query.filter),
            TableName::TestNoPkTable => rows matches QueryRows::NoPk(out) && models::<ViewType>(
                out@,
            ) == selected::<ViewType>(db@.no_pk.rows, query.filter),
        },
{
    match query.table {
        TableName::TestTableDatatypes => QueryRows::Datatypes(
            select(&db.test_table_datatypes, &query.filter),
        ),
        TableName::TestScheduledTable => {
            let out = select(&db.test_scheduled_table, &query.filter);
            assert(models::<TestScheduledTable>(out@) =~= out@);
            QueryRows::Scheduled(out)
        },
        TableName::TestNoPkTable => QueryRows::NoPk(select(&db.test_no_pk_table, &query.filter)),
    }
}

} // verus!
