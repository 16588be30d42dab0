//! The per-table store: rows addressed by primary key and by a secondary
//! index, with insert, full-row update, delete, count and iteration.

use vstd::prelude::*;
use crate::error::StoreError;
use crate::row::Row;

verus! {

/// The mathematical state of a table: its rows in storage order, and the
/// highest primary key that was ever assigned or stored.
pub struct TableState<V> {
    pub rows: Seq<V>,
    pub sequence: u64,
}

/// The models of a sequence of rows.
pub open spec fn models<R: Row>(rows: Seq<R>) -> Seq<R::V> {
    rows.map_values(|r: R| r@)
}

/// Whether some row carries this primary key.
pub open spec fn has_key<R: Row>(rows: Seq<R::V>, key: u64) -> bool {
    exists|i: int| 0 <= i < rows.len() && R::key_of(#[trigger] rows[i]) == key
}

/// The position of a row that carries this primary key.
pub open spec fn key_position<R: Row>(rows: Seq<R::V>, key: u64) -> int {
    choose|i: int| 0 <= i < rows.len() && R::key_of(#[trigger] rows[i]) == key
}

/// The invariant of a table: no row is stored twice; primary keys are
/// positive, unique, and never above the sequence.
pub open spec fn valid<R: Row>(s: TableState<R::V>) -> bool {
    &&& s.rows.no_duplicates()
    &&& R::keyed() ==> forall|i: int, j: int|
        0 <= i < j < s.rows.len() ==> R::key_of(#[trigger] s.rows[i]) != R::key_of(
            #[trigger] s.rows[j],
        )
    &&& R::keyed() ==> forall|i: int|
        0 <= i < s.rows.len() ==> 0 < R::key_of(#[trigger] s.rows[i]) <= s.sequence
}

/// What an insert does. A keyed table assigns the next key of its sequence to
/// a row that arrives with key zero. A row that arrives with another key
/// keeps it, and lifts the sequence to it where it lies above; it is refused
/// where the key is taken. A table without a key is a set: a row that is
/// already there is not stored again.
pub open spec fn inserted<R: Row>(s: TableState<R::V>, row: R::V) -> Result<
    (TableState<R::V>, R::V),
    StoreError,
> {
    if !R::keyed() {
        if s.rows.contains(row) {
            Ok((s, row))
        } else {
            Ok((TableState { rows: s.rows.push(row), sequence: s.sequence }, row))
        }
    } else if R::key_of(row) == 0 {
        if s.sequence == u64::MAX {
            Err(StoreError::Overflow)
        } else {
            let key = (s.sequence + 1) as u64;
            let stored = R::rekeyed(row, key);
            Ok((TableState { rows: s.rows.push(stored), sequence: key }, stored))
        }
    } else if has_key::<R>(s.rows, R::key_of(row)) {
        Err(StoreError::DuplicateKey)
    } else {
        let key = R::key_of(row);
        Ok(
            (
                TableState {
                    rows: s.rows.push(row),
                    sequence: if key > s.sequence {
                        key
                    } else {
                        s.sequence
                    },
                },
                row,
            ),
        )
    }
}

/// What an update does: the row that carries the new row's primary key is
/// replaced as a whole, in place.
pub open spec fn updated<R: Row>(s: TableState<R::V>, row: R::V) -> Result<
    TableState<R::V>,
    StoreError,
> {
    if R::keyed() && has_key::<R>(s.rows, R::key_of(row)) {
        Ok(
            TableState {
                rows: s.rows.update(key_position::<R>(s.rows, R::key_of(row)), row),
                sequence: s.sequence,
            },
        )
    } else {
        Err(StoreError::KeyNotFound)
    }
}

/// What a delete does: the row that equals the given one leaves the table.
pub open spec fn deleted<R: Row>(s: TableState<R::V>, row: R::V) -> Result<
    TableState<R::V>,
    StoreError,
> {
    if s.rows.contains(row) {
        Ok(TableState { rows: s.rows.remove(s.rows.index_of(row)), sequence: s.sequence })
    } else {
        Err(StoreError::KeyNotFound)
    }
}

/// What a point lookup by primary key finds.
pub open spec fn found<R: Row>(s: TableState<R::V>, key: u64) -> Option<R::V> {
    if R::keyed() && has_key::<R>(s.rows, key) {
        Some(s.rows[key_position::<R>(s.rows, key)])
    } else {
        None
    }
}

/// Whether a row's index key lies in a range. Both bounds are inclusive, so a
/// bound at the smallest or largest value of the column's type excludes
/// nothing on its side.
pub open spec fn in_range<R: Row>(v: R::V, lo: u64, hi: u64) -> bool {
    lo <= R::index_of(v) <= hi
}

/// Where a row with index key `key` enters a sequence that is ordered by
/// index key: behind the last row whose key is not larger.
pub open spec fn rank<R: Row>(ordered: Seq<R::V>, key: u64) -> int
    decreases ordered.len(),
{
    if ordered.len() == 0 {
        0
    } else if R::index_of(ordered.last()) <= key {
        ordered.len() as int
    } else {
        rank::<R>(ordered.drop_last(), key)
    }
}

/// The rows whose index key lies in the range, by ascending index key; rows
/// with equal keys keep their storage order.
pub open spec fn index_scan<R: Row>(rows: Seq<R::V>, lo: u64, hi: u64) -> Seq<R::V>
    decreases rows.len(),
{
    if rows.len() == 0 {
        Seq::empty()
    } else {
        let before = index_scan::<R>(rows.drop_last(), lo, hi);
        let row = rows.last();
        if in_range::<R>(row, lo, hi) {
            before.insert(rank::<R>(before, R::index_of(row)), row)
        } else {
            before
        }
    }
}

/// Whether a sequence of rows ascends by index key.
pub open spec fn ascending<R: Row>(rows: Seq<R::V>) -> bool {
    forall|i: int, j: int|
        0 <= i <= j < rows.len() ==> R::index_of(#[trigger] rows[i]) <= R::index_of(
            #[trigger] rows[j],
        )
}

/// The rank lies within the sequence; every row from the rank on has a
/// larger key, and in an ascending sequence no row before it has.
pub proof fn lemma_rank_bounds<R: Row>(ordered: Seq<R::V>, key: u64)
    ensures
        0 <= rank::<R>(ordered, key) <= ordered.len(),
        forall|i: int|
            rank::<R>(ordered, key) <= i < ordered.len() ==> R::index_of(#[trigger] ordered[i])
                > key,
        ascending::<R>(ordered) ==> forall|i: int|
            0 <= i < rank::<R>(ordered, key) ==> R::index_of(#[trigger] ordered[i]) <= key,
    decreases ordered.len(),
{
    if ordered.len() > 0 && R::index_of(ordered.last()) > key {
        lemma_rank_bounds::<R>(ordered.drop_last(), key);
        let r = rank::<R>(ordered, key);
        assert forall|i: int| r <= i < ordered.len() implies R::index_of(#[trigger] ordered[i])
            > key by {
            if i < ordered.len() - 1 {
                assert(ordered[i] == ordered.drop_last()[i]);
            }
        }
        if ascending::<R>(ordered) {
            assert forall|i: int| 0 <= i < r implies R::index_of(#[trigger] ordered[i])
                <= key by {
                assert(ordered[i] == ordered.drop_last()[i]);
                assert(ascending::<R>(ordered.drop_last())) by {
                    assert forall|a: int, b: int|
                        0 <= a <= b < ordered.drop_last().len() implies R::index_of(
                        #[trigger] ordered.drop_last()[a],
                    ) <= R::index_of(#[trigger] ordered.drop_last()[b]) by {
                        assert(ordered.drop_last()[a] == ordered[a]);
                        assert(ordered.drop_last()[b] == ordered[b]);
                    }
                }
            }
        }
    }
}

/// An index scan ascends by index key, and holds exactly the rows of the
/// table whose key lies in the range, each as often as the table does.
pub proof fn lemma_index_scan<R: Row>(rows: Seq<R::V>, lo: u64, hi: u64)
    ensures
        ascending::<R>(index_scan::<R>(rows, lo, hi)),
        index_scan::<R>(rows, lo, hi).to_multiset() == rows.filter(
            |v: R::V| in_range::<R>(v, lo, hi),
        ).to_multiset(),
        index_scan::<R>(rows, lo, hi).len() == rows.filter(
            |v: R::V| in_range::<R>(v, lo, hi),
        ).len(),
        forall|v: R::V|
            index_scan::<R>(rows, lo, hi).contains(v) <==> rows.contains(v) && in_range::<R>(
                v,
                lo,
                hi,
            ),
    decreases rows.len(),
{
    broadcast use vstd::seq_lib::group_seq_properties;

    let pred = |v: R::V| in_range::<R>(v, lo, hi);
    let out = index_scan::<R>(rows, lo, hi);
    if rows.len() == 0 {
        assert(rows.filter(pred) =~= Seq::<R::V>::empty()) by {
            reveal(Seq::filter);
        }
    } else {
        let front = rows.drop_last();
        let row = rows.last();
        let before = index_scan::<R>(front, lo, hi);
        lemma_index_scan::<R>(front, lo, hi);
        assert(rows =~= front.push(row));
        assert(rows.filter(pred) == if pred(row) {
            front.filter(pred).push(row)
        } else {
            front.filter(pred)
        }) by {
            reveal(Seq::filter);
        }
        if in_range::<R>(row, lo, hi) {
            let p = rank::<R>(before, R::index_of(row));
            lemma_rank_bounds::<R>(before, R::index_of(row));
            assert(out == before.insert(p, row));
            assert forall|i: int, j: int| 0 <= i <= j < out.len() implies R::index_of(
                #[trigger] out[i],
            ) <= R::index_of(#[trigger] out[j]) by {
                if i < p && j < p {
                    assert(out[i] == before[i] && out[j] == before[j]);
                } else if i < p && j == p {
                    assert(out[i] == before[i]);
                } else if i < p && j > p {
                    assert(out[i] == before[i] && out[j] == before[j - 1]);
                } else if i == p && j > p {
                    assert(out[j] == before[j - 1]);
                } else if i > p {
                    assert(out[i] == before[i - 1] && out[j] == before[j - 1]);
                }
            }
            vstd::seq_lib::to_multiset_insert(before, p, row);
            vstd::seq_lib::to_multiset_build(front.filter(pred), row);
            assert(front.filter(pred).push(row).to_multiset() == front.filter(
                pred,
            ).to_multiset().insert(row));
            assert forall|v: R::V| out.contains(v) <==> rows.contains(v) && in_range::<R>(
                v,
                lo,
                hi,
            ) by {
                if out.contains(v) {
                    let k = choose|k: int| 0 <= k < out.len() && out[k] == v;
                    if k < p {
                        assert(before[k] == v);
                    } else if k > p {
                        assert(before[k - 1] == v);
                    }
                    if v != row {
                        assert(before.contains(v));
                        assert(front.contains(v));
                        let m = choose|m: int| 0 <= m < front.len() && front[m] == v;
                        assert(front[m] == rows[m]);
                        assert(rows[m] == v);
                    } else {
                        assert(rows[rows.len() - 1] == v);
                    }
                }
                if rows.contains(v) && in_range::<R>(v, lo, hi) {
                    let m = choose|m: int| 0 <= m < rows.len() && rows[m] == v;
                    if m < front.len() {
                        assert(front[m] == v);
                        assert(front.contains(v));
                        assert(before.contains(v));
                        let k = choose|k: int| 0 <= k < before.len() && before[k] == v;
                        if k < p {
                            assert(out[k] == v);
                        } else {
                            assert(out[k + 1] == v);
                        }
                    } else {
                        assert(out[p] == v);
                    }
                }
            }
        } else {
            assert forall|v: R::V| out.contains(v) <==> rows.contains(v) && in_range::<R>(
                v,
                lo,
                hi,
            ) by {
                if out.contains(v) {
                    assert(front.contains(v));
                    let m = choose|m: int| 0 <= m < front.len() && front[m] == v;
                    assert(front[m] == rows[m]);
                    assert(rows[m] == v);
                }
                if rows.contains(v) && in_range::<R>(v, lo, hi) {
                    let m = choose|m: int| 0 <= m < rows.len() && rows[m] == v;
                    assert(front[m] == v);
                    assert(front.contains(v));
                }
            }
        }
    }
}


/// A range whose bounds are the smallest and the largest value of the
/// indexed column's type is unbounded: its scan leaves no row out.
pub proof fn lemma_full_range_scan<R: Row>(rows: Seq<R::V>, hi: u64)
    requires
        hi >= R::index_max(),
    ensures
        index_scan::<R>(rows, 0, hi).len() == rows.len(),
        index_scan::<R>(rows, 0, hi).to_multiset() == rows.to_multiset(),
        ascending::<R>(index_scan::<R>(rows, 0, hi)),
{
    let pred = |v: R::V| in_range::<R>(v, 0, hi);
    lemma_index_scan::<R>(rows, 0, hi);
    assert forall|i: int| 0 <= i < rows.len() implies pred(#[trigger] rows[i]) by {
        R::lemma_index_bounded(rows[i]);
    }
    lemma_filter_all(rows, pred);
}

/// A filter that every element passes keeps the whole sequence.
proof fn lemma_filter_all<V>(s: Seq<V>, pred: spec_fn(V) -> bool)
    requires
        forall|i: int| 0 <= i < s.len() ==> pred(#[trigger] s[i]),
    ensures
        s.filter(pred) == s,
    decreases s.len(),
{
    reveal(Seq::filter);
    if s.len() > 0 {
        let front = s.drop_last();
        assert forall|i: int| 0 <= i < front.len() implies pred(#[trigger] front[i]) by {
            assert(front[i] == s[i]);
        }
        lemma_filter_all(front, pred);
        assert(front.push(s.last()) =~= s);
    }
}

/// A legal insert keeps the table's invariant; its sequence never falls, and
/// a key that it assigns lies above every key that the table ever held.
pub proof fn lemma_inserted_valid<R: Row>(s: TableState<R::V>, row: R::V)
    requires
        valid::<R>(s),
    ensures
        match inserted::<R>(s, row) {
            Ok((t, stored)) => {
                &&& valid::<R>(t)
                &&& t.sequence >= s.sequence
                &&& t.rows.contains(stored)
                &&& R::keyed() && R::key_of(row) == 0 ==> R::key_of(stored) == s.sequence + 1
                    && t.sequence == R::key_of(stored)
            },
            Err(_) => true,
        },
{
    R::lemma_rekeyed(row, (s.sequence + 1) as u64);
    match inserted::<R>(s, row) {
        Ok((t, stored)) => {
            if t.rows.len() == s.rows.len() + 1 {
                assert(t.rows =~= s.rows.push(stored));
                assert(t.rows[s.rows.len() as int] == stored);
                assert forall|i: int, j: int|
                    0 <= i < t.rows.len() && 0 <= j < t.rows.len() && i != j implies t.rows[i]
                    != t.rows[j] by {
                    if i < s.rows.len() && j < s.rows.len() {
                        assert(t.rows[i] == s.rows[i] && t.rows[j] == s.rows[j]);
                    } else {
                        let k = if i < s.rows.len() {
                            i
                        } else {
                            j
                        };
                        assert(t.rows[k] == s.rows[k]);
                        assert(s.rows.contains(s.rows[k]));
                        if R::keyed() {
                            assert(R::key_of(s.rows[k]) != R::key_of(stored));
                        }
                    }
                }
                if R::keyed() {
                    assert forall|i: int, j: int| 0 <= i < j < t.rows.len() implies R::key_of(
                        #[trigger] t.rows[i],
                    ) != R::key_of(#[trigger] t.rows[j]) by {
                        assert(t.rows[i] == s.rows[i]);
                        if j < s.rows.len() {
                            assert(t.rows[j] == s.rows[j]);
                        }
                    }
                    assert forall|i: int| 0 <= i < t.rows.len() implies 0 < R::key_of(
                        #[trigger] t.rows[i],
                    ) <= t.sequence by {
                        if i < s.rows.len() {
                            assert(t.rows[i] == s.rows[i]);
                        }
                    }
                }
            } else {
                assert(t == s);
            }
        },
        Err(_) => {},
    }
}

/// A legal update keeps the table's invariant, its length and its sequence.
pub proof fn lemma_updated_valid<R: Row>(s: TableState<R::V>, row: R::V)
    requires
        valid::<R>(s),
    ensures
        match updated::<R>(s, row) {
            Ok(t) => valid::<R>(t) && t.sequence == s.sequence && t.rows.len() == s.rows.len(),
            Err(_) => true,
        },
{
    match updated::<R>(s, row) {
        Ok(t) => {
            let p = key_position::<R>(s.rows, R::key_of(row));
            assert forall|i: int, j: int| 0 <= i < j < t.rows.len() implies R::key_of(
                #[trigger] t.rows[i],
            ) != R::key_of(#[trigger] t.rows[j]) by {
                assert(R::key_of(t.rows[i]) == R::key_of(s.rows[i]));
                assert(R::key_of(t.rows[j]) == R::key_of(s.rows[j]));
            }
            assert forall|i: int| 0 <= i < t.rows.len() implies 0 < R::key_of(
                #[trigger] t.rows[i],
            ) <= t.sequence by {
                assert(R::key_of(t.rows[i]) == R::key_of(s.rows[i]));
            }
            assert forall|i: int, j: int|
                0 <= i < t.rows.len() && 0 <= j < t.rows.len() && i != j implies t.rows[i]
                != t.rows[j] by {
                if i < j {
                    assert(R::key_of(t.rows[i]) != R::key_of(t.rows[j]));
                } else {
                    assert(R::key_of(t.rows[j]) != R::key_of(t.rows[i]));
                }
            }
        },
        Err(_) => {},
    }
}

/// A legal delete keeps the table's invariant and its sequence, and the
/// deleted row is gone.
pub proof fn lemma_deleted_valid<R: Row>(s: TableState<R::V>, row: R::V)
    requires
        valid::<R>(s),
    ensures
        match deleted::<R>(s, row) {
            Ok(t) => valid::<R>(t) && t.sequence == s.sequence && t.rows.len() + 1
                == s.rows.len() && !t.rows.contains(row),
            Err(_) => true,
        },
{
    match deleted::<R>(s, row) {
        Ok(t) => {
            let p = s.rows.index_of(row);
            assert(0 <= p < s.rows.len() && s.rows[p] == row);
            assert forall|i: int| 0 <= i < t.rows.len() implies #[trigger] t.rows[i] == s.rows[if i
                < p {
                i
            } else {
                i + 1
            }] by {}
            assert forall|i: int, j: int|
                0 <= i < t.rows.len() && 0 <= j < t.rows.len() && i != j implies t.rows[i]
                != t.rows[j] by {
                let a = if i < p { i } else { i + 1 };
                let b = if j < p { j } else { j + 1 };
                assert(t.rows[i] == s.rows[a] && t.rows[j] == s.rows[b]);
            }
            if R::keyed() {
                assert forall|i: int, j: int| 0 <= i < j < t.rows.len() implies R::key_of(
                    #[trigger] t.rows[i],
                ) != R::key_of(#[trigger] t.rows[j]) by {
                    let a = if i < p { i } else { i + 1 };
                    let b = if j < p { j } else { j + 1 };
                    assert(t.rows[i] == s.rows[a] && t.rows[j] == s.rows[b]);
                }
                assert forall|i: int| 0 <= i < t.rows.len() implies 0 < R::key_of(
                    #[trigger] t.rows[i],
                ) <= t.sequence by {
                    let a = if i < p { i } else { i + 1 };
                    assert(t.rows[i] == s.rows[a]);
                }
            }
            if t.rows.contains(row) {
                let i = choose|i: int| 0 <= i < t.rows.len() && t.rows[i] == row;
                let a = if i < p { i } else { i + 1 };
                assert(t.rows[i] == s.rows[a]);
                assert(s.rows[a] == s.rows[p]);
            }
        },
        Err(_) => {},
    }
}

/// In a valid keyed table the row at a position is the one that a lookup of
/// its key finds.
pub proof fn lemma_key_position<R: Row>(s: TableState<R::V>, i: int)
    requires
        valid::<R>(s),
        R::keyed(),
        0 <= i < s.rows.len(),
    ensures
        has_key::<R>(s.rows, R::key_of(s.rows[i])),
        key_position::<R>(s.rows, R::key_of(s.rows[i])) == i,
{
    let key = R::key_of(s.rows[i]);
    let p = key_position::<R>(s.rows, key);
    assert(0 <= p < s.rows.len() && R::key_of(s.rows[p]) == key);
    if p < i {
        assert(R::key_of(s.rows[p]) != R::key_of(s.rows[i]));
    } else if i < p {
        assert(R::key_of(s.rows[i]) != R::key_of(s.rows[p]));
    }
}

/// An operation on a table.
pub enum TableOp<V> {
    Insert(V),
    Update(V),
    Delete(V),
}

/// The state after an operation. A refused operation changes nothing.
pub open spec fn applied<R: Row>(s: TableState<R::V>, op: TableOp<R::V>) -> TableState<R::V> {
    match op {
        TableOp::Insert(v) => match inserted::<R>(s, v) {
            Ok((t, _)) => t,
            Err(_) => s,
        },
        TableOp::Update(v) => match updated::<R>(s, v) {
            Ok(t) => t,
            Err(_) => s,
        },
        TableOp::Delete(v) => match deleted::<R>(s, v) {
            Ok(t) => t,
            Err(_) => s,
        },
    }
}

/// The state after a run of operations.
pub open spec fn run<R: Row>(s: TableState<R::V>, ops: Seq<TableOp<R::V>>) -> TableState<R::V>
    decreases ops.len(),
{
    if ops.len() == 0 {
        s
    } else {
        applied::<R>(run::<R>(s, ops.drop_last()), ops.last())
    }
}

/// The key that the sequence assigns when the operation is carried out in
/// the state `s`: the operation is an insert of a row with key zero into a
/// keyed table, and the insert succeeds.
pub open spec fn assigned_key<R: Row>(s: TableState<R::V>, op: TableOp<R::V>) -> Option<u64> {
    match op {
        TableOp::Insert(v) => if R::keyed() && R::key_of(v) == 0 {
            match inserted::<R>(s, v) {
                Ok((_, stored)) => Some(R::key_of(stored)),
                Err(_) => None,
            }
        } else {
            None
        },
        _ => None,
    }
}

/// Every operation keeps the table's invariant, and none lowers the sequence.
pub proof fn lemma_applied_valid<R: Row>(s: TableState<R::V>, op: TableOp<R::V>)
    requires
        valid::<R>(s),
    ensures
        valid::<R>(applied::<R>(s, op)),
        applied::<R>(s, op).sequence >= s.sequence,
        assigned_key::<R>(s, op) matches Some(key) ==> key > s.sequence && key == applied::<R>(
            s,
            op,
        ).sequence,
{
    match op {
        TableOp::Insert(v) => {
            lemma_inserted_valid::<R>(s, v);
        },
        TableOp::Update(v) => {
            lemma_updated_valid::<R>(s, v);
        },
        TableOp::Delete(v) => {
            lemma_deleted_valid::<R>(s, v);
        },
    }
}

/// A run of operations keeps the table's invariant, and the sequence never
/// falls in its course.
pub proof fn lemma_run_valid<R: Row>(s: TableState<R::V>, ops: Seq<TableOp<R::V>>, k: int)
    requires
        valid::<R>(s),
        0 <= k <= ops.len(),
    ensures
        valid::<R>(run::<R>(s, ops)),
        valid::<R>(run::<R>(s, ops.take(k))),
        s.sequence <= run::<R>(s, ops.take(k)).sequence <= run::<R>(s, ops).sequence,
    decreases ops.len(),
{
    if ops.len() == 0 {
        assert(ops.take(k) =~= ops);
    } else if k == ops.len() {
        assert(ops.take(k) =~= ops);
        lemma_run_valid::<R>(s, ops.drop_last(), 0);
        lemma_applied_valid::<R>(run::<R>(s, ops.drop_last()), ops.last());
    } else {
        assert(ops.drop_last().take(k) =~= ops.take(k));
        lemma_run_valid::<R>(s, ops.drop_last(), k);
        lemma_applied_valid::<R>(run::<R>(s, ops.drop_last()), ops.last());
    }
}

/// Auto-increment keys rise and are never reused. In any run of inserts,
/// updates and deletes on a keyed table, a key that the sequence assigns at
/// step `j` is larger than the key of every row that the table held at any
/// step up to `j`, deleted since or not, and larger than every key that the
/// sequence assigned at an earlier step `i`.
pub proof fn lemma_assigned_keys_rise<R: Row>(
    s: TableState<R::V>,
    ops: Seq<TableOp<R::V>>,
    i: int,
    j: int,
)
    requires
        valid::<R>(s),
        R::keyed(),
        0 <= i <= j < ops.len(),
        assigned_key::<R>(run::<R>(s, ops.take(j)), ops[j]) is Some,
    ensures
        forall|n: int|
            0 <= n < run::<R>(s, ops.take(i)).rows.len() ==> R::key_of(
                #[trigger] run::<R>(s, ops.take(i)).rows[n],
            ) < assigned_key::<R>(run::<R>(s, ops.take(j)), ops[j]).unwrap(),
        i < j ==> (assigned_key::<R>(run::<R>(s, ops.take(i)), ops[i]) matches Some(earlier)
            ==> earlier < assigned_key::<R>(run::<R>(s, ops.take(j)), ops[j]).unwrap()),
{
    let before_j = run::<R>(s, ops.take(j));
    let before_i = run::<R>(s, ops.take(i));
    assert(ops.take(j).take(i) =~= ops.take(i));
    lemma_run_valid::<R>(s, ops.take(j), i);
    lemma_applied_valid::<R>(before_j, ops[j]);
    if i < j {
        let after_i = run::<R>(s, ops.take(i + 1));
        assert(ops.take(i + 1).drop_last() =~= ops.take(i));
        assert(ops.take(i + 1).last() == ops[i]);
        assert(after_i == applied::<R>(before_i, ops[i]));
        assert(ops.take(j).take(i + 1) =~= ops.take(i + 1));
        lemma_run_valid::<R>(s, ops.take(j), i + 1);
        lemma_applied_valid::<R>(before_i, ops[i]);
    }
}

/// A table of rows of one schema.
pub struct Table<R: Row> {
    rows: Vec<R>,
    sequence: u64,
}

impl<R: Row> View for Table<R> {
    type V = TableState<R::V>;

    closed spec fn view(&self) -> TableState<R::V> {
        TableState { rows: models::<R>(self.rows@), sequence: self.sequence }
    }
}

impl<R: Row> Table<R> {
    #[verifier::type_invariant]
    /// Every table satisfies the invariant of its state.
    spec fn well_formed(self) -> bool {
        valid::<R>(self@)
    }

    /// An empty table whose sequence has not assigned any key yet.
    pub fn new() -> (t: Self)
        ensures
            t@ == (TableState::<R::V> { rows: Seq::empty(), sequence: 0 }),
            valid::<R>(t@),
    {
        let t = Table { rows: Vec::new(), sequence: 0 };
        assert(models::<R>(t.rows@) =~= Seq::<R::V>::empty());
        assert(Seq::<R::V>::empty().no_duplicates());
        t
    }

    /// A vector without rows.
    fn no_rows() -> (rows: Vec<R>)
        ensures
            models::<R>(rows@) == Seq::<R::V>::empty(),
    {
        let rows: Vec<R> = Vec::new();
        assert(models::<R>(rows@) =~= Seq::<R::V>::empty());
        rows
    }

    /// Puts another vector of rows in place and hands back the one that was
    /// there, so that it can be changed outside the table.
    fn replace_rows(&mut self, rows: Vec<R>) -> (previous: Vec<R>)
        requires
            valid::<R>(
                TableState { rows: models::<R>(rows@), sequence: old(self).sequence },
            ),
        ensures
            previous@ == old(self).rows@,
            final(self).rows@ == rows@,
            final(self).sequence == old(self).sequence,
    {
        let mut rows = rows;
        core::mem::swap(&mut self.rows, &mut rows);
        rows
    }

    /// The position of the row that carries a primary key.
    fn position(&self, key: u64) -> (r: Option<usize>)
        ensures
            valid::<R>(self@),
            match r {
                Some(i) => i < self@.rows.len() && R::key_of(self@.rows[i as int]) == key
                    && i < self.rows.len(),
                None => !has_key::<R>(self@.rows, key),
            },
    {
        proof {
            use_type_invariant(self);
        }
        let mut i: usize = 0;
        while i < self.rows.len()
            invariant
                i <= self.rows.len(),
                self@.rows.len() == self.rows.len(),
                valid::<R>(self@),
                forall|j: int| 0 <= j < i ==> R::key_of(#[trigger] self@.rows[j]) != key,
            decreases self.rows.len() - i,
        {
            if self.rows[i].key() == key {
                return Some(i);
            }
            i += 1;
        }
        None
    }

    /// The position of the row that equals the given one.
    fn position_of_row(&self, row: &R) -> (r: Option<usize>)
        ensures
            valid::<R>(self@),
            match r {
                Some(i) => i < self@.rows.len() && self@.rows[i as int] == row@
                    && self@.rows.index_of(row@) == i && i < self.rows.len(),
                None => !self@.rows.contains(row@),
            },
    {
        proof {
            use_type_invariant(self);
        }
        let mut i: usize = 0;
        while i < self.rows.len()
            invariant
                i <= self.rows.len(),
                self@.rows.len() == self.rows.len(),
                valid::<R>(self@),
                forall|j: int| 0 <= j < i ==> #[trigger] self@.rows[j] != row@,
            decreases self.rows.len() - i,
        {
            if self.rows[i].same(row) {
                proof {
                    let p = self@.rows.index_of(row@);
                    assert(self@.rows[i as int] == row@);
                    assert(0 <= p < self@.rows.len() && self@.rows[p] == row@);
                }
                return Some(i);
            }
            i += 1;
        }
        None
    }

    /// A table that holds the same rows and the same sequence.
    pub fn duplicate(&self) -> (t: Self)
        ensures
            t@ == self@,
            valid::<R>(self@),
    {
        let rows = self.iter();
        Table { rows, sequence: self.sequence }
    }

    /// The number of rows.
    pub fn count(&self) -> (n: u64)
        ensures
            n == self@.rows.len(),
            valid::<R>(self@),
    {
        proof {
            use_type_invariant(self);
        }
        self.rows.len() as u64
    }

    /// All current rows, in storage order.
    pub fn iter(&self) -> (out: Vec<R>)
        ensures
            models::<R>(out@) == self@.rows,
            valid::<R>(self@),
    {
        proof {
            use_type_invariant(self);
        }
        let mut out: Vec<R> = Vec::new();
        let mut i: usize = 0;
        while i < self.rows.len()
            invariant
                i <= self.rows.len(),
                out.len() == i,
                forall|j: int| 0 <= j < i ==> (#[trigger] out[j])@ == self.rows[j]@,
            decreases self.rows.len() - i,
        {
            out.push(self.rows[i].duplicate());
            i += 1;
        }
        assert(models::<R>(out@) =~= self@.rows);
        out
    }

    /// Stores a row and returns it as stored, with its assigned key.
    pub fn insert(&mut self, row: R) -> (r: Result<R, StoreError>)
        ensures
            valid::<R>(old(self)@),
            valid::<R>(final(self)@),
            match r {
                Ok(stored) => inserted::<R>(old(self)@, row@) == Ok::<
                    (TableState<R::V>, R::V),
                    StoreError,
                >((final(self)@, stored@)),
                Err(e) => inserted::<R>(old(self)@, row@) == Err::<
                    (TableState<R::V>, R::V),
                    StoreError,
                >(e) && final(self)@ == old(self)@,
            },
    {
        proof {
            use_type_invariant(&*self);
            lemma_inserted_valid::<R>(self@, row@);
        }
        if !R::is_keyed() {
            match self.position_of_row(&row) {
                Some(_) => Ok(row),
                None => {
                    let copy = row.duplicate();
                    assert(models::<R>(self.rows@.push(row)) =~= self@.rows.push(row@));
                    let mut rows = self.replace_rows(Self::no_rows());
                    rows.push(row);
                    let _ = self.replace_rows(rows);
                    Ok(copy)
                },
            }
        } else if row.key() == 0 {
            if self.sequence == u64::MAX {
                return Err(StoreError::Overflow);
            }
            let key: u64 = self.sequence + 1;
            let stored = row.with_key(key);
            let copy = stored.duplicate();
            assert(models::<R>(self.rows@.push(stored)) =~= self@.rows.push(stored@));
            self.sequence = key;
            let mut rows = self.replace_rows(Self::no_rows());
            rows.push(stored);
            let _ = self.replace_rows(rows);
            Ok(copy)
        } else {
            let key: u64 = row.key();
            match self.position(key) {
                Some(i) => Err(StoreError::DuplicateKey),
                None => {
                    let copy = row.duplicate();
                    assert(models::<R>(self.rows@.push(row)) =~= self@.rows.push(row@));
                    if key > self.sequence {
                        self.sequence = key;
                    }
                    let mut rows = self.replace_rows(Self::no_rows());
                    rows.push(row);
                    let _ = self.replace_rows(rows);
                    Ok(copy)
                },
            }
        }
    }

    /// Replaces, as a whole, the row that carries the new row's primary key.
    pub fn update(&mut self, row: R) -> (r: Result<(), StoreError>)
        ensures
            valid::<R>(old(self)@),
            valid::<R>(final(self)@),
            match r {
                Ok(()) => updated::<R>(old(self)@, row@) == Ok::<TableState<R::V>, StoreError>(
                    final(self)@,
                ),
                Err(e) => updated::<R>(old(self)@, row@) == Err::<TableState<R::V>, StoreError>(e)
                    && final(self)@ == old(self)@,
            },
    {
        proof {
            use_type_invariant(&*self);
            lemma_updated_valid::<R>(self@, row@);
        }
        if !R::is_keyed() {
            return Err(StoreError::KeyNotFound);
        }
        match self.position(row.key()) {
            Some(i) => {
                proof {
                    lemma_key_position::<R>(self@, i as int);
                    assert(models::<R>(self.rows@.update(i as int, row)) =~= self@.rows.update(
                        i as int,
                        row@,
                    ));
                }
                let mut rows = self.replace_rows(Self::no_rows());
                rows.set(i, row);
                let _ = self.replace_rows(rows);
                Ok(())
            },
            None => Err(StoreError::KeyNotFound),
        }
    }

    /// Removes the row that equals the given one.
    pub fn delete(&mut self, row: &R) -> (r: Result<(), StoreError>)
        ensures
            valid::<R>(old(self)@),
            valid::<R>(final(self)@),
            match r {
                Ok(()) => deleted::<R>(old(self)@, row@) == Ok::<TableState<R::V>, StoreError>(
                    final(self)@,
                ),
                Err(e) => deleted::<R>(old(self)@, row@) == Err::<TableState<R::V>, StoreError>(e)
                    && final(self)@ == old(self)@,
            },
    {
        proof {
            use_type_invariant(&*self);
            lemma_deleted_valid::<R>(self@, row@);
        }
        match self.position_of_row(row) {
            Some(i) => {
                proof {
                    assert(models::<R>(self.rows@.remove(i as int)) =~= self@.rows.remove(
                        i as int,
                    ));
                }
                let mut rows = self.replace_rows(Self::no_rows());
                let _ = rows.remove(i);
                let _ = self.replace_rows(rows);
                Ok(())
            },
            None => Err(StoreError::KeyNotFound),
        }
    }

    /// The row that carries a primary key, if there is one.
    pub fn find(&self, key: u64) -> (r: Option<R>)
        ensures
            valid::<R>(self@),
            r.is_some() == found::<R>(self@, key).is_some(),
            r.is_some() ==> r.unwrap()@ == found::<R>(self@, key).unwrap(),
    {
        proof {
            use_type_invariant(self);
        }
        if !R::is_keyed() {
            return None;
        }
        match self.position(key) {
            Some(i) => {
                proof {
                    lemma_key_position::<R>(self@, i as int);
                }
                Some(self.rows[i].duplicate())
            },
            None => None,
        }
    }

    /// The rows whose index key lies between `lo` and `hi`, both included, by
    /// ascending index key.
    pub fn filter(&self, lo: u64, hi: u64) -> (c: Cursor<R>)
        ensures
            valid::<R>(self@),
            c.remaining() == index_scan::<R>(self@.rows, lo, hi),
    {
        proof {
            use_type_invariant(self);
        }
        let mut out: Vec<R> = Vec::new();
        let mut i: usize = 0;
        assert(self@.rows.take(0) =~= Seq::<R::V>::empty());
        assert(models::<R>(out@) =~= Seq::<R::V>::empty());
        while i < self.rows.len()
            invariant
                i <= self.rows.len(),
                self@.rows.len() == self.rows.len(),
                models::<R>(out@) == index_scan::<R>(self@.rows.take(i as int), lo, hi),
            decreases self.rows.len() - i,
        {
            let key: u64 = self.rows[i].index_key();
            proof {
                let next = self@.rows.take(i + 1);
                assert(next.drop_last() =~= self@.rows.take(i as int));
                assert(next.last() == self@.rows[i as int]);
            }
            if lo <= key && key <= hi {
                let ghost ordered = models::<R>(out@);
                let mut p: usize = out.len();
                assert(ordered.take(p as int) =~= ordered);
                while p > 0 && out[p - 1].index_key() > key
                    invariant
                        p <= out.len(),
                        ordered == models::<R>(out@),
                        rank::<R>(ordered, key) == rank::<R>(ordered.take(p as int), key),
                    decreases p,
                {
                    proof {
                        assert(ordered.take(p as int).last() == out[p - 1]@);
                        assert(ordered.take(p as int).drop_last() =~= ordered.take(p - 1));
                    }
                    p -= 1;
                }
                proof {
                    if p > 0 {
                        assert(ordered.take(p as int).last() == out[p - 1]@);
                    }
                    assert(rank::<R>(ordered, key) == p);
                }
                let copy = self.rows[i].duplicate();
                assert(models::<R>(out@.insert(p as int, copy)) =~= ordered.insert(
                    p as int,
                    copy@,
                ));
                out.insert(p, copy);
            }
            i += 1;
        }
        assert(self@.rows.take(i as int) =~= self@.rows);
        let c = Cursor { rows: out, position: 0 };
        assert(c.remaining() =~= models::<R>(out@));
        c
    }

    /// The rows whose index key equals `point`: a range of one value.
    pub fn filter_point(&self, point: u64) -> (c: Cursor<R>)
        ensures
            valid::<R>(self@),
            c.remaining() == index_scan::<R>(self@.rows, point, point),
    {
        self.filter(point, point)
    }
}

/// The outcome of an index scan: a sequence of rows that is handed out from
/// its front, one row at a time or all that are left at once.
pub struct Cursor<R: Row> {
    rows: Vec<R>,
    position: usize,
}

impl<R: Row> Cursor<R> {
    #[verifier::type_invariant]
    /// The position never passes the end of the rows.
    spec fn well_formed(self) -> bool {
        self.position <= self.rows.len()
    }

    /// The rows that have not been handed out yet.
    pub closed spec fn remaining(&self) -> Seq<R::V> {
        models::<R>(self.rows@).skip(self.position as int)
    }

    /// Hands out the first remaining row, if there is one.
    pub fn next(&mut self) -> (r: Option<R>)
        ensures
            match r {
                Some(row) => old(self).remaining().len() > 0 && row@ == old(self).remaining()[0]
                    && final(self).remaining() == old(self).remaining().skip(1),
                None => old(self).remaining().len() == 0 && final(self).remaining() == old(
                    self,
                ).remaining(),
            },
    {
        proof {
            use_type_invariant(&*self);
        }
        if self.position < self.rows.len() {
            let row = self.rows[self.position].duplicate();
            assert(models::<R>(self.rows@).skip(self.position as int).skip(1) =~= models::<R>(
                self.rows@,
            ).skip(self.position + 1));
            self.position = self.position + 1;
            Some(row)
        } else {
            None
        }
    }

    /// Hands out all remaining rows, in order.
    pub fn collect(self) -> (out: Vec<R>)
        ensures
            models::<R>(out@) == self.remaining(),
    {
        proof {
            use_type_invariant(&self);
        }
        let mut out: Vec<R> = Vec::new();
        let mut i: usize = self.position;
        while i < self.rows.len()
            invariant
                self.position <= i <= self.rows.len(),
                out.len() == i - self.position,
                forall|j: int|
                    0 <= j < out.len() ==> (#[trigger] out[j])@ == self.rows[self.position + j]@,
            decreases self.rows.len() - i,
        {
            out.push(self.rows[i].duplicate());
            i += 1;
        }
        assert(models::<R>(out@) =~= self.remaining());
        out
    }
}

} // verus!
