//! The ways in which a store operation or a routine can fail.

use vstd::prelude::*;

verus! {

/// Why a store operation, a routine or a commit failed. Every failure aborts
/// the transaction it happens in.
#[derive(Debug, Clone, Copy, PartialEq, Eq, Structural)]
pub enum StoreError {
    /// An insert supplied a primary key that a row of the table already has.
    DuplicateKey,
    /// The row that an update or a delete names is not in the table.
    KeyNotFound,
    /// The committed state changed after the transaction began.
    TransactionConflict,
    /// Bytes do not hold a value of the declared type.
    EncodingError,
    /// A column value or an auto-increment sequence would leave its type's range.
    Overflow,
}

} // verus!
