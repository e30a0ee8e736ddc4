//! The typed errors that the pipeline surfaces to its caller.

use vstd::prelude::*;

verus! {

/// Why a query could not be carried out.
#[derive(Clone, Copy, Debug, PartialEq, Eq, Structural)]
pub enum SelectError {
    /// A table is missing from storage or could not be scanned.
    StorageUnavailable,
    /// The statement names no driving table, or joins something other than
    /// a plain named table.
    UnsupportedStatement,
    /// A join carries a constraint other than `ON <predicate>`.
    UnsupportedJoinConstraint,
    /// A join operator other than the inner and left-outer forms was
    /// consulted for a row without a match.
    UnsupportedJoinOperator,
    /// A column reference resolved to no scope, and nothing stands in for
    /// it: in a predicate, no table that the statement joins declares it;
    /// in an output field, always.
    ColumnNotFound,
    /// An expression produced a value of an unexpected type.
    TypeMismatch,
}

} // verus!
