//! A row-at-a-time execution engine for `SELECT` queries over a pluggable
//! storage backend.
//!
//! A query runs as one pull-based pipeline. The driving table is scanned row
//! by row; each row seeds a context chain, which the join clauses extend in
//! clause order (each with the first matching row of its table, or not at
//! all); the `WHERE` predicate then admits or rejects the joined chain; the
//! limit gate windows the admitted rows by their ordinal; and the projector
//! turns each chain that is let through into one output row.
//!
//! A left join without a match leaves the chain as it is. To the predicates
//! that follow, the columns of the table that found no row are `NULL`, so a
//! comparison with them is false and the row is rejected; a column that no
//! table of the statement declares is an error, and so is any column that
//! an output field cannot resolve.
//!
//! Every stage is stated over a mathematical model: statements, values and
//! contexts have views, a store is a map from table names to schemas and
//! rows, and each function's contract equates its result with a
//! specification function over these. The module [`theorems`] proves what
//! follows from those specifications.
//!
//! The modules, leaves first:
//! - [`error`], [`data`], [`statement`]: errors, values and rows, the parsed
//!   statement;
//! - [`storage`]: the storage contract and an in-memory store;
//! - [`context`]: context chains and column resolution;
//! - [`filter`]: expression evaluation and predicates;
//! - [`limit`]: the limit gate;
//! - [`blend`]: the projector;
//! - [`join`]: the join engine;
//! - [`select`]: schema resolution, the row source and the orchestrator.

pub mod blend;
pub mod context;
pub mod data;
pub mod error;
pub mod filter;
pub mod join;
pub mod limit;
pub mod select;
pub mod statement;
pub mod storage;
pub mod theorems;
