//! Vectorized Top-N operator for a pull-based, columnar query-execution
//! pipeline.
//!
//! Given a multi-key ORDER BY and a row limit `n`, the operator reads an
//! unbounded stream of input batches from an upstream source and returns only
//! the `n` best rows, fully sorted. The crate is organised leaves-first:
//!
//! * [`types`] — column values, columns, batches and errors;
//! * [`collate`] — byte-string collations (binary and case/accent-insensitive
//!   weights) and the lexicographic weight comparison;
//! * [`compare`] — the multi-key, direction-aware row comparator;
//! * [`expr`] — the supported ORDER BY expression subset and its evaluation;
//! * [`heap`] — the bounded worst-first Top-N selection structure;
//! * [`source`] — the batch-pull contract an upstream operator satisfies;
//! * [`executor`] — the pull-based Top-N state machine;
//! * [`laws`] — proofs of the ordering laws the comparator guarantees.

pub mod collate;
pub mod compare;
pub mod executor;
pub mod expr;
pub mod heap;
pub mod laws;
pub mod source;
pub mod types;
