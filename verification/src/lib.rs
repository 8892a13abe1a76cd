//! Incremental chart statistics over an append-mostly ledger.
//!
//! The crate keeps derived time series (for example daily transaction counts)
//! cheap to serve: instead of re-scanning the ledger on every read, each chart
//! persists its pre-aggregated rows and refreshes them incrementally.  The
//! modules below hold the pieces of that engine:
//!
//! * [`date`] — calendar dates as plain numbers, with parsing and ordering;
//! * [`series`] — the `DateValue` row, the mathematical model of a series,
//!   and the merge (insert-or-overwrite) it is maintained by;
//! * [`store`] — the persistence adapter: checkpoint lookup and atomic upsert;
//! * [`source`] — the per-chart data source: rows strictly after a checkpoint;
//! * [`cache`] — the single-flight memoization entry guarding each chart's
//!   computation;
//! * [`updater`] — the incremental update cycle composing the above, with the
//!   laws it obeys (idempotence, incrementality, force-full equivalence);
//! * [`registry`] — the name-to-chart mapping that dispatches updates;
//! * [`error`] — the error taxonomy every failure surfaces through;
//! * [`domain_query`] — allow-list validation and clause composition for the
//!   one dynamic identifier (a schema name) that reaches query text.

pub mod cache;
pub mod date;
pub mod domain_query;
pub mod error;
pub mod registry;
pub mod series;
pub mod source;
pub mod store;
pub mod updater;
