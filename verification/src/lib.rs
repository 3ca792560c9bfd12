//! An incremental fuzzy-search matching engine.
//!
//! The engine serves live "as-you-type" filtering over a mutable candidate
//! set.  A burst of commands (new query, candidate reload) is coalesced to
//! the latest of each kind, the candidate set is ranked against the compiled
//! pattern in bounded slices, and ranked snapshots are published only when
//! the ordering changed.

pub mod coalesce;
pub mod engine;
pub mod item;
pub mod laws;
pub mod pattern;
pub mod publisher;
pub mod rank;
pub mod scheduler;
pub mod store;
pub mod text;
