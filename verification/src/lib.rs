//! Fleet monitoring toolkit for self-hosted CI runners.
//!
//! The crate holds the verified state-synchronization engine: the shared
//! snapshot/record data model, the state-diff tracker that decides which
//! observed busy/idle states are new and must be persisted, the single-slot
//! broadcast cell that hands the latest snapshot to consumers, the live
//! view's selection state machine, and the retry/backoff policy that keeps
//! the loops running through transient failures.

pub mod fetchers;
pub mod gh_api;
pub mod live_view;
pub mod models;
pub mod retry;
pub mod snapshot_cell;
