//! Durable transition records: the append-only facts the engine persists.
//!
//! A record marks a change (or first observation) of a runner's busy flag.
//! Timestamps are kept as plain milliseconds since the epoch; the store layer
//! outside the library converts them to its own timestamp type.

use vstd::prelude::*;

verus! {

/// Mathematical model of a staged (not yet stored) transition record.
pub struct NewTransitionView {
    pub rid: u64,
    pub name: Seq<char>,
    pub busy: bool,
    pub created_at: i64,
}

/// Mathematical model of a stored transition record, including the surrogate
/// key the store assigned.
pub struct StoredTransitionView {
    pub id: i32,
    pub rid: u64,
    pub name: Seq<char>,
    pub busy: bool,
    pub created_at: i64,
}

/// A transition staged for persistence: runner id, runner name, the newly
/// observed busy flag, and the observation time in epoch milliseconds.
#[derive(Debug, Clone, PartialEq)]
pub struct NewRunnersSaturation {
    pub rid: u64,
    pub name: String,
    pub busy: bool,
    pub created_at: i64,
}

impl View for NewRunnersSaturation {
    type V = NewTransitionView;

    open spec fn view(&self) -> NewTransitionView {
        NewTransitionView {
            rid: self.rid,
            name: self.name@,
            busy: self.busy,
            created_at: self.created_at,
        }
    }
}

impl DeepView for NewRunnersSaturation {
    type V = NewTransitionView;

    open spec fn deep_view(&self) -> NewTransitionView {
        self.view()
    }
}

/// A transition record as read back from the durable store. The surrogate
/// `id` is the store's primary key: unique across all records, assigned in
/// insertion order.
#[derive(Debug, Clone, PartialEq)]
pub struct RunnersSaturationScheme {
    pub id: i32,
    pub rid: u64,
    pub name: String,
    pub busy: bool,
    pub created_at: i64,
}

impl View for RunnersSaturationScheme {
    type V = StoredTransitionView;

    open spec fn view(&self) -> StoredTransitionView {
        StoredTransitionView {
            id: self.id,
            rid: self.rid,
            name: self.name@,
            busy: self.busy,
            created_at: self.created_at,
        }
    }
}

impl DeepView for RunnersSaturationScheme {
    type V = StoredTransitionView;

    open spec fn deep_view(&self) -> StoredTransitionView {
        self.view()
    }
}

/// Record `a` was written strictly later than record `b`: later creation
/// time, with the surrogate key breaking ties (keys are assigned in
/// insertion order).
pub open spec fn later(a: StoredTransitionView, b: StoredTransitionView) -> bool {
    a.created_at > b.created_at || (a.created_at == b.created_at && a.id > b.id)
}

} // verus!
