//! Outcome shapes of write operations. The store reports matched and
//! modified rows separately, and deleted rows as a count, so callers
//! can tell "no such row" from "row unchanged" where they choose to.

use vstd::prelude::*;

verus! {

/// Outcome of an update: how many rows the filter matched and how many
/// were actually changed.
#[derive(Clone, Copy, Debug, PartialEq, Eq, Structural)]
pub struct UpdateOutcome {
    pub matched_count: u64,
    pub modified_count: u64,
}

/// Outcome of a delete: how many rows were removed.
#[derive(Clone, Copy, Debug, PartialEq, Eq, Structural)]
pub struct DeleteOutcome {
    pub deleted_count: u64,
}

} // verus!
