//! The kind of mutation that a depth-model update performs.

use vstd::prelude::*;

verus! {

/// The update action for pricing.
#[derive(Clone, Copy, Debug, PartialEq, Eq, Structural)]
pub enum UpdateAction {
    /// Add a new price.
    Add,
    /// Update an existing price.
    Update,
    /// Remove an existing price.
    Remove,
}

} // verus!
