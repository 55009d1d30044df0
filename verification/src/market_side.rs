//! The side of the market that a price belongs to.

use vstd::prelude::*;

verus! {

/// The side of the market for a price.
#[derive(Clone, Copy, Debug, PartialEq, Eq, Structural)]
pub enum MarketSide {
    /// The price is a bid.
    Bid,
    /// The price is an offer.
    Offer,
}

} // verus!
