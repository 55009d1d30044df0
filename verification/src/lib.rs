//! In-memory market-depth models for one instrument, at three fidelity
//! levels, answering the query "what price would I obtain executing a given
//! size?".
//!
//! - [`bid_offer::BidOffer`]: a pair of optional prices (bid, offer) with a
//!   mid-price computation.
//! - [`l1::L1MarketData`]: a single bid/offer price with optional per-side
//!   maximum valid sizes and a synchronous change-notification registry that
//!   fires exactly when a mutation changes the state.
//! - [`l2::L2SweepableMarketData`]: price levels per side; the price for a
//!   size is the volume-weighted average across the levels swept to fill it.
//! - [`l2::L2FullAmountMarketData`]: per-size-tier quotes; the price for a
//!   size is the quote of the smallest tier covering it, unblended.
//! - [`l3::L3MarketData`]: order-level depth with a reverse index from order
//!   id to the side and price where the order rests.
//!
//! Every price query borrows its model immutably and its contract pins the
//! result as a function of the model's state alone, so reads never mutate a
//! depth model. The models are single-writer structures with no internal
//! synchronization; an embedding system that shares one across threads must
//! synchronize around it.

pub mod bid_offer;
pub mod l1;
pub mod l2;
pub mod l3;
pub mod level;
pub mod market_side;
pub mod ordered;
pub mod update_action;
pub mod vwap;

pub use bid_offer::BidOffer;
pub use l1::L1MarketCallback;
pub use l1::L1MarketData;
pub use l2::L2FullAmountMarketData;
pub use l2::L2SweepableMarketData;
pub use l3::L3MarketData;
pub use l3::MarketLevel;
pub use level::Level;
pub use market_side::MarketSide;
pub use update_action::UpdateAction;
