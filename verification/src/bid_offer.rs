//! A pair of optional prices: the bid and the offer for one queried size.

use vstd::prelude::*;

verus! {

/// Truncating division by two, matching the semantics of integer division in
/// executable code: the quotient is rounded towards zero.
pub open spec fn half_towards_zero(a: int) -> int {
    if a >= 0 {
        a / 2
    } else {
        -((-a) / 2)
    }
}

/// The pricing for a specific size in the market. Each side is optional, as
/// there may not be a price for the requested size on that side.
#[derive(Clone, Copy, Debug, PartialEq)]
pub struct BidOffer<P> {
    /// The bid price, `None` when no bid is available.
    pub bid: Option<P>,
    /// The offer price, `None` when no offer is available.
    pub offer: Option<P>,
}

impl<P> BidOffer<P> {
    /// Creates a `BidOffer` which has no pricing on either side.
    pub fn new() -> (r: Self)
        ensures
            r.bid is None,
            r.offer is None,
    {
        Self { bid: None, offer: None }
    }

    /// Creates a `BidOffer` from the two optional prices.
    pub fn new_with_price(bid: Option<P>, offer: Option<P>) -> (r: Self)
        ensures
            r.bid == bid,
            r.offer == offer,
    {
        Self { bid, offer }
    }

    /// Returns the bid price.
    pub fn get_bid(&self) -> (r: &Option<P>)
        ensures
            *r == self.bid,
    {
        &self.bid
    }

    /// Returns the offer price.
    pub fn get_offer(&self) -> (r: &Option<P>)
        ensures
            *r == self.offer,
    {
        &self.offer
    }
}

impl BidOffer<i64> {
    /// The mid price: the truncated average of bid and offer when both are
    /// present, whichever side is present when only one is, `None` when
    /// neither is.
    pub open spec fn spec_mid(self) -> Option<i64> {
        match (self.bid, self.offer) {
            (Some(b), Some(o)) => Some(half_towards_zero(b + o) as i64),
            (Some(b), None) => Some(b),
            (None, Some(o)) => Some(o),
            (None, None) => None,
        }
    }

    /// Returns the mid price. Integer division truncates towards zero; this
    /// is intentional.
    pub fn get_mid(&self) -> (r: Option<i64>)
        ensures
            r == self.spec_mid(),
    {
        match (self.bid, self.offer) {
            (Some(b), Some(o)) => {
                let s: i128 = b as i128 + o as i128;
                let m: i128 = s.checked_div(2).unwrap();
                proof {
                    assert(m == half_towards_zero(b + o));
                    assert(i64::MIN <= m <= i64::MAX);
                }
                Some(m as i64)
            },
            (Some(b), None) => Some(b),
            (None, Some(o)) => Some(o),
            (None, None) => None,
        }
    }
}

impl<P> Default for BidOffer<P> {
    /// The default `BidOffer` has no pricing.
    fn default() -> (r: Self)
        ensures
            r.bid is None,
            r.offer is None,
    {
        Self::new()
    }
}

} // verus!
