//! The two aggregated (L2) depth models: sweepable, where the price for a
//! size blends across price levels, and full-amount, where each size tier
//! carries its own unblended price.

use vstd::prelude::*;

use crate::bid_offer::BidOffer;
use crate::market_side::MarketSide;
use crate::ordered::sorted_i64;
use crate::ordered::sorted_u64;
use crate::ordered::spec_remove_i64;
use crate::ordered::spec_remove_u64;
use crate::ordered::spec_store_i64;
use crate::ordered::spec_store_u64;
use crate::ordered::remove_i64;
use crate::ordered::remove_u64;
use crate::ordered::store_i64;
use crate::ordered::store_u64;
use crate::update_action::UpdateAction;
use crate::vwap::side_view;
use crate::vwap::vwap;
use crate::vwap::vwap_query;

verus! {

/// What one side's price levels become under an update: `Add` and `Update`
/// both store the size at the price (an `Update` to an absent price behaves
/// as an insert, mirroring `Add`); `Remove` deletes the price level outright.
pub open spec fn updated_levels(
    s: Seq<(i64, u64)>,
    action: UpdateAction,
    price: i64,
    size: u64,
) -> Seq<(i64, u64)> {
    match action {
        UpdateAction::Add => spec_store_i64(s, price, size),
        UpdateAction::Update => spec_store_i64(s, price, size),
        UpdateAction::Remove => spec_remove_i64(s, price),
    }
}

/// L2 pricing which is sweepable: the price for any given size is the
/// volume-weighted average price of the levels required to obtain that size.
///
/// Each side holds its levels as (price, size) pairs sorted by price
/// ascending, one level per price; bids are walked backwards and offers
/// forwards, so the best price comes first.
pub struct L2SweepableMarketData {
    /// The bid levels, sorted by price ascending (best last).
    pub bids: Vec<(i64, u64)>,
    /// The offer levels, sorted by price ascending (best first).
    pub offers: Vec<(i64, u64)>,
}

impl L2SweepableMarketData {
    /// Each side is sorted by price with one level per price.
    pub open spec fn wf(self) -> bool {
        sorted_i64(self.bids@) && sorted_i64(self.offers@)
    }

    /// Creates a sweepable L2 model with no pricing.
    pub fn new() -> (r: Self)
        ensures
            r.wf(),
            r.bids@ == Seq::<(i64, u64)>::empty(),
            r.offers@ == Seq::<(i64, u64)>::empty(),
    {
        Self { bids: Vec::new(), offers: Vec::new() }
    }

    /// Applies one depth event to the chosen side: `Add` and `Update` store
    /// `size` at `price` (inserting the level if absent), `Remove` deletes
    /// the level at `price`. The other side is untouched.
    pub fn update(&mut self, action: UpdateAction, side: MarketSide, price: i64, size: u64)
        requires
            old(self).wf(),
        ensures
            final(self).wf(),
            final(self).bids@ == (if side is Bid {
                updated_levels(old(self).bids@, action, price, size)
            } else {
                old(self).bids@
            }),
            final(self).offers@ == (if side is Offer {
                updated_levels(old(self).offers@, action, price, size)
            } else {
                old(self).offers@
            }),
    {
        let side_store = match side {
            MarketSide::Bid => &mut self.bids,
            MarketSide::Offer => &mut self.offers,
        };
        match action {
            UpdateAction::Add => store_i64(side_store, price, size),
            UpdateAction::Update => store_i64(side_store, price, size),
            UpdateAction::Remove => remove_i64(side_store, price),
        }
    }

    /// Empties both sides.
    pub fn clear(&mut self)
        ensures
            final(self).wf(),
            final(self).bids@ == Seq::<(i64, u64)>::empty(),
            final(self).offers@ == Seq::<(i64, u64)>::empty(),
    {
        self.bids.clear();
        self.offers.clear();
    }

    /// Returns, per side, the volume-weighted average price of sweeping the
    /// levels best-price-first until `size` is filled, or `None` for a side
    /// whose whole depth cannot fill it.
    pub fn get_price(&self, size: u64) -> (r: BidOffer<i64>)
        requires
            size >= 1,
        ensures
            r.bid is Some <==> vwap(side_view(self.bids@, true), size as int) is Some,
            r.bid is Some ==> r.bid->0 as int == vwap(side_view(self.bids@, true), size as int)->0,
            r.offer is Some <==> vwap(side_view(self.offers@, false), size as int) is Some,
            r.offer is Some ==> r.offer->0 as int == vwap(
                side_view(self.offers@, false),
                size as int,
            )->0,
    {
        BidOffer::new_with_price(
            vwap_query(&self.bids, size, true),
            vwap_query(&self.offers, size, false),
        )
    }
}

impl Default for L2SweepableMarketData {
    /// The default sweepable L2 model has no pricing.
    fn default() -> (r: Self)
        ensures
            r.wf(),
            r.bids@ == Seq::<(i64, u64)>::empty(),
            r.offers@ == Seq::<(i64, u64)>::empty(),
    {
        Self::new()
    }
}

/// What one side's size tiers become under an update: `Add` and `Update`
/// both store the price at the tier (an `Update` to an absent tier behaves
/// as an insert, mirroring `Add`); `Remove` deletes the tier outright.
pub open spec fn updated_tiers(
    s: Seq<(u64, i64)>,
    action: UpdateAction,
    price: i64,
    size: u64,
) -> Seq<(u64, i64)> {
    match action {
        UpdateAction::Add => spec_store_u64(s, size, price),
        UpdateAction::Update => spec_store_u64(s, size, price),
        UpdateAction::Remove => spec_remove_u64(s, size),
    }
}

/// The price of the smallest published size tier that covers `size`: the
/// first entry, tiers ascending, whose tier is at least `size`. No blending
/// across tiers takes place.
pub open spec fn first_covering(s: Seq<(u64, i64)>, size: u64) -> Option<i64>
    decreases s.len(),
{
    if s.len() == 0 {
        None
    } else if s[0].0 >= size {
        Some(s[0].1)
    } else {
        first_covering(s.skip(1), size)
    }
}

proof fn lemma_first_covering_at(s: Seq<(u64, i64)>, size: u64, pos: int)
    requires
        0 <= pos <= s.len(),
        forall|j: int| 0 <= j < pos ==> s[j].0 < size,
    ensures
        pos < s.len() && s[pos].0 >= size ==> first_covering(s, size) == Some(s[pos].1),
        pos == s.len() ==> first_covering(s, size) is None,
    decreases s.len(),
{
    if s.len() > 0 && pos > 0 {
        lemma_first_covering_at(s.skip(1), size, pos - 1);
    }
}

/// L2 pricing which is full amount: the price for any given size is the
/// price published for the smallest size tier covering it.
///
/// Each side holds its quotes as (size tier, price) pairs sorted by tier
/// ascending, one quote per tier.
pub struct L2FullAmountMarketData {
    /// The bid quotes, one per size tier, tiers ascending.
    pub bids: Vec<(u64, i64)>,
    /// The offer quotes, one per size tier, tiers ascending.
    pub offers: Vec<(u64, i64)>,
}

impl L2FullAmountMarketData {
    /// Each side is sorted by size tier with one quote per tier.
    pub open spec fn wf(self) -> bool {
        sorted_u64(self.bids@) && sorted_u64(self.offers@)
    }

    /// Creates a full-amount L2 model with no pricing.
    pub fn new() -> (r: Self)
        ensures
            r.wf(),
            r.bids@ == Seq::<(u64, i64)>::empty(),
            r.offers@ == Seq::<(u64, i64)>::empty(),
    {
        Self { bids: Vec::new(), offers: Vec::new() }
    }

    /// Applies one depth event to the chosen side: `Add` and `Update` store
    /// `price` at the tier `size` (inserting the tier if absent), `Remove`
    /// deletes the tier `size`. The other side is untouched.
    pub fn update(&mut self, action: UpdateAction, side: MarketSide, price: i64, size: u64)
        requires
            old(self).wf(),
        ensures
            final(self).wf(),
            final(self).bids@ == (if side is Bid {
                updated_tiers(old(self).bids@, action, price, size)
            } else {
                old(self).bids@
            }),
            final(self).offers@ == (if side is Offer {
                updated_tiers(old(self).offers@, action, price, size)
            } else {
                old(self).offers@
            }),
    {
        let side_store = match side {
            MarketSide::Bid => &mut self.bids,
            MarketSide::Offer => &mut self.offers,
        };
        match action {
            UpdateAction::Add => store_u64(side_store, size, price),
            UpdateAction::Update => store_u64(side_store, size, price),
            UpdateAction::Remove => remove_u64(side_store, size),
        }
    }

    /// Empties both sides.
    pub fn clear(&mut self)
        ensures
            final(self).wf(),
            final(self).bids@ == Seq::<(u64, i64)>::empty(),
            final(self).offers@ == Seq::<(u64, i64)>::empty(),
    {
        self.bids.clear();
        self.offers.clear();
    }

    /// Returns, per side, the price of the smallest tier that covers `size`,
    /// as published and unblended, or `None` for a side with no tier at
    /// least as large as `size`.
    pub fn get_price(&self, size: u64) -> (r: BidOffer<i64>)
        ensures
            r.bid == first_covering(self.bids@, size),
            r.offer == first_covering(self.offers@, size),
    {
        BidOffer::new_with_price(
            Self::find_covering(&self.bids, size),
            Self::find_covering(&self.offers, size),
        )
    }

    /// Scans one side's tiers in ascending order for the first that covers
    /// `size`.
    fn find_covering(v: &Vec<(u64, i64)>, size: u64) -> (r: Option<i64>)
        ensures
            r == first_covering(v@, size),
    {
        let n = v.len();
        let mut i: usize = 0;
        while i < n
            invariant
                n == v@.len(),
                0 <= i <= n,
                forall|j: int| 0 <= j < i ==> v@[j].0 < size,
            decreases n - i,
        {
            if v[i].0 >= size {
                proof {
                    lemma_first_covering_at(v@, size, i as int);
                }
                return Some(v[i].1);
            }
            i = i + 1;
        }
        proof {
            lemma_first_covering_at(v@, size, n as int);
        }
        None
    }
}

impl Default for L2FullAmountMarketData {
    /// The default full-amount L2 model has no pricing.
    fn default() -> (r: Self)
        ensures
            r.wf(),
            r.bids@ == Seq::<(u64, i64)>::empty(),
            r.offers@ == Seq::<(u64, i64)>::empty(),
    {
        Self::new()
    }
}

} // verus!
