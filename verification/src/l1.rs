//! The single-level (L1) depth model: one bid/offer price, an optional
//! maximum valid size per side, and a synchronous change-notification
//! registry.

use vstd::prelude::*;

use crate::bid_offer::BidOffer;

verus! {

/// A subscriber to L1 pricing changes. Implementors are called back
/// synchronously, on the mutator's own call stack, whenever the state of the
/// model they are subscribed to actually changes. A callback that re-enters a
/// mutator on the same model will recurse; the registry does not guard
/// against that.
pub trait L1MarketCallback {
    /// Called after the market state changed.
    fn market_updated(&self);
}

/// A single level of pricing: the top of book of a deeper market, or an
/// instrument that is quoted with a single price. `max` caps, per side, the
/// size for which the price is valid (`None` means uncapped).
///
/// Every mutator compares the new state against the current one: when nothing
/// changes it is a no-op and no notification fires; when anything changes,
/// every registered callback is invoked, in registration order, before the
/// mutator returns. The ghost field `notifications` counts the notification
/// rounds, so each mutator's contract states exactly when one fires.
pub struct L1MarketData<C> {
    /// The current bid/offer price.
    pub price: BidOffer<i64>,
    /// The maximum size each side's price is valid for; `None` is uncapped.
    pub max: BidOffer<u64>,
    /// The registered callbacks, each under the subscription id that
    /// `subscribe` handed out, in registration order.
    pub callbacks: Vec<(u64, C)>,
    /// The subscription id that the next `subscribe` call will hand out.
    pub next_subscription: u64,
    /// Ghost count of the notification rounds fired so far.
    pub notifications: Ghost<nat>,
}

/// Equality on optional prices, usable from executable code.
fn opt_i64_eq(a: &Option<i64>, b: &Option<i64>) -> (r: bool)
    ensures
        r == (*a == *b),
{
    match (a, b) {
        (Some(x), Some(y)) => *x == *y,
        (None, None) => true,
        _ => false,
    }
}

/// Equality on optional sizes, usable from executable code.
fn opt_u64_eq(a: &Option<u64>, b: &Option<u64>) -> (r: bool)
    ensures
        r == (*a == *b),
{
    match (a, b) {
        (Some(x), Some(y)) => *x == *y,
        (None, None) => true,
        _ => false,
    }
}

impl<C: L1MarketCallback> L1MarketData<C> {
    /// The position of the first subscription registered under `id`, if any.
    pub open spec fn find_subscription(s: Seq<(u64, C)>, id: u64) -> Option<int>
        decreases s.len(),
    {
        if s.len() == 0 {
            None
        } else if s[0].0 == id {
            Some(0)
        } else {
            match Self::find_subscription(s.skip(1), id) {
                Some(j) => Some(j + 1),
                None => None,
            }
        }
    }

    proof fn lemma_find_subscription_at(s: Seq<(u64, C)>, id: u64, i: int)
        requires
            0 <= i < s.len(),
            s[i].0 == id,
            forall|j: int| 0 <= j < i ==> s[j].0 != id,
        ensures
            Self::find_subscription(s, id) == Some(i),
        decreases i,
    {
        if i > 0 {
            Self::lemma_find_subscription_at(s.skip(1), id, i - 1);
        }
    }

    proof fn lemma_find_subscription_none(s: Seq<(u64, C)>, id: u64)
        requires
            forall|j: int| 0 <= j < s.len() ==> s[j].0 != id,
        ensures
            Self::find_subscription(s, id) is None,
        decreases s.len(),
    {
        if s.len() > 0 {
            Self::lemma_find_subscription_none(s.skip(1), id);
        }
    }

    /// Creates an L1 model with no pricing, no caps and no subscribers.
    pub fn new() -> (r: Self)
        ensures
            r.price.bid is None,
            r.price.offer is None,
            r.max.bid is None,
            r.max.offer is None,
            r.callbacks@ == Seq::<(u64, C)>::empty(),
            r.next_subscription == 0,
            r.notifications@ == 0,
    {
        Self {
            price: BidOffer::new(),
            max: BidOffer::new(),
            callbacks: Vec::new(),
            next_subscription: 0,
            notifications: Ghost(0),
        }
    }

    /// Creates an L1 model with a bid and offer price and no caps.
    pub fn new_with_price(bid: Option<i64>, offer: Option<i64>) -> (r: Self)
        ensures
            r.price.bid == bid,
            r.price.offer == offer,
            r.max.bid is None,
            r.max.offer is None,
            r.callbacks@ == Seq::<(u64, C)>::empty(),
            r.next_subscription == 0,
            r.notifications@ == 0,
    {
        Self::new_with_max(bid, offer, None, None)
    }

    /// Creates an L1 model with a bid and offer price as well as the maximum
    /// sizes each is valid for (`None` means no limit).
    pub fn new_with_max(
        bid: Option<i64>,
        offer: Option<i64>,
        max_bid: Option<u64>,
        max_offer: Option<u64>,
    ) -> (r: Self)
        ensures
            r.price.bid == bid,
            r.price.offer == offer,
            r.max.bid == max_bid,
            r.max.offer == max_offer,
            r.callbacks@ == Seq::<(u64, C)>::empty(),
            r.next_subscription == 0,
            r.notifications@ == 0,
    {
        Self {
            price: BidOffer::new_with_price(bid, offer),
            max: BidOffer::new_with_price(max_bid, max_offer),
            callbacks: Vec::new(),
            next_subscription: 0,
            notifications: Ghost(0),
        }
    }

    /// Returns the current bid price.
    pub fn get_bid(&self) -> (r: &Option<i64>)
        ensures
            *r == self.price.bid,
    {
        self.price.get_bid()
    }

    /// Returns the current offer price.
    pub fn get_offer(&self) -> (r: &Option<i64>)
        ensures
            *r == self.price.offer,
    {
        self.price.get_offer()
    }

    /// Returns the current mid price.
    pub fn get_mid(&self) -> (r: Option<i64>)
        ensures
            r == self.price.spec_mid(),
    {
        self.price.get_mid()
    }

    /// Returns the maximum size the bid is valid for.
    pub fn get_max_bid(&self) -> (r: &Option<u64>)
        ensures
            *r == self.max.bid,
    {
        self.max.get_bid()
    }

    /// Returns the maximum size the offer is valid for.
    pub fn get_max_offer(&self) -> (r: &Option<u64>)
        ensures
            *r == self.max.offer,
    {
        self.max.get_offer()
    }

    /// Invokes every registered callback, in registration order, and counts
    /// the notification round.
    fn publish_to_subscribers(&mut self)
        ensures
            final(self).price == old(self).price,
            final(self).max == old(self).max,
            final(self).callbacks@ == old(self).callbacks@,
            final(self).next_subscription == old(self).next_subscription,
            final(self).notifications@ == old(self).notifications@ + 1,
    {
        let n = self.callbacks.len();
        let mut i: usize = 0;
        while i < n
            invariant
                n == self.callbacks.len(),
            decreases n - i,
        {
            self.callbacks[i].1.market_updated();
            i = i + 1;
        }
        self.notifications = Ghost(self.notifications@ + 1);
    }

    /// Updates the bid price. Notifies subscribers exactly when the bid
    /// actually changed.
    pub fn update_bid(&mut self, bid: Option<i64>)
        ensures
            final(self).price.bid == bid,
            final(self).price.offer == old(self).price.offer,
            final(self).max == old(self).max,
            final(self).callbacks@ == old(self).callbacks@,
            final(self).next_subscription == old(self).next_subscription,
            final(self).notifications@ == (if old(self).price.bid != bid {
                old(self).notifications@ + 1
            } else {
                old(self).notifications@
            }),
    {
        if !opt_i64_eq(&self.price.bid, &bid) {
            self.price = BidOffer::new_with_price(bid, self.price.offer);
            self.publish_to_subscribers();
        }
    }

    /// Updates the offer price. Notifies subscribers exactly when the offer
    /// actually changed.
    pub fn update_offer(&mut self, offer: Option<i64>)
        ensures
            final(self).price.bid == old(self).price.bid,
            final(self).price.offer == offer,
            final(self).max == old(self).max,
            final(self).callbacks@ == old(self).callbacks@,
            final(self).next_subscription == old(self).next_subscription,
            final(self).notifications@ == (if old(self).price.offer != offer {
                old(self).notifications@ + 1
            } else {
                old(self).notifications@
            }),
    {
        if !opt_i64_eq(&self.price.offer, &offer) {
            self.price = BidOffer::new_with_price(self.price.bid, offer);
            self.publish_to_subscribers();
        }
    }

    /// Updates the maximum size the bid is valid for. Notifies subscribers
    /// exactly when the cap actually changed.
    pub fn update_max_bid(&mut self, max_bid: Option<u64>)
        ensures
            final(self).price == old(self).price,
            final(self).max.bid == max_bid,
            final(self).max.offer == old(self).max.offer,
            final(self).callbacks@ == old(self).callbacks@,
            final(self).next_subscription == old(self).next_subscription,
            final(self).notifications@ == (if old(self).max.bid != max_bid {
                old(self).notifications@ + 1
            } else {
                old(self).notifications@
            }),
    {
        if !opt_u64_eq(&self.max.bid, &max_bid) {
            self.max = BidOffer::new_with_price(max_bid, self.max.offer);
            self.publish_to_subscribers();
        }
    }

    /// Updates the maximum size the offer is valid for. Notifies subscribers
    /// exactly when the cap actually changed.
    pub fn update_max_offer(&mut self, max_offer: Option<u64>)
        ensures
            final(self).price == old(self).price,
            final(self).max.bid == old(self).max.bid,
            final(self).max.offer == max_offer,
            final(self).callbacks@ == old(self).callbacks@,
            final(self).next_subscription == old(self).next_subscription,
            final(self).notifications@ == (if old(self).max.offer != max_offer {
                old(self).notifications@ + 1
            } else {
                old(self).notifications@
            }),
    {
        if !opt_u64_eq(&self.max.offer, &max_offer) {
            self.max = BidOffer::new_with_price(self.max.bid, max_offer);
            self.publish_to_subscribers();
        }
    }

    /// Updates both the bid and offer prices. Notifies subscribers exactly
    /// when either side actually changed.
    pub fn update(&mut self, bid: Option<i64>, offer: Option<i64>)
        ensures
            final(self).price.bid == bid,
            final(self).price.offer == offer,
            final(self).max == old(self).max,
            final(self).callbacks@ == old(self).callbacks@,
            final(self).next_subscription == old(self).next_subscription,
            final(self).notifications@ == (if old(self).price.bid != bid || old(self).price.offer
                != offer {
                old(self).notifications@ + 1
            } else {
                old(self).notifications@
            }),
    {
        if !opt_i64_eq(&self.price.bid, &bid) || !opt_i64_eq(&self.price.offer, &offer) {
            self.price = BidOffer::new_with_price(bid, offer);
            self.publish_to_subscribers();
        }
    }

    /// Updates both sides of the price from a bid/offer structure. Notifies
    /// subscribers exactly when the price actually changed.
    pub fn update_price(&mut self, price: BidOffer<i64>)
        ensures
            final(self).price == price,
            final(self).max == old(self).max,
            final(self).callbacks@ == old(self).callbacks@,
            final(self).next_subscription == old(self).next_subscription,
            final(self).notifications@ == (if old(self).price != price {
                old(self).notifications@ + 1
            } else {
                old(self).notifications@
            }),
    {
        if !opt_i64_eq(&self.price.bid, &price.bid) || !opt_i64_eq(
            &self.price.offer,
            &price.offer,
        ) {
            self.price = price;
            self.publish_to_subscribers();
        }
    }

    /// Updates the price and the maximum sizes in a single call, with a
    /// single notification. Notifies subscribers exactly when anything
    /// actually changed.
    pub fn update_with_max(
        &mut self,
        bid: Option<i64>,
        offer: Option<i64>,
        max_bid: Option<u64>,
        max_offer: Option<u64>,
    )
        ensures
            final(self).price.bid == bid,
            final(self).price.offer == offer,
            final(self).max.bid == max_bid,
            final(self).max.offer == max_offer,
            final(self).callbacks@ == old(self).callbacks@,
            final(self).next_subscription == old(self).next_subscription,
            final(self).notifications@ == (if old(self).price.bid != bid || old(self).price.offer
                != offer || old(self).max.bid != max_bid || old(self).max.offer != max_offer {
                old(self).notifications@ + 1
            } else {
                old(self).notifications@
            }),
    {
        if !opt_i64_eq(&self.price.bid, &bid) || !opt_i64_eq(&self.price.offer, &offer)
            || !opt_u64_eq(&self.max.bid, &max_bid) || !opt_u64_eq(&self.max.offer, &max_offer) {
            self.price = BidOffer::new_with_price(bid, offer);
            self.max = BidOffer::new_with_price(max_bid, max_offer);
            self.publish_to_subscribers();
        }
    }

    /// Updates both sides of the maximum sizes from a bid/offer structure.
    /// Notifies subscribers exactly when a cap actually changed.
    pub fn update_max(&mut self, max: BidOffer<u64>)
        ensures
            final(self).price == old(self).price,
            final(self).max == max,
            final(self).callbacks@ == old(self).callbacks@,
            final(self).next_subscription == old(self).next_subscription,
            final(self).notifications@ == (if old(self).max != max {
                old(self).notifications@ + 1
            } else {
                old(self).notifications@
            }),
    {
        if !opt_u64_eq(&self.max.bid, &max.bid) || !opt_u64_eq(&self.max.offer, &max.offer) {
            self.max = max;
            self.publish_to_subscribers();
        }
    }

    /// Updates both the price and the maximum sizes from bid/offer
    /// structures, with a single notification. Notifies subscribers exactly
    /// when anything actually changed.
    pub fn update_price_with_max(&mut self, price: BidOffer<i64>, max: BidOffer<u64>)
        ensures
            final(self).price == price,
            final(self).max == max,
            final(self).callbacks@ == old(self).callbacks@,
            final(self).next_subscription == old(self).next_subscription,
            final(self).notifications@ == (if old(self).price != price || old(self).max != max {
                old(self).notifications@ + 1
            } else {
                old(self).notifications@
            }),
    {
        if !opt_i64_eq(&self.price.bid, &price.bid) || !opt_i64_eq(
            &self.price.offer,
            &price.offer,
        ) || !opt_u64_eq(&self.max.bid, &max.bid) || !opt_u64_eq(&self.max.offer, &max.offer) {
            self.price = price;
            self.max = max;
            self.publish_to_subscribers();
        }
    }

    /// Resets price and caps to the fully-null state. Notifies subscribers
    /// exactly when something was non-null.
    pub fn clear(&mut self)
        ensures
            final(self).price.bid is None,
            final(self).price.offer is None,
            final(self).max.bid is None,
            final(self).max.offer is None,
            final(self).callbacks@ == old(self).callbacks@,
            final(self).next_subscription == old(self).next_subscription,
            final(self).notifications@ == (if old(self).price.bid is Some || old(
                self,
            ).price.offer is Some || old(self).max.bid is Some || old(self).max.offer is Some {
                old(self).notifications@ + 1
            } else {
                old(self).notifications@
            }),
    {
        if self.price.get_bid().is_some() || self.price.get_offer().is_some()
            || self.max.get_bid().is_some() || self.max.get_offer().is_some() {
            self.price = BidOffer::new();
            self.max = BidOffer::new();
            self.publish_to_subscribers();
        }
    }

    /// Returns the price for the size passed in: the current bid/offer,
    /// except that a side whose cap is set and exceeded by `size` is `None`.
    pub fn get_price(&self, size: u64) -> (r: BidOffer<i64>)
        ensures
            r.bid == (match self.max.bid {
                Some(m) => if size <= m {
                    self.price.bid
                } else {
                    None::<i64>
                },
                None => self.price.bid,
            }),
            r.offer == (match self.max.offer {
                Some(m) => if size <= m {
                    self.price.offer
                } else {
                    None::<i64>
                },
                None => self.price.offer,
            }),
    {
        let bid = match self.max.bid {
            Some(m) => if size <= m {
                self.price.bid
            } else {
                None
            },
            None => self.price.bid,
        };
        let offer = match self.max.offer {
            Some(m) => if size <= m {
                self.price.offer
            } else {
                None
            },
            None => self.price.offer,
        };
        BidOffer::new_with_price(bid, offer)
    }

    /// Subscribes to pricing changes. The callback is invoked only when the
    /// state actually changes (updating with the current value does not
    /// trigger it), synchronously on the mutator's own thread. Returns the
    /// subscription id, under which `unsubscribe` can target this
    /// registration.
    pub fn subscribe(&mut self, callback: C) -> (id: u64)
        requires
            old(self).next_subscription < u64::MAX,
        ensures
            id == old(self).next_subscription,
            final(self).callbacks@ == old(self).callbacks@.push((id, callback)),
            final(self).next_subscription == old(self).next_subscription + 1,
            final(self).price == old(self).price,
            final(self).max == old(self).max,
            final(self).notifications@ == old(self).notifications@,
    {
        let id = self.next_subscription;
        self.next_subscription = self.next_subscription + 1;
        self.callbacks.push((id, callback));
        id
    }

    /// Removes the first registration made under `id`, returning whether one
    /// was found. Subscribers are never notified of registry changes.
    pub fn unsubscribe(&mut self, id: u64) -> (removed: bool)
        ensures
            removed == Self::find_subscription(old(self).callbacks@, id) is Some,
            final(self).callbacks@ == (match Self::find_subscription(old(self).callbacks@, id) {
                Some(j) => old(self).callbacks@.remove(j),
                None => old(self).callbacks@,
            }),
            final(self).next_subscription == old(self).next_subscription,
            final(self).price == old(self).price,
            final(self).max == old(self).max,
            final(self).notifications@ == old(self).notifications@,
    {
        let n = self.callbacks.len();
        let mut i: usize = 0;
        while i < n
            invariant
                n == self.callbacks.len(),
                self == old(self),
                0 <= i <= n,
                forall|j: int| 0 <= j < i ==> self.callbacks@[j].0 != id,
            decreases n - i,
        {
            if self.callbacks[i].0 == id {
                proof {
                    Self::lemma_find_subscription_at(self.callbacks@, id, i as int);
                }
                self.callbacks.remove(i);
                return true;
            }
            i = i + 1;
        }
        proof {
            Self::lemma_find_subscription_none(self.callbacks@, id);
        }
        false
    }
}

impl<C: L1MarketCallback> Default for L1MarketData<C> {
    /// The default L1 model has no pricing, no caps and no subscribers.
    fn default() -> (r: Self)
        ensures
            r.price.bid is None,
            r.price.offer is None,
            r.max.bid is None,
            r.max.offer is None,
            r.callbacks@ == Seq::<(u64, C)>::empty(),
            r.next_subscription == 0,
            r.notifications@ == 0,
    {
        Self::new()
    }
}

} // verus!
