//! The order-level (L3) depth model: per side, price levels that each hold
//! the individual orders resting at that price, plus a reverse index from
//! order id to the side and price where the order rests, so that an update
//! or removal needs only the id.

use vstd::prelude::*;

use crate::bid_offer::BidOffer;
use crate::market_side::MarketSide;
use crate::ordered::find_i64;
use crate::ordered::find_u64;
use crate::ordered::lemma_get_i64_index;
use crate::ordered::lemma_remove_i64_get;
use crate::ordered::lemma_remove_u64_get;
use crate::ordered::lemma_sorted_get_at_index_i64;
use crate::ordered::lemma_sorted_same_keys_i64;
use crate::ordered::lemma_sorted_unique_u64;
use crate::ordered::lemma_sorted_get_at_index_u64;
use crate::ordered::lemma_store_i64_get;
use crate::ordered::lemma_store_u64_get;
use crate::ordered::remove_u64;
use crate::ordered::sorted_i64;
use crate::ordered::sorted_u64;
use crate::ordered::spec_get_i64;
use crate::ordered::spec_get_u64;
use crate::ordered::spec_remove_u64;
use crate::ordered::spec_store_u64;
use crate::ordered::store_i64;
use crate::ordered::store_u64;
use crate::update_action::UpdateAction;
use crate::vwap::sweep;
use crate::vwap::side_view;
use crate::vwap::vwap;
use crate::vwap::vwap_query;

verus! {

/// One price level of an order-level book: the orders resting at that price,
/// as (order id, size) pairs sorted by id. The level's aggregate size is the
/// sum of its orders' sizes; a level is never kept empty.
pub struct MarketLevel {
    /// The resting orders, (id, size), ids strictly ascending.
    pub orders: Vec<(u64, u64)>,
}

impl MarketLevel {
    /// Ids are unique and the level holds at least one order.
    pub open spec fn wf(self) -> bool {
        sorted_u64(self.orders@) && self.orders@.len() > 0
    }

    /// The aggregate size resting at this level.
    pub open spec fn total_size(self) -> int {
        sum_sizes(self.orders@)
    }
}

/// The sum of the orders' sizes.
pub open spec fn sum_sizes(s: Seq<(u64, u64)>) -> int
    decreases s.len(),
{
    if s.len() == 0 {
        0
    } else {
        s[0].1 + sum_sizes(s.skip(1))
    }
}

proof fn lemma_sum_sizes_nonneg(s: Seq<(u64, u64)>)
    ensures
        sum_sizes(s) >= 0,
    decreases s.len(),
{
    if s.len() > 0 {
        lemma_sum_sizes_nonneg(s.skip(1));
    }
}

/// Every level of the side is well formed.
pub open spec fn levels_wf(s: Seq<(i64, MarketLevel)>) -> bool {
    forall|i: int| 0 <= i < s.len() ==> (#[trigger] s[i]).1.wf()
}

/// The size of the order `id` resting at `price` on the given side's levels,
/// if it rests there.
pub open spec fn orders_in(levels: Seq<(i64, MarketLevel)>, price: i64, id: u64) -> Option<u64> {
    match spec_get_i64(levels, price) {
        Some(lvl) => spec_get_u64(lvl.orders@, id),
        None => None,
    }
}

/// One side's levels as price and aggregate size, walked front-to-back for
/// offers and back-to-front (`descending`) for bids, so that the best price
/// comes first.
pub open spec fn depth_of(s: Seq<(i64, MarketLevel)>, descending: bool) -> Seq<(i64, int)> {
    let fwd = s.map_values(|e: (i64, MarketLevel)| (e.0, sum_sizes(e.1.orders@)));
    if descending {
        fwd.reverse()
    } else {
        fwd
    }
}

/// Capping every level's available size at a bound no smaller than the size
/// to fill changes nothing about a sweep.
proof fn lemma_sweep_capped(a: Seq<(i64, int)>, b: Seq<(i64, int)>, cap: int, size: int)
    requires
        a.len() == b.len(),
        forall|k: int|
            0 <= k < a.len() ==> (#[trigger] a[k]).0 == b[k].0 && a[k].1 >= 0 && b[k].1 == (if a[k].1
                > cap {
                cap
            } else {
                a[k].1
            }),
        0 <= size <= cap,
    ensures
        sweep(a, size) == sweep(b, size),
    decreases a.len(),
{
    if a.len() > 0 && size > 0 {
        let inc = if a[0].1 > size {
            size
        } else {
            a[0].1
        };
        assert(b[0].1 == (if a[0].1 > cap {
            cap
        } else {
            a[0].1
        }));
        let ta = a.skip(1);
        let tb = b.skip(1);
        assert(forall|k: int|
            0 <= k < ta.len() ==> (#[trigger] ta[k]).0 == tb[k].0 && ta[k].1 >= 0 && tb[k].1 == (if ta[k].1
                > cap {
                cap
            } else {
                ta[k].1
            }));
        lemma_sweep_capped(ta, tb, cap, size - inc);
    }
}

/// The smaller of the level's aggregate size and `cap`.
fn level_available(lvl: &MarketLevel, cap: u64) -> (r: u64)
    ensures
        r as int == (if lvl.total_size() > cap as int {
            cap as int
        } else {
            lvl.total_size()
        }),
{
    let orders = &lvl.orders;
    let n = orders.len();
    let mut acc: u64 = 0;
    let mut j: usize = 0;
    proof {
        assert(orders@.skip(0) =~= orders@);
    }
    while j < n
        invariant
            n == orders@.len(),
            0 <= j <= n,
            0 <= acc <= cap,
            lvl.total_size() == sum_sizes(orders@),
            ({
                let rest = acc + sum_sizes(orders@.skip(j as int));
                (if sum_sizes(orders@) > cap as int {
                    cap as int
                } else {
                    sum_sizes(orders@)
                }) == (if rest > cap as int {
                    cap as int
                } else {
                    rest
                })
            }),
        decreases n - j,
    {
        let s = orders[j].1;
        proof {
            let t = orders@.skip(j as int);
            assert(t[0] == orders@[j as int]);
            assert(t.skip(1) =~= orders@.skip(j as int + 1));
            lemma_sum_sizes_nonneg(orders@.skip(j as int + 1));
        }
        if s >= cap - acc {
            return cap;
        }
        acc = acc + s;
        j = j + 1;
    }
    proof {
        assert(orders@.skip(n as int) =~= Seq::<(u64, u64)>::empty());
    }
    acc
}

proof fn lemma_store_levels_wf(s: Seq<(i64, MarketLevel)>, price: i64, lvl: MarketLevel)
    requires
        levels_wf(s),
        lvl.wf(),
    ensures
        levels_wf(crate::ordered::spec_store_i64(s, price, lvl)),
    decreases s.len(),
{
    let r = crate::ordered::spec_store_i64(s, price, lvl);
    if s.len() == 0 {
        assert(r == seq![(price, lvl)]);
        assert(forall|i: int| 0 <= i < r.len() ==> (#[trigger] r[i]).1 == lvl);
    } else if s[0].0 < price {
        let t = s.skip(1);
        assert(forall|i: int| 0 <= i < t.len() ==> (#[trigger] t[i]).1.wf());
        lemma_store_levels_wf(t, price, lvl);
        assert(r == seq![s[0]] + crate::ordered::spec_store_i64(t, price, lvl));
        assert(forall|i: int| 0 <= i < r.len() ==> (#[trigger] r[i]).1.wf());
    } else if s[0].0 == price {
        assert(r == seq![(price, lvl)] + s.skip(1));
        assert(forall|i: int| 0 <= i < r.len() ==> (#[trigger] r[i]).1.wf());
    } else {
        assert(r == seq![(price, lvl)] + s);
        assert(forall|i: int| 0 <= i < r.len() ==> (#[trigger] r[i]).1.wf());
    }
}

/// Stores the order (`id`, `size`) at the level for `price`, creating the
/// level when absent and replacing the order previously stored under that id
/// at this level, if any. Every other resting order is untouched.
fn add_order(levels: &mut Vec<(i64, MarketLevel)>, id: u64, price: i64, size: u64)
    requires
        sorted_i64(old(levels)@),
        levels_wf(old(levels)@),
    ensures
        sorted_i64(final(levels)@),
        levels_wf(final(levels)@),
        forall|p: i64, oid: u64|
            #![trigger orders_in(final(levels)@, p, oid)]
            orders_in(final(levels)@, p, oid) == (if p == price && oid == id {
                Some(size)
            } else {
                orders_in(old(levels)@, p, oid)
            }),
{
    let ghost s = levels@;
    let found = find_i64(levels, price);
    match found {
        Some(pos) => {
            let ghost oldlvl = s[pos as int].1;
            proof {
                assert(oldlvl.wf());
            }
            let mut entry = levels.remove(pos);
            store_u64(&mut entry.1.orders, id, size);
            let ghost newlvl = entry.1;
            levels.insert(pos, entry);
            proof {
                assert(levels@ =~= s.update(pos as int, (price, newlvl)));
                assert(forall|j: int| 0 <= j < pos ==> s[j].0 < price);
                assert(forall|j: int| pos <= j < s.len() ==> s[j].0 >= price);
                crate::ordered::lemma_store_i64_at(s, price, newlvl, pos as int);
                assert(levels@ == crate::ordered::spec_store_i64(s, price, newlvl));
                assert(forall|k: int| 0 <= k < levels@.len() ==> (#[trigger] levels@[k]).0 == s[k].0);
                assert(sorted_i64(levels@));
                lemma_store_u64_get(oldlvl.orders@, id, size, id);
                assert(spec_get_u64(newlvl.orders@, id) == Some(size));
                assert(newlvl.orders@.len() > 0);
                assert(newlvl.wf());
                assert(levels_wf(levels@));
                assert forall|p: i64, oid: u64|
                    orders_in(levels@, p, oid) == (if p == price && oid == id {
                        Some(size)
                    } else {
                        orders_in(s, p, oid)
                    }) by {
                    lemma_store_i64_get(s, price, newlvl, p);
                    if p == price {
                        lemma_store_u64_get(oldlvl.orders@, id, size, oid);
                        assert(spec_get_i64(s, price) == Some(oldlvl));
                    }
                }
            }
        },
        None => {
            let mut orders: Vec<(u64, u64)> = Vec::new();
            orders.push((id, size));
            let lvl = MarketLevel { orders };
            let ghost glvl = lvl;
            proof {
                assert(glvl.orders@ =~= seq![(id, size)]);
                assert(sorted_u64(glvl.orders@));
                assert(glvl.wf());
            }
            store_i64(levels, price, lvl);
            proof {
                assert(levels@ == crate::ordered::spec_store_i64(s, price, glvl));
                lemma_store_levels_wf(s, price, glvl);
                assert forall|p: i64, oid: u64|
                    orders_in(levels@, p, oid) == (if p == price && oid == id {
                        Some(size)
                    } else {
                        orders_in(s, p, oid)
                    }) by {
                    lemma_store_i64_get(s, price, glvl, p);
                    if p == price {
                        assert(glvl.orders@.skip(1) =~= Seq::<(u64, u64)>::empty());
                        if oid != id {
                            assert(spec_get_u64(Seq::<(u64, u64)>::empty(), oid) is None);
                            assert(spec_get_u64(glvl.orders@, oid) is None);
                            assert(spec_get_i64(s, price) is None);
                        }
                    }
                }
            }
        },
    }
}

/// Removes the order `id` from the level for `price`, deleting the level
/// when that was its last order. A missing level or a missing order is a
/// no-op. Every other resting order is untouched.
fn remove_order(levels: &mut Vec<(i64, MarketLevel)>, id: u64, price: i64)
    requires
        sorted_i64(old(levels)@),
        levels_wf(old(levels)@),
    ensures
        sorted_i64(final(levels)@),
        levels_wf(final(levels)@),
        forall|p: i64, oid: u64|
            #![trigger orders_in(final(levels)@, p, oid)]
            orders_in(final(levels)@, p, oid) == (if p == price && oid == id {
                None
            } else {
                orders_in(old(levels)@, p, oid)
            }),
{
    let ghost s = levels@;
    let found = find_i64(levels, price);
    match found {
        None => {
            proof {
                assert forall|p: i64, oid: u64|
                    orders_in(levels@, p, oid) == (if p == price && oid == id {
                        None::<u64>
                    } else {
                        orders_in(s, p, oid)
                    }) by {
                    if p == price {
                        assert(spec_get_i64(s, price) is None);
                    }
                }
            }
        },
        Some(pos) => {
            let ghost oldlvl = s[pos as int].1;
            proof {
                assert(oldlvl.wf());
            }
            let order_pos = find_u64(&levels[pos].1.orders, id);
            match order_pos {
                None => {
                    proof {
                        assert forall|p: i64, oid: u64|
                            orders_in(levels@, p, oid) == (if p == price && oid == id {
                                None::<u64>
                            } else {
                                orders_in(s, p, oid)
                            }) by {
                            if p == price && oid == id {
                                assert(spec_get_i64(s, price) == Some(oldlvl));
                                assert(spec_get_u64(oldlvl.orders@, id) is None);
                            }
                        }
                    }
                },
                Some(opos) => {
                    if levels[pos].1.orders.len() == 1 {
                        levels.remove(pos);
                        proof {
                            assert(levels@ == s.remove(pos as int));
                            assert(forall|j: int| 0 <= j < pos ==> s[j].0 < price);
                            assert(forall|j: int| pos <= j < s.len() ==> s[j].0 >= price);
                            crate::ordered::lemma_remove_i64_at(s, price, pos as int);
                            assert(levels@ == crate::ordered::spec_remove_i64(s, price));
                            assert(sorted_i64(levels@));
                            assert(levels_wf(levels@));
                            assert(opos == 0);
                            assert(oldlvl.orders@[0].0 == id);
                            assert forall|p: i64, oid: u64|
                                orders_in(levels@, p, oid) == (if p == price && oid == id {
                                    None::<u64>
                                } else {
                                    orders_in(s, p, oid)
                                }) by {
                                lemma_remove_i64_get(s, price, p);
                                if p == price && oid != id {
                                    assert(oldlvl.orders@.skip(1) =~= Seq::<(u64, u64)>::empty());
                                    assert(spec_get_u64(Seq::<(u64, u64)>::empty(), oid) is None);
                                    assert(spec_get_u64(oldlvl.orders@, oid) is None);
                                    assert(spec_get_i64(s, price) == Some(oldlvl));
                                }
                            }
                        }
                    } else {
                        let mut entry = levels.remove(pos);
                        remove_u64(&mut entry.1.orders, id);
                        let ghost newlvl = entry.1;
                        levels.insert(pos, entry);
                        proof {
                            assert(levels@ =~= s.update(pos as int, (price, newlvl)));
                            assert(forall|j: int| 0 <= j < pos ==> s[j].0 < price);
                            assert(forall|j: int| pos <= j < s.len() ==> s[j].0 >= price);
                            crate::ordered::lemma_store_i64_at(s, price, newlvl, pos as int);
                            assert(levels@ == crate::ordered::spec_store_i64(s, price, newlvl));
                            assert(forall|k: int|
                                0 <= k < levels@.len() ==> (#[trigger] levels@[k]).0 == s[k].0);
                            assert(sorted_i64(levels@));
                            // the level stays occupied: a second order, under another id,
                            // survives the removal
                            assert(oldlvl.orders@.len() >= 2);
                            let oid2 = if oldlvl.orders@[0].0 == id {
                                oldlvl.orders@[1].0
                            } else {
                                oldlvl.orders@[0].0
                            };
                            assert(oid2 != id);
                            if oldlvl.orders@[0].0 == id {
                                lemma_sorted_get_at_index_u64(oldlvl.orders@, 1);
                            } else {
                                lemma_sorted_get_at_index_u64(oldlvl.orders@, 0);
                            }
                            assert(spec_get_u64(oldlvl.orders@, oid2) is Some);
                            lemma_remove_u64_get(oldlvl.orders@, id, oid2);
                            assert(spec_get_u64(newlvl.orders@, oid2) is Some);
                            assert(newlvl.orders@.len() > 0);
                            assert(newlvl.wf());
                            assert(levels_wf(levels@));
                            assert forall|p: i64, oid: u64|
                                orders_in(levels@, p, oid) == (if p == price && oid == id {
                                    None::<u64>
                                } else {
                                    orders_in(s, p, oid)
                                }) by {
                                lemma_store_i64_get(s, price, newlvl, p);
                                if p == price {
                                    lemma_remove_u64_get(oldlvl.orders@, id, oid);
                                    assert(spec_get_i64(s, price) == Some(oldlvl));
                                }
                            }
                        }
                    }
                },
            }
        },
    }
}

/// Order-level depth: per side an ordered map from price to the level of
/// orders resting there, plus an index from order id to the side and price
/// where the order rests. The index and the levels always agree: an id is in
/// the index exactly when its order rests at the referenced side and price,
/// and an emptied level is removed rather than kept.
pub struct L3MarketData {
    /// The bid levels, sorted by price ascending (best last).
    pub bids: Vec<(i64, MarketLevel)>,
    /// The offer levels, sorted by price ascending (best first).
    pub offers: Vec<(i64, MarketLevel)>,
    /// For each resting order id, the side and price where it rests.
    pub index: Vec<(u64, (MarketSide, i64))>,
}

impl L3MarketData {
    /// The chosen side's levels.
    pub open spec fn side_levels(self, side: MarketSide) -> Seq<(i64, MarketLevel)> {
        match side {
            MarketSide::Bid => self.bids@,
            MarketSide::Offer => self.offers@,
        }
    }

    /// The side and price where the order `id` rests, per the index.
    pub open spec fn order_ref(self, id: u64) -> Option<(MarketSide, i64)> {
        spec_get_u64(self.index@, id)
    }

    /// The size of the order `id` resting at the given side and price.
    pub open spec fn order_at(self, side: MarketSide, price: i64, id: u64) -> Option<u64> {
        orders_in(self.side_levels(side), price, id)
    }

    /// Internal consistency: both sides and the index are sorted, levels are
    /// unique per price, non-empty and hold unique ids, and the index agrees
    /// exactly with where orders rest.
    pub open spec fn wf(self) -> bool {
        &&& sorted_i64(self.bids@)
        &&& sorted_i64(self.offers@)
        &&& sorted_u64(self.index@)
        &&& levels_wf(self.bids@)
        &&& levels_wf(self.offers@)
        &&& forall|id: u64|
            (#[trigger] self.order_ref(id)) matches Some(r) ==> self.order_at(r.0, r.1, id) is Some
        &&& forall|side: MarketSide, price: i64, id: u64|
            (#[trigger] self.order_at(side, price, id)) is Some ==> self.order_ref(id) == Some(
                (side, price),
            )
    }

    /// The whole book as one map: each resting order id to its side, price
    /// and size. Everything observable about the model is a function of this
    /// map (and of the price ordering, which the representation keeps).
    pub open spec fn book(self) -> Map<u64, (MarketSide, i64, u64)> {
        Map::new(
            |id: u64| self.order_ref(id) is Some,
            |id: u64|
                {
                    let r = self.order_ref(id)->0;
                    (r.0, r.1, self.order_at(r.0, r.1, id)->0)
                },
        )
    }

    /// Creates an order-level model with no orders.
    pub fn new() -> (r: Self)
        ensures
            r.wf(),
            r.book() == Map::<u64, (MarketSide, i64, u64)>::empty(),
            r.bids@ == Seq::<(i64, MarketLevel)>::empty(),
            r.offers@ == Seq::<(i64, MarketLevel)>::empty(),
            r.index@ == Seq::<(u64, (MarketSide, i64))>::empty(),
    {
        let r = Self { bids: Vec::new(), offers: Vec::new(), index: Vec::new() };
        proof {
            assert(r.book() =~= Map::<u64, (MarketSide, i64, u64)>::empty());
        }
        r
    }

    /// Empties both sides and the index unconditionally.
    pub fn clear(&mut self)
        ensures
            final(self).wf(),
            final(self).book() == Map::<u64, (MarketSide, i64, u64)>::empty(),
            final(self).bids@ == Seq::<(i64, MarketLevel)>::empty(),
            final(self).offers@ == Seq::<(i64, MarketLevel)>::empty(),
            final(self).index@ == Seq::<(u64, (MarketSide, i64))>::empty(),
    {
        self.bids.clear();
        self.offers.clear();
        self.index.clear();
        proof {
            assert(self.book() =~= Map::<u64, (MarketSide, i64, u64)>::empty());
        }
    }

    /// Returns, per side, the volume-weighted average price of sweeping the
    /// levels best-price-first — consuming each level's aggregate size —
    /// until `size` is filled, or `None` for a side whose whole depth cannot
    /// fill it.
    pub fn get_price(&self, size: u64) -> (r: BidOffer<i64>)
        requires
            size >= 1,
        ensures
            r.bid is Some <==> vwap(depth_of(self.bids@, true), size as int) is Some,
            r.bid is Some ==> r.bid->0 as int == vwap(depth_of(self.bids@, true), size as int)->0,
            r.offer is Some <==> vwap(depth_of(self.offers@, false), size as int) is Some,
            r.offer is Some ==> r.offer->0 as int == vwap(
                depth_of(self.offers@, false),
                size as int,
            )->0,
    {
        BidOffer::new_with_price(
            Self::side_vwap(&self.bids, size, true),
            Self::side_vwap(&self.offers, size, false),
        )
    }

    /// Computes one side's sweep price by flattening each level to its
    /// aggregate size, capped at the requested size — which cannot change
    /// the sweep — and walking the flattened levels best-price-first.
    fn side_vwap(v: &Vec<(i64, MarketLevel)>, size: u64, descending: bool) -> (r: Option<i64>)
        requires
            size >= 1,
        ensures
            r is Some <==> vwap(depth_of(v@, descending), size as int) is Some,
            r is Some ==> r->0 as int == vwap(depth_of(v@, descending), size as int)->0,
    {
        let n = v.len();
        let mut flat: Vec<(i64, u64)> = Vec::new();
        let mut i: usize = 0;
        while i < n
            invariant
                n == v@.len(),
                0 <= i <= n,
                flat@.len() == i,
                forall|k: int|
                    0 <= k < i ==> (#[trigger] flat@[k]).0 == v@[k].0 && flat@[k].1 as int == (
                    if sum_sizes(v@[k].1.orders@) > size as int {
                        size as int
                    } else {
                        sum_sizes(v@[k].1.orders@)
                    }),
            decreases n - i,
        {
            let avail = level_available(&v[i].1, size);
            let price = v[i].0;
            flat.push((price, avail));
            i = i + 1;
        }
        proof {
            let a = depth_of(v@, descending);
            let b = side_view(flat@, descending);
            let fa = v@.map_values(|e: (i64, MarketLevel)| (e.0, sum_sizes(e.1.orders@)));
            let fb = flat@.map_values(|e: (i64, u64)| (e.0, e.1 as int));
            assert(fa.len() == fb.len());
            assert forall|k: int|
                0 <= k < fa.len() implies (#[trigger] fa[k]).0 == fb[k].0 && fa[k].1 >= 0
                && fb[k].1 == (if fa[k].1 > size as int {
                size as int
            } else {
                fa[k].1
            }) by {
                lemma_sum_sizes_nonneg(v@[k].1.orders@);
            }
            if descending {
                assert(a == fa.reverse());
                assert(b == fb.reverse());
                assert(a.len() == b.len());
                assert forall|k: int|
                    0 <= k < a.len() implies (#[trigger] a[k]).0 == b[k].0 && a[k].1 >= 0
                    && b[k].1 == (if a[k].1 > size as int {
                    size as int
                } else {
                    a[k].1
                }) by {
                    assert(a[k] == fa[fa.len() - 1 - k]);
                    assert(b[k] == fb[fb.len() - 1 - k]);
                }
                lemma_sweep_capped(a, b, size as int, size as int);
            } else {
                lemma_sweep_capped(a, b, size as int, size as int);
            }
            assert(vwap(a, size as int) == vwap(b, size as int));
        }
        vwap_query(&flat, size, descending)
    }
}

impl L3MarketData {
    /// The other side of the market.
    pub open spec fn opposite(side: MarketSide) -> MarketSide {
        match side {
            MarketSide::Bid => MarketSide::Offer,
            MarketSide::Offer => MarketSide::Bid,
        }
    }

    /// Both sides and the index are exactly as they were.
    pub open spec fn same_state(a: Self, b: Self) -> bool {
        a.bids@ == b.bids@ && a.offers@ == b.offers@ && a.index@ == b.index@
    }

    /// Storing an order `id` at (`side`, `price`, `size`) — rewriting the
    /// index and the one side's levels accordingly, removing the order from
    /// its previous price `p_old` first when it was already resting on that
    /// side — preserves consistency and inserts the order into the book.
    proof fn lemma_wf_after_put(
        m0: Self,
        m1: Self,
        side: MarketSide,
        id: u64,
        price: i64,
        size: u64,
        p_old: Option<i64>,
    )
        requires
            m0.wf(),
            m1.index@ == spec_store_u64(m0.index@, id, (side, price)),
            sorted_u64(m1.index@),
            sorted_i64(m1.bids@),
            sorted_i64(m1.offers@),
            levels_wf(m1.bids@),
            levels_wf(m1.offers@),
            m1.side_levels(Self::opposite(side)) == m0.side_levels(Self::opposite(side)),
            forall|p: i64, oid: u64|
                #![trigger orders_in(m1.side_levels(side), p, oid)]
                orders_in(m1.side_levels(side), p, oid) == (if p == price && oid == id {
                    Some(size)
                } else if p_old matches Some(po) && p == po && oid == id {
                    None
                } else {
                    orders_in(m0.side_levels(side), p, oid)
                }),
            match p_old {
                None => m0.order_ref(id) is None,
                Some(po) => m0.order_ref(id) == Some((side, po)),
            },
        ensures
            m1.wf(),
            m1.book() == m0.book().insert(id, (side, price, size)),
    {
        assert forall|id2: u64| (#[trigger] m1.order_ref(id2)) is Some implies m1.order_at(
            (m1.order_ref(id2)->0).0,
            (m1.order_ref(id2)->0).1,
            id2,
        ) is Some by {
            lemma_store_u64_get(m0.index@, id, (side, price), id2);
            if id2 == id {
                assert(m1.order_ref(id) == Some((side, price)));
                assert(orders_in(m1.side_levels(side), price, id) == Some(size));
            } else {
                let r = m1.order_ref(id2)->0;
                assert(m0.order_ref(id2) == Some(r));
                assert(m0.order_at(r.0, r.1, id2) is Some);
                if r.0 == side {
                    assert(orders_in(m1.side_levels(side), r.1, id2) == orders_in(
                        m0.side_levels(side),
                        r.1,
                        id2,
                    ));
                } else {
                    assert(r.0 == Self::opposite(side));
                }
            }
        }
        assert forall|s3: MarketSide, p3: i64, oid3: u64|
            (#[trigger] m1.order_at(s3, p3, oid3)) is Some implies m1.order_ref(oid3) == Some(
            (s3, p3),
        ) by {
            lemma_store_u64_get(m0.index@, id, (side, price), oid3);
            if s3 == side {
                assert(orders_in(m1.side_levels(side), p3, oid3) is Some);
                if p3 == price && oid3 == id {
                    assert(m1.order_ref(id) == Some((side, price)));
                } else if p_old matches Some(po) && p3 == po && oid3 == id {
                    assert(false);
                } else {
                    assert(orders_in(m0.side_levels(side), p3, oid3) is Some);
                    assert(m0.order_at(s3, p3, oid3) is Some);
                    assert(m0.order_ref(oid3) == Some((s3, p3)));
                    if oid3 == id {
                        match p_old {
                            None => {
                                assert(false);
                            },
                            Some(po) => {
                                assert((s3, p3) == (side, po));
                                assert(false);
                            },
                        }
                    }
                    assert(m1.order_ref(oid3) == m0.order_ref(oid3));
                }
            } else {
                assert(s3 == Self::opposite(side));
                assert(m0.order_at(s3, p3, oid3) is Some);
                assert(m0.order_ref(oid3) == Some((s3, p3)));
                if oid3 == id {
                    assert(false);
                }
                assert(m1.order_ref(oid3) == m0.order_ref(oid3));
            }
        }
        assert(m1.wf());
        assert forall|id2: u64| true implies #[trigger] m1.book().contains_key(id2) == m0.book(
        ).insert(id, (side, price, size)).contains_key(id2) by {
            lemma_store_u64_get(m0.index@, id, (side, price), id2);
        }
        assert forall|id2: u64| m1.book().contains_key(id2) implies #[trigger] m1.book()[id2]
            == m0.book().insert(id, (side, price, size))[id2] by {
            lemma_store_u64_get(m0.index@, id, (side, price), id2);
            if id2 == id {
                assert(m1.order_ref(id) == Some((side, price)));
                assert(orders_in(m1.side_levels(side), price, id) == Some(size));
            } else {
                assert(m1.order_ref(id2) == m0.order_ref(id2));
                let r = m1.order_ref(id2)->0;
                if r.0 == side {
                    assert(orders_in(m1.side_levels(side), r.1, id2) == orders_in(
                        m0.side_levels(side),
                        r.1,
                        id2,
                    ));
                } else {
                    assert(r.0 == Self::opposite(side));
                }
            }
        }
        assert(m1.book() =~= m0.book().insert(id, (side, price, size)));
    }

    /// Deleting an order `id` that rested at (`side`, `p_old`) — rewriting
    /// the index and the one side's levels accordingly — preserves
    /// consistency and removes the order from the book.
    proof fn lemma_wf_after_take(m0: Self, m1: Self, side: MarketSide, id: u64, p_old: i64)
        requires
            m0.wf(),
            m0.order_ref(id) == Some((side, p_old)),
            m1.index@ == spec_remove_u64(m0.index@, id),
            sorted_u64(m1.index@),
            sorted_i64(m1.bids@),
            sorted_i64(m1.offers@),
            levels_wf(m1.bids@),
            levels_wf(m1.offers@),
            m1.side_levels(Self::opposite(side)) == m0.side_levels(Self::opposite(side)),
            forall|p: i64, oid: u64|
                #![trigger orders_in(m1.side_levels(side), p, oid)]
                orders_in(m1.side_levels(side), p, oid) == (if p == p_old && oid == id {
                    None
                } else {
                    orders_in(m0.side_levels(side), p, oid)
                }),
        ensures
            m1.wf(),
            m1.book() == m0.book().remove(id),
    {
        assert forall|id2: u64| (#[trigger] m1.order_ref(id2)) is Some implies m1.order_at(
            (m1.order_ref(id2)->0).0,
            (m1.order_ref(id2)->0).1,
            id2,
        ) is Some by {
            lemma_remove_u64_get(m0.index@, id, id2);
            if id2 != id {
                let r = m1.order_ref(id2)->0;
                assert(m0.order_ref(id2) == Some(r));
                assert(m0.order_at(r.0, r.1, id2) is Some);
                if r.0 == side {
                    assert(orders_in(m1.side_levels(side), r.1, id2) == orders_in(
                        m0.side_levels(side),
                        r.1,
                        id2,
                    ));
                } else {
                    assert(r.0 == Self::opposite(side));
                }
            }
        }
        assert forall|s3: MarketSide, p3: i64, oid3: u64|
            (#[trigger] m1.order_at(s3, p3, oid3)) is Some implies m1.order_ref(oid3) == Some(
            (s3, p3),
        ) by {
            lemma_remove_u64_get(m0.index@, id, oid3);
            if s3 == side {
                assert(orders_in(m1.side_levels(side), p3, oid3) is Some);
                if p3 == p_old && oid3 == id {
                    assert(false);
                } else {
                    assert(orders_in(m0.side_levels(side), p3, oid3) is Some);
                    assert(m0.order_at(s3, p3, oid3) is Some);
                    assert(m0.order_ref(oid3) == Some((s3, p3)));
                    if oid3 == id {
                        assert((s3, p3) == (side, p_old));
                        assert(false);
                    }
                    assert(m1.order_ref(oid3) == m0.order_ref(oid3));
                }
            } else {
                assert(s3 == Self::opposite(side));
                assert(m0.order_at(s3, p3, oid3) is Some);
                assert(m0.order_ref(oid3) == Some((s3, p3)));
                if oid3 == id {
                    assert(false);
                }
                assert(m1.order_ref(oid3) == m0.order_ref(oid3));
            }
        }
        assert(m1.wf());
        assert forall|id2: u64| true implies #[trigger] m1.book().contains_key(id2) == m0.book(
        ).remove(id).contains_key(id2) by {
            lemma_remove_u64_get(m0.index@, id, id2);
        }
        assert forall|id2: u64| m1.book().contains_key(id2) implies #[trigger] m1.book()[id2]
            == m0.book().remove(id)[id2] by {
            lemma_remove_u64_get(m0.index@, id, id2);
            assert(id2 != id);
            assert(m1.order_ref(id2) == m0.order_ref(id2));
            let r = m1.order_ref(id2)->0;
            if r.0 == side {
                assert(orders_in(m1.side_levels(side), r.1, id2) == orders_in(
                    m0.side_levels(side),
                    r.1,
                    id2,
                ));
            } else {
                assert(r.0 == Self::opposite(side));
            }
        }
        assert(m1.book() =~= m0.book().remove(id));
    }

    /// A price level exists on a side exactly while some order rests there:
    /// removing one of several orders at a price leaves the level in place,
    /// and removing the last order at a price deletes the level, so a
    /// subsequent sweep no longer sees that price.
    pub proof fn lemma_level_iff_occupied(m: Self, side: MarketSide, price: i64)
        requires
            m.wf(),
        ensures
            spec_get_i64(m.side_levels(side), price) is Some <==> (exists|id: u64|
                m.order_ref(id) == Some((side, price))),
    {
        if spec_get_i64(m.side_levels(side), price) is Some {
            let s = m.side_levels(side);
            lemma_get_i64_index(s, price);
            let i = choose|i: int|
                0 <= i < s.len() && s[i].0 == price && s[i].1 == spec_get_i64(s, price)->0;
            let lvl = s[i].1;
            assert(lvl.wf());
            let oid = lvl.orders@[0].0;
            lemma_sorted_get_at_index_u64(lvl.orders@, 0);
            assert(spec_get_u64(lvl.orders@, oid) is Some);
            assert(m.order_at(side, price, oid) is Some);
            assert(m.order_ref(oid) == Some((side, price)));
        }
        if exists|id: u64| m.order_ref(id) == Some((side, price)) {
            let id = choose|id: u64| m.order_ref(id) == Some((side, price));
            assert(m.order_at(side, price, id) is Some);
        }
    }

    proof fn lemma_side_determined(m1: Self, m2: Self, side: MarketSide)
        requires
            m1.wf(),
            m2.wf(),
            m1.book() == m2.book(),
            forall|id: u64| #[trigger] m1.order_ref(id) == m2.order_ref(id),
        ensures
            m1.side_levels(side).len() == m2.side_levels(side).len(),
            forall|i: int|
                0 <= i < m1.side_levels(side).len() ==> (#[trigger] m1.side_levels(side)[i]).0
                    == m2.side_levels(side)[i].0 && m1.side_levels(side)[i].1.orders@
                    == m2.side_levels(side)[i].1.orders@,
    {
        let s1 = m1.side_levels(side);
        let s2 = m2.side_levels(side);
        assert forall|p: i64, id: u64| #[trigger] m1.order_at(side, p, id) == m2.order_at(
            side,
            p,
            id,
        ) by {
            if m1.order_at(side, p, id) is Some {
                assert(m1.order_ref(id) == Some((side, p)));
                assert(m2.order_ref(id) == Some((side, p)));
                assert(m2.order_at(side, p, id) is Some);
                assert(m1.book().contains_key(id));
                assert(m1.book()[id].2 == m1.order_at(side, p, id)->0);
                assert(m2.book()[id].2 == m2.order_at(side, p, id)->0);
            } else if m2.order_at(side, p, id) is Some {
                assert(m2.order_ref(id) == Some((side, p)));
                assert(m1.order_ref(id) == Some((side, p)));
                assert(m1.order_at(side, p, id) is Some);
                assert(false);
            }
        }
        assert forall|p: i64| spec_get_i64(s1, p) is Some <==> spec_get_i64(s2, p) is Some by {
            Self::lemma_level_iff_occupied(m1, side, p);
            Self::lemma_level_iff_occupied(m2, side, p);
            if exists|id: u64| m1.order_ref(id) == Some((side, p)) {
                let id = choose|id: u64| m1.order_ref(id) == Some((side, p));
                assert(m2.order_ref(id) == Some((side, p)));
            }
            if exists|id: u64| m2.order_ref(id) == Some((side, p)) {
                let id = choose|id: u64| m2.order_ref(id) == Some((side, p));
                assert(m1.order_ref(id) == Some((side, p)));
            }
        }
        lemma_sorted_same_keys_i64(s1, s2);
        assert forall|i: int|
            0 <= i < s1.len() implies (#[trigger] s1[i]).0 == s2[i].0 && s1[i].1.orders@
            == s2[i].1.orders@ by {
            let p = s1[i].0;
            lemma_sorted_get_at_index_i64(s1, i);
            lemma_sorted_get_at_index_i64(s2, i);
            let l1v = s1[i].1;
            let l2v = s2[i].1;
            assert(spec_get_i64(s1, p) == Some(l1v));
            assert(spec_get_i64(s2, p) == Some(l2v));
            assert forall|oid: u64| #[trigger] spec_get_u64(l1v.orders@, oid) == spec_get_u64(
                l2v.orders@,
                oid,
            ) by {
                assert(m1.order_at(side, p, oid) == spec_get_u64(l1v.orders@, oid));
                assert(m2.order_at(side, p, oid) == spec_get_u64(l2v.orders@, oid));
                assert(m1.order_at(side, p, oid) == m2.order_at(side, p, oid));
            }
            assert(l1v.wf());
            assert(l2v.wf());
            lemma_sorted_unique_u64(l1v.orders@, l2v.orders@);
        }
    }

    /// The book, together with consistency, determines the whole model: two
    /// consistent models with equal books have the same index and, position
    /// by position, the same prices and the same resting orders on both
    /// sides — so everything observable of the model, the sweeps included,
    /// agrees as well.
    pub proof fn lemma_book_determines_state(m1: Self, m2: Self)
        requires
            m1.wf(),
            m2.wf(),
            m1.book() == m2.book(),
        ensures
            m1.index@ == m2.index@,
            m1.bids@.len() == m2.bids@.len(),
            m1.offers@.len() == m2.offers@.len(),
            forall|i: int|
                0 <= i < m1.bids@.len() ==> (#[trigger] m1.bids@[i]).0 == m2.bids@[i].0
                    && m1.bids@[i].1.orders@ == m2.bids@[i].1.orders@,
            forall|i: int|
                0 <= i < m1.offers@.len() ==> (#[trigger] m1.offers@[i]).0 == m2.offers@[i].0
                    && m1.offers@[i].1.orders@ == m2.offers@[i].1.orders@,
    {
        assert forall|id: u64| #[trigger] m1.order_ref(id) == m2.order_ref(id) by {
            if m1.order_ref(id) is Some {
                assert(m1.book().contains_key(id));
                assert(m2.book().contains_key(id));
                let v = m1.book()[id];
                assert(m1.order_ref(id) == Some((v.0, v.1)));
                let w = m2.book()[id];
                assert(m2.order_ref(id) == Some((w.0, w.1)));
                assert(v == w);
            } else if m2.order_ref(id) is Some {
                assert(m2.book().contains_key(id));
                assert(m1.book().contains_key(id));
                assert(false);
            }
        }
        assert forall|k: u64| #[trigger] spec_get_u64(m1.index@, k) == spec_get_u64(
            m2.index@,
            k,
        ) by {
            assert(m1.order_ref(k) == m2.order_ref(k));
        }
        lemma_sorted_unique_u64(m1.index@, m2.index@);
        Self::lemma_side_determined(m1, m2, MarketSide::Bid);
        Self::lemma_side_determined(m1, m2, MarketSide::Offer);
        assert(m1.side_levels(MarketSide::Bid) == m1.bids@);
        assert(m2.side_levels(MarketSide::Bid) == m2.bids@);
        assert(m1.side_levels(MarketSide::Offer) == m1.offers@);
        assert(m2.side_levels(MarketSide::Offer) == m2.offers@);
    }

    /// Applies one order event, driven by the order id.
    ///
    /// - `Add` records a new order `id` of `size` resting at `price` on
    ///   `side`. An id already resting anywhere is rejected: an overwrite
    ///   would silently corrupt the level aggregates, so the stricter policy
    ///   is taken and the book is left untouched.
    /// - `Update` rewrites the order's size, moving it to the level at
    ///   `price` (on its stored side — the `side` argument does not reroute
    ///   an existing order) when the price differs, deleting its old level
    ///   if that left the level empty.
    /// - `Remove` deletes the order, its index entry, and its level when the
    ///   order was the last one resting there.
    ///
    /// `Update` and `Remove` on an id that is not resting fail with an
    /// invalid-reference error and leave every map unchanged.
    pub fn update(
        &mut self,
        action: UpdateAction,
        side: MarketSide,
        id: u64,
        price: i64,
        size: u64,
    ) -> (r: Result<(), ()>)
        requires
            old(self).wf(),
        ensures
            final(self).wf(),
            r is Ok <==> (match action {
                UpdateAction::Add => old(self).order_ref(id) is None,
                UpdateAction::Update => old(self).order_ref(id) is Some,
                UpdateAction::Remove => old(self).order_ref(id) is Some,
            }),
            r is Err ==> Self::same_state(*final(self), *old(self)),
            r is Ok && action is Add ==> final(self).book() == old(self).book().insert(
                id,
                (side, price, size),
            ),
            r is Ok && action is Update ==> final(self).book() == old(self).book().insert(
                id,
                ((old(self).order_ref(id)->0).0, price, size),
            ),
            r is Ok && action is Remove ==> final(self).book() == old(self).book().remove(id),
    {
        match action {
            UpdateAction::Add => {
                if find_u64(&self.index, id).is_some() {
                    return Err(());
                }
                match side {
                    MarketSide::Bid => add_order(&mut self.bids, id, price, size),
                    MarketSide::Offer => add_order(&mut self.offers, id, price, size),
                }
                store_u64(&mut self.index, id, (side, price));
                proof {
                    Self::lemma_wf_after_put(
                        *old(self),
                        *self,
                        side,
                        id,
                        price,
                        size,
                        None::<i64>,
                    );
                }
                Ok(())
            },
            UpdateAction::Update => {
                let found = find_u64(&self.index, id);
                match found {
                    None => Err(()),
                    Some(pos) => {
                        let stored = self.index[pos].1;
                        let stored_side = stored.0;
                        let stored_price = stored.1;
                        match stored_side {
                            MarketSide::Bid => {
                                remove_order(&mut self.bids, id, stored_price);
                                let ghost mid = self.bids@;
                                add_order(&mut self.bids, id, price, size);
                                proof {
                                    assert forall|p: i64, oid: u64|
                                        orders_in(self.bids@, p, oid) == (if p == price && oid == id {
                                            Some(size)
                                        } else if p == stored_price && oid == id {
                                            None::<u64>
                                        } else {
                                            orders_in(old(self).bids@, p, oid)
                                        }) by {
                                        assert(orders_in(mid, p, oid) == (if p == stored_price
                                            && oid == id {
                                            None::<u64>
                                        } else {
                                            orders_in(old(self).bids@, p, oid)
                                        }));
                                    }
                                }
                            },
                            MarketSide::Offer => {
                                remove_order(&mut self.offers, id, stored_price);
                                let ghost mid = self.offers@;
                                add_order(&mut self.offers, id, price, size);
                                proof {
                                    assert forall|p: i64, oid: u64|
                                        orders_in(self.offers@, p, oid) == (if p == price && oid
                                            == id {
                                            Some(size)
                                        } else if p == stored_price && oid == id {
                                            None::<u64>
                                        } else {
                                            orders_in(old(self).offers@, p, oid)
                                        }) by {
                                        assert(orders_in(mid, p, oid) == (if p == stored_price
                                            && oid == id {
                                            None::<u64>
                                        } else {
                                            orders_in(old(self).offers@, p, oid)
                                        }));
                                    }
                                }
                            },
                        }
                        store_u64(&mut self.index, id, (stored_side, price));
                        proof {
                            Self::lemma_wf_after_put(
                                *old(self),
                                *self,
                                stored_side,
                                id,
                                price,
                                size,
                                Some(stored_price),
                            );
                        }
                        Ok(())
                    },
                }
            },
            UpdateAction::Remove => {
                let found = find_u64(&self.index, id);
                match found {
                    None => Err(()),
                    Some(pos) => {
                        let stored = self.index[pos].1;
                        let stored_side = stored.0;
                        let stored_price = stored.1;
                        remove_u64(&mut self.index, id);
                        match stored_side {
                            MarketSide::Bid => remove_order(&mut self.bids, id, stored_price),
                            MarketSide::Offer => remove_order(&mut self.offers, id, stored_price),
                        }
                        proof {
                            Self::lemma_wf_after_take(
                                *old(self),
                                *self,
                                stored_side,
                                id,
                                stored_price,
                            );
                        }
                        Ok(())
                    },
                }
            },
        }
    }
}

impl Default for L3MarketData {
    /// The default order-level model has no orders.
    fn default() -> (r: Self)
        ensures
            r.wf(),
            r.book() == Map::<u64, (MarketSide, i64, u64)>::empty(),
    {
        Self::new()
    }
}

} // verus!
