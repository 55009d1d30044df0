//! The volume-weighted average price of a greedy sweep across price levels.
//!
//! A sweep walks a side's levels best-price-first, consuming from each level
//! the smaller of its available size and the size still to fill, and stops
//! the instant the requested size is filled. The price is the consumed
//! price-by-size total divided by the requested size; when the side's whole
//! depth cannot fill the request there is no price.

use vstd::arithmetic::div_mod::lemma_div_is_ordered;
use vstd::arithmetic::div_mod::lemma_div_multiples_vanish;
use vstd::prelude::*;

verus! {

/// Integer division rounding towards zero, the semantics of `/` in
/// executable code, for a positive divisor.
pub open spec fn div_towards_zero(a: int, b: int) -> int
    recommends
        b > 0,
{
    if a >= 0 {
        a / b
    } else {
        -((-a) / b)
    }
}

/// Greedy consumption of `size` across `levels`, taken in the given order:
/// returns the size actually filled and the price-by-size total consumed.
/// Each level is a pair of its price and its available size.
pub open spec fn sweep(levels: Seq<(i64, int)>, size: int) -> (int, int)
    decreases levels.len(),
{
    if levels.len() == 0 || size <= 0 {
        (0, 0)
    } else {
        let price = levels[0].0;
        let avail = levels[0].1;
        let inc = if avail > size {
            size
        } else {
            avail
        };
        let rest = sweep(levels.skip(1), size - inc);
        (inc + rest.0, price * inc + rest.1)
    }
}

/// The volume-weighted average price for `size` across `levels`, best price
/// first: the consumed total divided by the size, truncated towards zero, or
/// `None` when the levels cannot fill the size.
pub open spec fn vwap(levels: Seq<(i64, int)>, size: int) -> Option<int> {
    let swept = sweep(levels, size);
    if size > 0 && swept.0 == size {
        Some(div_towards_zero(swept.1, size))
    } else {
        None
    }
}

/// One side's levels as price and available size, walked front-to-back for
/// offers and back-to-front (`descending`) for bids, so that the best price
/// comes first.
pub open spec fn side_view(s: Seq<(i64, u64)>, descending: bool) -> Seq<(i64, int)> {
    let fwd = s.map_values(|e: (i64, u64)| (e.0, e.1 as int));
    if descending {
        fwd.reverse()
    } else {
        fwd
    }
}

/// Walks the levels of `v` (sorted by price ascending), best price first —
/// back-to-front when `descending` — and returns the volume-weighted average
/// price for `size`, or `None` when the side cannot fill it.
pub(crate) fn vwap_query(v: &Vec<(i64, u64)>, size: u64, descending: bool) -> (r: Option<i64>)
    requires
        size >= 1,
    ensures
        r is Some <==> vwap(side_view(v@, descending), size as int) is Some,
        r is Some ==> r->0 as int == vwap(side_view(v@, descending), size as int)->0,
{
    let ghost lv = side_view(v@, descending);
    proof {
        assert(lv.len() == v@.len());
        assert forall|k: int| 0 <= k < lv.len() implies lv[k] == {
            let e = if descending {
                v@[v@.len() - 1 - k]
            } else {
                v@[k]
            };
            (e.0, e.1 as int)
        } by {
            if descending {
                assert(lv[k] == v@.map_values(|e: (i64, u64)| (e.0, e.1 as int))[v@.len() - 1 - k]);
            }
        }
    }
    proof {
        assert(lv.skip(0) =~= lv);
    }
    let n = v.len();
    let mut i: usize = 0;
    let mut filled: u64 = 0;
    let mut total: i128 = 0;
    while i < n
        invariant
            n == v@.len(),
            lv == side_view(v@, descending),
            lv.len() == n,
            forall|k: int|
                0 <= k < lv.len() ==> lv[k] == {
                    let e = if descending {
                        v@[v@.len() - 1 - k]
                    } else {
                        v@[k]
                    };
                    (e.0, e.1 as int)
                },
            0 <= i <= n,
            size >= 1,
            0 <= filled < size,
            sweep(lv, size as int).0 == filled + sweep(lv.skip(i as int), size - filled).0,
            sweep(lv, size as int).1 == total + sweep(lv.skip(i as int), size - filled).1,
            -0x8000_0000_0000_0000 * (filled as int) <= total as int <= 0x7fff_ffff_ffff_ffff * (
            filled as int),
        decreases n - i,
    {
        let idx = if descending {
            n - 1 - i
        } else {
            i
        };
        let price = v[idx].0;
        let avail = v[idx].1;
        let remaining = size - filled;
        let inc: u64 = if avail > remaining {
            remaining
        } else {
            avail
        };
        proof {
            let s = lv.skip(i as int);
            assert(s[0] == lv[i as int]);
            assert(s[0] == (price, avail as int));
            assert(s.skip(1) =~= lv.skip(i as int + 1));
            assert(sweep(s, remaining as int).0 == inc + sweep(
                lv.skip(i as int + 1),
                remaining - inc,
            ).0);
            assert(sweep(s, remaining as int).1 == price * inc + sweep(
                lv.skip(i as int + 1),
                remaining - inc,
            ).1);
            assert((price as int) * (inc as int) <= 0x7fff_ffff_ffff_ffff * (inc as int) && -(
            0x8000_0000_0000_0000) * (inc as int) <= (price as int) * (inc as int)) by (nonlinear_arith)
                requires
                    -0x8000_0000_0000_0000 <= price as int <= 0x7fff_ffff_ffff_ffff,
                    inc as int >= 0;
            assert(0x7fff_ffff_ffff_ffff * (filled as int) + 0x7fff_ffff_ffff_ffff * (inc as int)
                == 0x7fff_ffff_ffff_ffff * (filled as int + inc as int)) by (nonlinear_arith);
            assert(-0x8000_0000_0000_0000 * (filled as int) + -0x8000_0000_0000_0000 * (
            inc as int) == -0x8000_0000_0000_0000 * (filled as int + inc as int)) by (nonlinear_arith);
            let fi: int = filled as int + inc as int;
            assert((fi >= 0 && fi < 0x1_0000_0000_0000_0000) ==> (0x7fff_ffff_ffff_ffff * fi
                < 0x8000_0000_0000_0000_0000_0000_0000_0000 && -0x8000_0000_0000_0000 * fi
                >= -0x8000_0000_0000_0000_0000_0000_0000_0000)) by (nonlinear_arith);
        }
        total = total + (price as i128) * (inc as i128);
        filled = filled + inc;
        if filled >= size {
            proof {
                assert(filled == size);
                assert(sweep(lv.skip(i as int + 1), 0).0 == 0);
                assert(sweep(lv, size as int).0 == size);
                assert(sweep(lv, size as int).1 == total as int);
            }
            let q = div_i128_towards_zero(total, size);
            return Some(q);
        }
        i = i + 1;
    }
    proof {
        assert(lv.skip(n as int) =~= Seq::<(i64, int)>::empty());
        assert(sweep(lv, size as int).0 == filled);
    }
    None
}

/// Divides the consumed total by the filled size, rounding towards zero. The
/// total is bounded by the filled size times the extreme prices, so the
/// quotient always fits a price.
fn div_i128_towards_zero(total: i128, size: u64) -> (q: i64)
    requires
        size >= 1,
        -0x8000_0000_0000_0000 * (size as int) <= total as int <= 0x7fff_ffff_ffff_ffff * (
        size as int),
    ensures
        q as int == div_towards_zero(total as int, size as int),
{
    proof {
        let t = total as int;
        let f = size as int;
        if t >= 0 {
            lemma_div_is_ordered(t, 0x7fff_ffff_ffff_ffff * f, f);
            lemma_div_multiples_vanish(0x7fff_ffff_ffff_ffff, f);
            assert(t / f <= 0x7fff_ffff_ffff_ffff);
            assert(t / f >= 0) by (nonlinear_arith)
                requires
                    t >= 0,
                    f > 0;
        } else {
            lemma_div_is_ordered(-t, 0x8000_0000_0000_0000 * f, f);
            lemma_div_multiples_vanish(0x8000_0000_0000_0000, f);
            assert((-t) / f <= 0x8000_0000_0000_0000);
            assert((-t) / f >= 0) by (nonlinear_arith)
                requires
                    -t >= 0,
                    f > 0;
        }
    }
    let q = total.checked_div(size as i128).unwrap();
    q as i64
}

} // verus!
