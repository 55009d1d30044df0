//! A single published level of liquidity: a size and the price quoted for
//! it, as used by tiered wrapper models around the depth models.

use vstd::prelude::*;

verus! {

/// An immutable (size, price) pair.
pub struct Level<A, P> {
    /// The size the price is quoted for.
    pub size: A,
    /// The quoted price.
    pub price: P,
}

impl<A, P> Level<A, P> {
    /// Creates a level quoting `price` for `size`.
    pub fn new(size: A, price: P) -> (r: Self)
        ensures
            r.size == size,
            r.price == price,
    {
        Self { size, price }
    }

    /// Returns the size the price is quoted for.
    pub fn get_size(&self) -> (r: &A)
        ensures
            *r == self.size,
    {
        &self.size
    }

    /// Returns the quoted price.
    pub fn get_price(&self) -> (r: &P)
        ensures
            *r == self.price,
    {
        &self.price
    }
}

} // verus!
