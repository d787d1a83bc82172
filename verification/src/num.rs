//! Amounts of an asset.

use vstd::prelude::*;

verus! {

/// A quantity of some asset, in its smallest unit.
#[derive(Clone, Copy, Debug, PartialEq, Eq, Structural)]
pub struct Amount {
    pub inner: u128,
}

impl Amount {
    /// The amount of nothing.
    pub fn zero() -> (r: Amount)
        ensures
            r.inner == 0,
    {
        Amount { inner: 0 }
    }

    /// Whether this is the amount of nothing.
    pub fn is_zero(&self) -> (r: bool)
        ensures
            r == (self.inner == 0),
    {
        self.inner == 0
    }
}

} // verus!
