//! Order-book sides.

use vstd::prelude::*;

verus! {

/// A side of the book: `Bid` is a buy, `Ask` a sell.
#[derive(Clone, Copy, Debug, PartialEq, Eq, Structural)]
pub enum Side {
    /// Buy side.
    Bid,
    /// Sell side.
    Ask,
}

impl Side {
    /// The opposite side.
    pub fn opposite(self) -> (r: Side)
        ensures
            r != self,
    {
        match self {
            Side::Bid => Side::Ask,
            Side::Ask => Side::Bid,
        }
    }
}

} // verus!
