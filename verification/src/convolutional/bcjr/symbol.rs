//! The soft input of the BCJR decoder for one trellis stage.
use vstd::prelude::*;
use crate::Llr;

verus! {

/// The three soft values of one trellis stage.
#[derive(Clone, Copy, Debug)]
pub struct BcjrSymbol {
    /// The received systematic value.
    pub systematic: Llr,
    /// The received parity value.
    pub parity: Llr,
    /// What is known of the bit beforehand.
    pub apriori: Llr,
}

impl BcjrSymbol {
    /// Create a symbol of which nothing is known beforehand.
    pub fn new(systematic: Llr, parity: Llr) -> (symbol: Self)
        ensures
            symbol == (BcjrSymbol { systematic, parity, apriori: 0 }),
    {
        Self { systematic, parity, apriori: 0 }
    }
}

} // verus!
