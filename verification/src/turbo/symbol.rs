//! The soft input of the turbo decoder for one bit of a block.
use vstd::prelude::*;
use crate::Llr;

verus! {

/// The three received soft values that belong to one bit of a block.
pub struct TurboSymbol {
    /// The received systematic value.
    pub systematic: Llr,
    /// The received parity value of the first constituent encoder.
    pub first_parity: Llr,
    /// The received parity value of the second constituent encoder.
    pub second_parity: Llr,
}

impl TurboSymbol {
    /// Create a symbol from its three soft values.
    pub fn new(systematic: Llr, first_parity: Llr, second_parity: Llr) -> (symbol: Self)
        ensures
            symbol == (TurboSymbol { systematic, first_parity, second_parity }),
    {
        Self { systematic, first_parity, second_parity }
    }
}

} // verus!
