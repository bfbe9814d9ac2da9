//! Forward error correction with binary convolutional and turbo codes.
//!
//! The crate holds the code definitions, the encoders, the soft-input
//! soft-output (BCJR) decoder with its 8-state packed state vector, the
//! quadratic permutation interleaver with the UMTS table, the iterative turbo
//! decoder and the rate-matching puncturer. All soft values are 8-bit
//! log-likelihood ratios; a positive value favours bit 1.
use vstd::prelude::*;

pub mod bits;
pub mod bitview;
pub mod buffer;
pub mod catalog;
pub mod convolutional;
pub mod interleaver;
pub mod ratematching;
pub mod turbo;

pub use bitview::BitView;

verus! {

/// A log-likelihood ratio. Positive values favour bit 1, negative values bit 0.
pub type Llr = i8;

/// Clamps a value to the range of an [`Llr`].
pub open spec fn saturate(x: int) -> int {
    if x < -128 {
        -128
    } else if x > 127 {
        127
    } else {
        x
    }
}

/// Multiplication of a soft value by a hard bit, read as the sign +1 (`true`) or -1 (`false`).
pub trait LlrMul {
    /// The product as a mathematical value.
    spec fn mul_spec(self, rhs: Llr) -> Llr;

    /// The soft value `rhs` with the sign of `self` applied, saturated to 8 bits.
    fn mul(self, rhs: Llr) -> (product: Llr)
        ensures
            product == self.mul_spec(rhs),
    ;
}

impl LlrMul for bool {
    open spec fn mul_spec(self, rhs: Llr) -> Llr {
        if self {
            rhs
        } else {
            saturate(-(rhs as int)) as Llr
        }
    }

    fn mul(self, rhs: Llr) -> (product: Llr) {
        if self {
            rhs
        } else if rhs == i8::MIN {
            i8::MAX
        } else {
            -rhs
        }
    }
}

/// The code rate `k/n`: for every `k` input bits the coder produces `n` bits.
pub struct CodeRate {
    /// The code rate numerator.
    pub k: u8,
    /// The code rate denominator.
    pub n: u8,
}

} // verus!
