//! Binary convolutional codes: the code, its encoder and its soft decoder.
use vstd::prelude::*;

pub mod bcjr;
pub mod code;
pub mod encoder;

pub use code::{ConvolutionalCode, ConvolutionalCodeExt};
pub use encoder::ConvolutionalEncoder;

verus! {

/// Concatenated output bits for each generator polynomial.
/// The output for the first polynomial maps to the least significant bit 0,
/// the next polynomial to bit 1, etc.
pub type EncoderOutput = usize;

} // verus!
