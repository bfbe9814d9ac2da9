//! The BCJR (max-log-MAP) soft-input soft-output decoder.
pub mod decoder;
pub mod packing;
pub mod symbol;
pub mod umts;
pub mod umts_sign;

pub use decoder::{BcjrDecoder, BcjrState};
pub use symbol::BcjrSymbol;
