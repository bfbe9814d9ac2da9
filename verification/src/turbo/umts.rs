//! The turbo decoder with the packed state vector of the UMTS code.
pub use super::decoder::UmtsTurboDecoder;
