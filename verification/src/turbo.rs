//! Turbo codes: two constituent convolutional codes joined by an interleaver.
pub mod code;
pub mod decoder;
pub mod encoder;
pub mod symbol;
pub mod umts;

pub use code::TurboCode;
pub use decoder::{trellis_bits, TurboDecoder};
pub use encoder::{TurboEncoder, TurboEncoderOutputWriter, TurboOutput, TurboOutputBuffer};
pub use symbol::TurboSymbol;
