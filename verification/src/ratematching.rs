//! Rate matching: leaving out coded bits to raise the rate of a code.
pub mod puncturer;

pub use puncturer::Puncturer;
