//! The definition of a turbo code.
use vstd::prelude::*;
use crate::convolutional::code::code_is_systematic;
use crate::convolutional::{ConvolutionalCode, ConvolutionalCodeExt};

verus! {

/// The code can be a constituent of a turbo code: it has the rate 1/2 and is systematic.
pub open spec fn is_constituent_code<C: ConvolutionalCode>() -> bool {
    &&& C::spec_generators().len() == 2
    &&& code_is_systematic::<C>()
}

/// A turbo code: the code of its two constituent encoders, and which of
/// them are driven back to the zero state at the end of a block.
pub trait TurboCode: Default {
    /// The code of the two constituent encoders.
    type ConstituentEncoderCode: ConvolutionalCode;

    /// Whether the first encoder is terminated.
    const TERMINATE_FIRST: bool;

    /// Whether the second encoder is terminated.
    const TERMINATE_SECOND: bool;

    /// The constituent code has the rate 1/2 and is systematic.
    proof fn lemma_constituent()
        ensures
            is_constituent_code::<Self::ConstituentEncoderCode>(),
    ;
}

/// Assert that the constituent code has the rate 1/2 and is systematic.
pub(super) fn assert_consituent_encoder<C: TurboCode>()
    ensures
        is_constituent_code::<C::ConstituentEncoderCode>(),
{
    proof {
        C::lemma_constituent();
    }
    let rate = C::ConstituentEncoderCode::rate();
    assert(rate.k == 1);
    assert(rate.n == 2);
    let systematic = C::ConstituentEncoderCode::is_systematic();
    assert(systematic);
}

} // verus!
