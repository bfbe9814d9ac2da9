//! The encoder of a convolutional code.
use vstd::prelude::*;
use core::marker::PhantomData;
use super::code::{
    code_next_state,
    code_output,
    code_termination_input,
    is_code_state,
    CodeState,
    ConvolutionalCode,
    ConvolutionalCodeExt,
};
use super::EncoderOutput;

verus! {

/// The encoder of the code `C`: its shift register, which starts at zero.
pub struct ConvolutionalEncoder<C: ConvolutionalCode> {
    _code: PhantomData<C>,
    state: CodeState,
}

impl<C: ConvolutionalCode> ConvolutionalEncoder<C> {
    #[verifier::type_invariant]
    spec fn well_formed(&self) -> bool {
        is_code_state::<C>(self.state as nat)
    }

    /// The contents of the shift register.
    pub closed spec fn current_state(&self) -> nat {
        self.state as nat
    }

    /// Create an encoder in the zero state.
    pub fn new() -> (encoder: Self)
        ensures
            encoder.current_state() == 0,
    {
        proof {
            vstd::arithmetic::power2::lemma_pow2_pos(super::code::code_memory::<C>());
        }
        Self { _code: PhantomData, state: 0 }
    }

    /// Get the next encoder output given `input`.
    ///
    /// The output word and the state afterwards depend on nothing but the
    /// code, the state before and the input.
    pub fn get_output(&mut self, input: bool) -> (output: EncoderOutput)
        ensures
            output == code_output::<C>(old(self).current_state(), input),
            final(self).current_state() == code_next_state::<C>(old(self).current_state(), input),
            is_code_state::<C>(old(self).current_state()),
            is_code_state::<C>(final(self).current_state()),
    {
        proof {
            use_type_invariant(&*self);
        }
        let output = C::get_output(self.state, input);
        self.state = C::get_next_state(self.state, input);
        output
    }

    /// Get the next encoder termination output: the input is chosen so that
    /// a zero enters the shift register.
    pub fn get_termination_output(&mut self) -> (output: EncoderOutput)
        ensures
            output == code_output::<C>(
                old(self).current_state(),
                code_termination_input::<C>(old(self).current_state()),
            ),
            final(self).current_state() == code_next_state::<C>(
                old(self).current_state(),
                code_termination_input::<C>(old(self).current_state()),
            ),
            is_code_state::<C>(old(self).current_state()),
            is_code_state::<C>(final(self).current_state()),
    {
        proof {
            use_type_invariant(&*self);
        }
        let input = C::get_termination_input(self.state);
        let output = C::get_output(self.state, input);
        self.state = C::get_next_state(self.state, input);
        output
    }
}

impl<C: ConvolutionalCode> Default for ConvolutionalEncoder<C> {
    /// An encoder in the zero state.
    fn default() -> (encoder: Self)
        ensures
            encoder.current_state() == 0,
    {
        Self::new()
    }
}

} // verus!
