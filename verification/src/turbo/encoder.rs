//! The turbo encoder.
use vstd::prelude::*;
use core::marker::PhantomData;
use crate::bitview::BitView;
use crate::convolutional::code::{
    code_memory,
    code_next_state,
    code_output,
    code_termination_input,
    lemma_output_word_bound,
};
use crate::convolutional::{ConvolutionalCode, ConvolutionalCodeExt, ConvolutionalEncoder, EncoderOutput};
use crate::interleaver::{permutation, Interleaver, InterleaverMapping};
use super::code::{assert_consituent_encoder, is_constituent_code, TurboCode};

verus! {

/// One word that the encoder hands to its writer.
#[derive(Clone, Copy, Debug, PartialEq, Eq, Structural)]
pub enum TurboOutput {
    /// A code word of three bits: bit 0 is the systematic bit, bit 1 the
    /// parity bit of the first encoder and bit 2 that of the second.
    Data(EncoderOutput),
    /// A termination word of the encoder with the given index: bit 0 is the
    /// termination input and bit 1 the parity bit.
    Termination(usize, EncoderOutput),
}

/// Where the turbo encoder writes its output: the writer may puncture,
/// pack or modulate the words as it sees fit.
pub trait TurboEncoderOutputWriter {
    /// The words that were written so far, in their order.
    spec fn written(&self) -> Seq<TurboOutput>;

    /// Write output bits.
    ///
    /// Bit 0 corresponds to the systematic bit,
    /// bit 1 to the output of the first constituent encoder, and
    /// bit 2 to the output of the second constituent encoder.
    ///
    /// # Arguments
    ///
    /// * `output` - The encoder output.
    fn write_output(&mut self, output: EncoderOutput)
        ensures
            final(self).written() == old(self).written().push(TurboOutput::Data(output)),
    ;

    /// Write termination bits.
    ///
    /// Bit 0 corresponds to the termination input and
    /// bit 1 to the corresponding parity output.
    ///
    /// # Arguments
    ///
    /// * `encoder_index` - The index of the constituent encoder for which the termination is generated.
    /// * `output` - The termination output.
    fn write_termination_output(&mut self, encoder_index: usize, output: EncoderOutput)
        ensures
            final(self).written() == old(self).written().push(
                TurboOutput::Termination(encoder_index, output),
            ),
    ;
}

/// A writer that keeps the words as they come.
pub struct TurboOutputBuffer {
    /// The words that were written, in their order.
    pub words: Vec<TurboOutput>,
}

impl TurboOutputBuffer {
    /// Create a writer that holds no words yet.
    pub fn new() -> (buffer: Self)
        ensures
            buffer.words@ == Seq::<TurboOutput>::empty(),
    {
        Self { words: Vec::new() }
    }
}

impl TurboEncoderOutputWriter for TurboOutputBuffer {
    open spec fn written(&self) -> Seq<TurboOutput> {
        self.words@
    }

    fn write_output(&mut self, output: EncoderOutput) {
        self.words.push(TurboOutput::Data(output));
    }

    fn write_termination_output(&mut self, encoder_index: usize, output: EncoderOutput) {
        self.words.push(TurboOutput::Termination(encoder_index, output));
    }
}

/// The state of an encoder of the code `C` that started in the zero state and took the bits `inputs`.
pub open spec fn state_after<C: ConvolutionalCode>(inputs: Seq<bool>) -> nat
    decreases inputs.len(),
{
    if inputs.len() == 0 {
        0
    } else {
        code_next_state::<C>(state_after::<C>(inputs.drop_last()), inputs.last())
    }
}

/// The code word of three bits: the output word of the first encoder, and
/// above it the parity bit of the second encoder.
pub open spec fn code_word(first_output: nat, second_output: nat) -> nat {
    first_output + 4 * ((second_output / 2) % 2)
}

/// The code words of a block: the first encoder takes the bits in their
/// order, the second in the order of the interleaver.
pub open spec fn data_words<C: ConvolutionalCode>(source: Seq<bool>, permutation: Seq<int>) -> Seq<TurboOutput> {
    let second_source = Seq::new(source.len(), |i: int| source[permutation[i]]);
    Seq::new(
        source.len(),
        |i: int|
            TurboOutput::Data(
                code_word(
                    code_output::<C>(state_after::<C>(source.take(i)), source[i]),
                    code_output::<C>(state_after::<C>(second_source.take(i)), second_source[i]),
                ) as usize,
            ),
    )
}

/// The state of an encoder of the code `C` after `count` termination steps from `state`.
pub open spec fn terminating_state<C: ConvolutionalCode>(state: nat, count: nat) -> nat
    decreases count,
{
    if count == 0 {
        state
    } else {
        let before = terminating_state::<C>(state, (count - 1) as nat);
        code_next_state::<C>(before, code_termination_input::<C>(before))
    }
}

/// The termination word of an encoder of the code `C` in `state`.
pub open spec fn termination_word<C: ConvolutionalCode>(state: nat) -> nat {
    code_output::<C>(state, code_termination_input::<C>(state))
}

/// The first `count` rounds of the termination: in each round the first
/// encoder writes its termination word, if it is terminated, and then the
/// second encoder, if it is terminated.
pub open spec fn termination_words<C: TurboCode>(first_state: nat, second_state: nat, count: nat) -> Seq<TurboOutput>
    decreases count,
{
    if count == 0 {
        Seq::empty()
    } else {
        let round = (count - 1) as nat;
        let before = termination_words::<C>(first_state, second_state, round);
        let first = if C::TERMINATE_FIRST {
            before.push(
                TurboOutput::Termination(
                    0,
                    termination_word::<C::ConstituentEncoderCode>(
                        terminating_state::<C::ConstituentEncoderCode>(first_state, round),
                    ) as usize,
                ),
            )
        } else {
            before
        };
        if C::TERMINATE_SECOND {
            first.push(
                TurboOutput::Termination(
                    1,
                    termination_word::<C::ConstituentEncoderCode>(
                        terminating_state::<C::ConstituentEncoderCode>(second_state, round),
                    ) as usize,
                ),
            )
        } else {
            first
        }
    }
}

/// All that the encoder writes for a block: the code words, and then `m`
/// rounds of termination words.
pub open spec fn encoded<C: TurboCode>(source: Seq<bool>, permutation: Seq<int>) -> Seq<TurboOutput> {
    let second_source = Seq::new(source.len(), |i: int| source[permutation[i]]);
    data_words::<C::ConstituentEncoderCode>(source, permutation) + termination_words::<C>(
        state_after::<C::ConstituentEncoderCode>(source),
        state_after::<C::ConstituentEncoderCode>(second_source),
        code_memory::<C::ConstituentEncoderCode>(),
    )
}

/// The code word as the encoder puts it together from the two output words.
proof fn lemma_code_word(first_output: usize, second_output: usize)
    by (bit_vector)
    requires
        first_output < 4,
    ensures
        first_output | (second_output & 0x02) << 1 == first_output + 4 * ((second_output / 2) % 2),
{
}

/// The encoder of the turbo code `C`.
pub struct TurboEncoder<C: TurboCode> {
    _code: PhantomData<C>,
}

impl<C: TurboCode> TurboEncoder<C> {
    /// Create an encoder.
    ///
    /// The constituent code is checked on the way: an encoder exists only
    /// for a turbo code whose constituent has the rate 1/2 and is systematic.
    pub fn new() -> (encoder: Self)
        ensures
            is_constituent_code::<C::ConstituentEncoderCode>(),
    {
        assert_consituent_encoder::<C>();
        Self { _code: PhantomData }
    }

    /// Encode the bits of `source` and write the code words and the
    /// termination words to `writer`.
    pub fn encode<S, I, W>(&self, source: S, interleaver: &I, writer: &mut W) where
        S: BitView,
        I: Interleaver,
        W: TurboEncoderOutputWriter,

        requires
            source.bits().len() == interleaver.spec_len(),
        ensures
            final(writer).written() == old(writer).written() + encoded::<C>(
                source.bits(),
                permutation(interleaver),
            ),
    {
        proof {
            C::lemma_constituent();
        }
        let ghost bits = source.bits();
        let ghost perm = permutation(interleaver);
        let ghost second_bits = Seq::new(bits.len(), |i: int| bits[perm[i]]);

        let mut first_encoder = ConvolutionalEncoder::<C::ConstituentEncoderCode>::default();
        let mut second_encoder = ConvolutionalEncoder::<C::ConstituentEncoderCode>::default();

        let mappings = interleaver.iter();
        let count = mappings.len();
        let mut index: usize = 0;
        while index < count
            invariant
                index <= count,
                count == bits.len(),
                bits == source.bits(),
                perm == permutation(interleaver),
                second_bits == Seq::new(bits.len(), |i: int| bits[perm[i]]),
                mappings@.len() == count,
                interleaver.spec_len() == count,
                C::ConstituentEncoderCode::spec_generators().len() == 2,
                forall|i: int|
                    0 <= i < count ==> (#[trigger] mappings@[i]).0 == i && mappings@[i].1
                        == interleaver.permuted(i) && interleaver.permuted(i) < count,
                first_encoder.current_state() == state_after::<C::ConstituentEncoderCode>(
                    bits.take(index as int),
                ),
                second_encoder.current_state() == state_after::<C::ConstituentEncoderCode>(
                    second_bits.take(index as int),
                ),
                writer.written() == old(writer).written() + data_words::<C::ConstituentEncoderCode>(
                    bits,
                    perm,
                ).take(index as int),
            decreases count - index,
        {
            let InterleaverMapping(i, ii) = mappings[index];
            let input = source.get(i);
            let first_output = first_encoder.get_output(input);
            let second_output = second_encoder.get_output(source.get(ii));

            proof {
                lemma_output_word_bound(
                    C::ConstituentEncoderCode::spec_generators(),
                    C::ConstituentEncoderCode::FEEDBACK as nat,
                    state_after::<C::ConstituentEncoderCode>(bits.take(index as int)),
                    input,
                );
                vstd::arithmetic::power2::lemma2_to64();
                lemma_code_word(first_output, second_output);
                assert(bits.take(index + 1).drop_last() == bits.take(index as int));
                assert(second_bits.take(index + 1).drop_last() == second_bits.take(index as int));
            }

            // Write the parity and systematic output from the first encoder and the parity from the second encoder.
            writer.write_output(first_output | (second_output & 0x02) << 1);
            index += 1;
        }

        let memory = C::ConstituentEncoderCode::mem();
        let ghost first_state = first_encoder.current_state();
        let ghost second_state = second_encoder.current_state();
        let ghost words = old(writer).written() + data_words::<C::ConstituentEncoderCode>(bits, perm);
        proof {
            assert(bits.take(count as int) == bits);
            assert(second_bits.take(count as int) == second_bits);
        }

        if C::TERMINATE_FIRST || C::TERMINATE_SECOND {
            let mut round: usize = 0;
            while round < memory
                invariant
                    round <= memory,
                    memory == code_memory::<C::ConstituentEncoderCode>(),
                    C::ConstituentEncoderCode::spec_generators().len() == 2,
                    C::TERMINATE_FIRST ==> first_encoder.current_state() == terminating_state::<
                        C::ConstituentEncoderCode,
                    >(first_state, round as nat),
                    C::TERMINATE_SECOND ==> second_encoder.current_state() == terminating_state::<
                        C::ConstituentEncoderCode,
                    >(second_state, round as nat),
                    writer.written() == words + termination_words::<C>(
                        first_state,
                        second_state,
                        round as nat,
                    ),
                decreases memory - round,
            {
                if C::TERMINATE_FIRST {
                    let first_output = first_encoder.get_termination_output();
                    writer.write_termination_output(0, first_output);
                }
                if C::TERMINATE_SECOND {
                    let second_output = second_encoder.get_termination_output();
                    writer.write_termination_output(1, second_output);
                }
                round += 1;
            }
        } else {
            proof {
                lemma_no_termination_words::<C>(first_state, second_state, memory as nat);
            }
        }
    }
}

/// A code of which neither encoder is terminated writes no termination words.
proof fn lemma_no_termination_words<C: TurboCode>(first_state: nat, second_state: nat, count: nat)
    requires
        !C::TERMINATE_FIRST,
        !C::TERMINATE_SECOND,
    ensures
        termination_words::<C>(first_state, second_state, count) == Seq::<TurboOutput>::empty(),
    decreases count,
{
    if count > 0 {
        lemma_no_termination_words::<C>(first_state, second_state, (count - 1) as nat);
    }
}

impl<C: TurboCode> Default for TurboEncoder<C> {
    /// Create an encoder, as `new` does.
    fn default() -> (encoder: Self)
        ensures
            is_constituent_code::<C::ConstituentEncoderCode>(),
    {
        TurboEncoder::new()
    }
}

} // verus!
