//! The iterative turbo decoder.
use vstd::prelude::*;
use core::marker::PhantomData;
use crate::buffer::{
    llr_items,
    llr_new,
    llr_resize_default,
    llr_slice,
    llr_slice_mut,
    symbol_items,
    symbols_extend_from_slice,
    symbols_new,
    symbols_push,
    symbols_slice,
    symbols_slice_mut,
    LlrBuffer,
    SymbolBuffer,
    MAX_TRELLIS_BITS,
};
use crate::convolutional::bcjr::decoder::{decoded, min_symbols};
use crate::convolutional::bcjr::packing::clamp_to_llr;
use crate::convolutional::bcjr::umts::UmtsState;
use crate::convolutional::bcjr::{BcjrDecoder, BcjrState, BcjrSymbol};
use crate::convolutional::code::code_memory;
use crate::convolutional::{ConvolutionalCode, ConvolutionalCodeExt};
use crate::interleaver::{deinterleaved, permutation, Interleaver, InterleaverMapping};
use crate::{saturate, Llr};
use super::code::{assert_consituent_encoder, is_constituent_code, TurboCode};
use super::symbol::TurboSymbol;

verus! {

/// The symbol with another a-priori value.
pub open spec fn with_apriori(symbol: BcjrSymbol, apriori: Llr) -> BcjrSymbol {
    BcjrSymbol { systematic: symbol.systematic, parity: symbol.parity, apriori }
}

/// The extrinsic value of a stage: what a decoder has learnt of the bit
/// beyond what it was told of it, saturated.
pub open spec fn extrinsic(aposteriori: int, symbol: BcjrSymbol) -> Llr {
    saturate(aposteriori - symbol.apriori - symbol.systematic) as Llr
}

/// The input of the first constituent decoder: the systematic and the first
/// parity value of each bit, and then the termination symbols.
pub open spec fn first_decoder_input(input: Seq<TurboSymbol>, termination: Seq<BcjrSymbol>) -> Seq<BcjrSymbol> {
    Seq::new(
        input.len(),
        |i: int|
            BcjrSymbol { systematic: input[i].systematic, parity: input[i].first_parity, apriori: 0 },
    ) + termination
}

/// The input of the second constituent decoder: the systematic values in
/// the order of the interleaver, the second parity values in their own
/// order, and then the termination symbols.
pub open spec fn second_decoder_input(
    input: Seq<TurboSymbol>,
    permutation: Seq<int>,
    termination: Seq<BcjrSymbol>,
) -> Seq<BcjrSymbol> {
    Seq::new(
        input.len(),
        |i: int|
            BcjrSymbol {
                systematic: input[permutation[i]].systematic,
                parity: input[i].second_parity,
                apriori: 0,
            },
    ) + termination
}

/// The input of the second decoder after the first decoder has run: the
/// symbol `i` of the block takes the extrinsic value of the stage that the
/// interleaver maps `i` to.
pub open spec fn after_first_decoder<C: TurboCode, S: BcjrState>(
    first: Seq<BcjrSymbol>,
    second: Seq<BcjrSymbol>,
    permutation: Seq<int>,
) -> Seq<BcjrSymbol> {
    let aposteriori = decoded::<C::ConstituentEncoderCode, S>(first, C::TERMINATE_FIRST);
    Seq::new(
        second.len(),
        |i: int|
            if i < permutation.len() {
                with_apriori(second[i], extrinsic(aposteriori[permutation[i]], first[permutation[i]]))
            } else {
                second[i]
            },
    )
}

/// The input of the first decoder after the second decoder has run and has
/// handed over the extrinsic values of its first `n` stages: that of the
/// stage `i` goes to the symbol that the interleaver maps `i` to.
pub open spec fn after_second_decoder<C: TurboCode, S: BcjrState>(
    first: Seq<BcjrSymbol>,
    second: Seq<BcjrSymbol>,
    permutation: Seq<int>,
    n: nat,
) -> Seq<BcjrSymbol>
    decreases n,
{
    if n == 0 {
        first
    } else {
        let before = after_second_decoder::<C, S>(first, second, permutation, (n - 1) as nat);
        let aposteriori = decoded::<C::ConstituentEncoderCode, S>(second, C::TERMINATE_SECOND);
        before.update(
            permutation[n - 1],
            with_apriori(before[permutation[n - 1]], extrinsic(aposteriori[n - 1], second[n - 1])),
        )
    }
}

/// The a-posteriori values of the second decoder for the bits of the block.
pub open spec fn second_aposteriori<C: TurboCode, S: BcjrState>(second: Seq<BcjrSymbol>, block_len: nat) -> Seq<Llr> {
    Seq::new(
        block_len,
        |i: int| decoded::<C::ConstituentEncoderCode, S>(second, C::TERMINATE_SECOND)[i] as Llr,
    )
}

/// The result of an iteration: the a-posteriori values of the second
/// decoder, brought back into the order of the block.
pub open spec fn iteration_result<C: TurboCode, S: BcjrState>(
    second: Seq<BcjrSymbol>,
    permutation: Seq<int>,
    previous: Seq<Llr>,
) -> Seq<Llr> {
    deinterleaved(
        permutation,
        second_aposteriori::<C, S>(second, permutation.len()),
        previous,
        permutation.len(),
    )
}

/// The number of trellis stages of a block of `block_bits` bits.
pub fn trellis_bits<C: ConvolutionalCode>(block_bits: usize, terminated: bool) -> (bits: usize)
    requires
        terminated ==> block_bits + code_memory::<C>() <= usize::MAX,
    ensures
        bits == block_bits + if terminated {
            code_memory::<C>()
        } else {
            0
        },
{
    block_bits + if terminated {
        C::mem()
    } else {
        0
    }
}

/// Put another a-priori value into the symbol at `index`.
fn set_apriori(buffer: &mut SymbolBuffer, index: usize, apriori: Llr)
    requires
        index < symbol_items(*old(buffer)).len(),
    ensures
        symbol_items(*final(buffer)) == symbol_items(*old(buffer)).update(
            index as int,
            with_apriori(symbol_items(*old(buffer))[index as int], apriori),
        ),
{
    let symbols = symbols_slice_mut(buffer);
    let mut symbol = symbols[index];
    symbol.apriori = apriori;
    symbols[index] = symbol;
}

/// Put a value at `index`.
fn set_llr(buffer: &mut LlrBuffer, index: usize, value: Llr)
    requires
        index < llr_items(*old(buffer)).len(),
    ensures
        llr_items(*final(buffer)) == llr_items(*old(buffer)).update(index as int, value),
{
    let values = llr_slice_mut(buffer);
    values[index] = value;
}

/// The turbo decoder of the code `C` with the state vector `S`.
pub struct TurboDecoder<C: TurboCode, S: BcjrState> {
    _code: PhantomData<C>,
    _state: PhantomData<S>,
}

/// The turbo decoder with the packed state vector of the UMTS code.
pub type UmtsTurboDecoder<C> = TurboDecoder<C, UmtsState>;

impl<C: TurboCode, S: BcjrState> TurboDecoder<C, S> {
    /// Create a decoder.
    ///
    /// The constituent code is checked on the way: a decoder exists only
    /// for a turbo code whose constituent has the rate 1/2 and is systematic.
    pub fn new() -> (decoder: Self)
        ensures
            is_constituent_code::<C::ConstituentEncoderCode>(),
    {
        assert_consituent_encoder::<C>();
        Self { _code: PhantomData, _state: PhantomData }
    }

    /// Set up the decoding of a block: `input` holds the received values of
    /// the bits of the block, the two other slices those of the termination
    /// of the two constituent encoders.
    ///
    /// The block has the length of the interleaver, and each of the two
    /// trellises is long enough to open and close and fits the buffers.
    pub fn decode<'a, I: Interleaver>(
        &self,
        input: &[TurboSymbol],
        interleaver: &'a I,
        first_termination: &[BcjrSymbol],
        second_termination: &[BcjrSymbol],
    ) -> (decoding: TurboDecoding<'a, C, S, I>)
        requires
            input@.len() == interleaver.spec_len(),
            input@.len() + first_termination@.len() <= MAX_TRELLIS_BITS,
            input@.len() + second_termination@.len() <= MAX_TRELLIS_BITS,
            input@.len() + first_termination@.len() >= min_symbols::<C::ConstituentEncoderCode>(
                C::TERMINATE_FIRST,
            ),
            input@.len() + second_termination@.len() >= min_symbols::<C::ConstituentEncoderCode>(
                C::TERMINATE_SECOND,
            ),
        ensures
            decoding.wf(),
            decoding.permutation() == permutation(interleaver),
            decoding.first_input() == first_decoder_input(input@, first_termination@),
            decoding.second_input() == second_decoder_input(
                input@,
                permutation(interleaver),
                second_termination@,
            ),
            decoding.result() == Seq::new(input@.len(), |i: int| 0i8),
    {
        let ghost perm = permutation(interleaver);
        // Prepare input for the first decoder
        let mut first_input = symbols_new();
        let mut index: usize = 0;
        while index < input.len()
            invariant
                index <= input@.len(),
                input@.len() <= MAX_TRELLIS_BITS,
                symbol_items(first_input) == first_decoder_input(input@, Seq::empty()).take(index as int),
            decreases input@.len() - index,
        {
            let symbol = BcjrSymbol::new(input[index].systematic, input[index].first_parity);
            symbols_push(&mut first_input, symbol).unwrap();
            index += 1;
        }
        symbols_extend_from_slice(&mut first_input, first_termination).unwrap();

        // Prepare input for the second decoder
        let mut second_input = symbols_new();
        let mappings = interleaver.iter();
        let mut index: usize = 0;
        while index < mappings.len()
            invariant
                index <= mappings@.len(),
                mappings@.len() == input@.len(),
                input@.len() == interleaver.spec_len(),
                input@.len() <= MAX_TRELLIS_BITS,
                perm == permutation(interleaver),
                forall|i: int|
                    0 <= i < mappings@.len() ==> (#[trigger] mappings@[i]).0 == i && mappings@[i].1
                        == interleaver.permuted(i) && interleaver.permuted(i) < mappings@.len(),
                symbol_items(second_input) == second_decoder_input(input@, perm, Seq::empty()).take(
                    index as int,
                ),
            decreases mappings@.len() - index,
        {
            let InterleaverMapping(i, ii) = mappings[index];
            let symbol = BcjrSymbol::new(input[ii].systematic, input[i].second_parity);
            symbols_push(&mut second_input, symbol).unwrap();
            index += 1;
        }
        symbols_extend_from_slice(&mut second_input, second_termination).unwrap();
        proof {
            let all = second_decoder_input(input@, perm, Seq::empty());
            assert(all + second_termination@ =~= second_decoder_input(
                input@,
                perm,
                second_termination@,
            ));
        }

        // Create a result buffer that the individual decoders can use
        let longest = if first_termination.len() >= second_termination.len() {
            first_termination.len()
        } else {
            second_termination.len()
        };
        let mut bcjr_result = llr_new();
        llr_resize_default(&mut bcjr_result, input.len() + longest).unwrap();

        // Create the buffer of the a-posteriori values in the order of the block
        let mut result = llr_new();
        llr_resize_default(&mut result, input.len()).unwrap();

        TurboDecoding {
            _code: PhantomData,
            first_bcjr: BcjrDecoder::new(C::TERMINATE_FIRST),
            second_bcjr: BcjrDecoder::new(C::TERMINATE_SECOND),
            first_input,
            second_input,
            interleaver,
            bcjr_result,
            result,
            mappings,
            forward: Vec::with_capacity(input.len() + longest),
            input_len: input.len(),
        }
    }
}

impl<C: TurboCode, S: BcjrState> Default for TurboDecoder<C, S> {
    /// Create a decoder, as `new` does.
    fn default() -> (decoder: Self)
        ensures
            is_constituent_code::<C::ConstituentEncoderCode>(),
    {
        TurboDecoder::new()
    }
}

/// The decoding of one block: the input of the two constituent decoders,
/// which changes from iteration to iteration, and the a-posteriori values
/// of the bits after the last iteration. All that an iteration needs is
/// stored here when the decoding is set up.
pub struct TurboDecoding<'a, C: TurboCode, S: BcjrState, I: Interleaver> {
    _code: PhantomData<C>,
    first_bcjr: BcjrDecoder<C::ConstituentEncoderCode, S>,
    second_bcjr: BcjrDecoder<C::ConstituentEncoderCode, S>,
    /// The interleaver of the block.
    interleaver: &'a I,
    /// The input of the first constituent decoder.
    first_input: SymbolBuffer,
    /// The input of the second constituent decoder.
    second_input: SymbolBuffer,
    /// Where the constituent decoders put their a-posteriori values.
    bcjr_result: LlrBuffer,
    /// The a-posteriori values of the bits of the block, in their order.
    result: LlrBuffer,
    /// The permuted sequence of the interleaver.
    mappings: Vec<InterleaverMapping>,
    /// The store of the forward path of the constituent decoders.
    forward: Vec<S>,
    /// The number of bits of the block.
    input_len: usize,
}

impl<'a, C: TurboCode, S: BcjrState, I: Interleaver> TurboDecoding<'a, C, S, I> {
    /// The input of the first constituent decoder.
    pub closed spec fn first_input(&self) -> Seq<BcjrSymbol> {
        symbol_items(self.first_input)
    }

    /// The input of the second constituent decoder.
    pub closed spec fn second_input(&self) -> Seq<BcjrSymbol> {
        symbol_items(self.second_input)
    }

    /// The a-posteriori values of the bits of the block.
    pub closed spec fn result(&self) -> Seq<Llr> {
        llr_items(self.result)
    }

    /// The interleaved indices of the interleaver of the block.
    pub closed spec fn permutation(&self) -> Seq<int> {
        permutation(self.interleaver)
    }

    /// The buffers fit the block and its two trellises.
    pub closed spec fn wf(&self) -> bool {
        &&& self.input_len == self.interleaver.spec_len()
        &&& self.first_bcjr.is_terminated() == C::TERMINATE_FIRST
        &&& self.second_bcjr.is_terminated() == C::TERMINATE_SECOND
        &&& self.input_len <= symbol_items(self.first_input).len() <= MAX_TRELLIS_BITS
        &&& self.input_len <= symbol_items(self.second_input).len() <= MAX_TRELLIS_BITS
        &&& symbol_items(self.first_input).len() >= min_symbols::<C::ConstituentEncoderCode>(
            C::TERMINATE_FIRST,
        )
        &&& symbol_items(self.second_input).len() >= min_symbols::<C::ConstituentEncoderCode>(
            C::TERMINATE_SECOND,
        )
        &&& llr_items(self.bcjr_result).len() >= symbol_items(self.first_input).len()
        &&& llr_items(self.bcjr_result).len() >= symbol_items(self.second_input).len()
        &&& llr_items(self.result).len() == self.input_len
        &&& self.mappings@.len() == self.input_len
        &&& forall|i: int|
            0 <= i < self.input_len ==> (#[trigger] self.mappings@[i]).0 == i && self.mappings@[i].1
                == self.interleaver.permuted(i) && self.interleaver.permuted(i) < self.input_len
    }

    /// What is known of a decoding: its buffers hold the block and the two tails.
    pub proof fn lemma_lengths(&self)
        requires
            self.wf(),
        ensures
            self.result().len() == self.permutation().len(),
            self.first_input().len() >= self.permutation().len(),
            self.second_input().len() >= self.permutation().len(),
    {
    }

    /// Get the a-posteriori values of the bits of the block: all zero
    /// before the first iteration.
    pub fn get_result(&self) -> (result: &[Llr])
        ensures
            result@ == self.result(),
    {
        llr_slice(&self.result)
    }

    /// Run a single decode iteration: the first decoder, whose extrinsic
    /// values go to the second decoder, and then the second decoder, whose
    /// extrinsic values go back to the first.
    pub fn run_decode_iteration(&mut self)
        requires
            old(self).wf(),
        ensures
            final(self).wf(),
            final(self).permutation() == old(self).permutation(),
            final(self).second_input() == after_first_decoder::<C, S>(
                old(self).first_input(),
                old(self).second_input(),
                old(self).permutation(),
            ),
            final(self).first_input() == after_second_decoder::<C, S>(
                old(self).first_input(),
                final(self).second_input(),
                old(self).permutation(),
                old(self).permutation().len(),
            ),
            final(self).result() == iteration_result::<C, S>(
                final(self).second_input(),
                old(self).permutation(),
                old(self).result(),
            ),
    {
        self.run_first_decoder();
        self.run_second_decoder();
    }

    fn run_first_decoder(&mut self)
        requires
            old(self).wf(),
        ensures
            final(self).wf(),
            final(self).permutation() == old(self).permutation(),
            final(self).first_input() == old(self).first_input(),
            final(self).result() == old(self).result(),
            final(self).second_input() == after_first_decoder::<C, S>(
                old(self).first_input(),
                old(self).second_input(),
                old(self).permutation(),
            ),
    {
        self.first_bcjr.decode_with(
            symbols_slice(&self.first_input),
            llr_slice_mut(&mut self.bcjr_result),
            &mut self.forward,
        );

        // Compute the extrinsic information from the a-posteriori LLR (Lapp) from the first decoder,
        // to be used as the a priori LLR for the second decoder.
        let ghost first = self.first_input();
        let ghost second = self.second_input();
        let ghost perm = self.permutation();
        let ghost aposteriori = decoded::<C::ConstituentEncoderCode, S>(first, C::TERMINATE_FIRST);
        let count = self.mappings.len();
        let mut index: usize = 0;
        while index < count
            invariant
                index <= count,
                count == self.input_len,
                self.wf(),
                self.interleaver == old(self).interleaver,
                perm == permutation(self.interleaver),
                perm.len() == count,
                first == symbol_items(self.first_input),
                self.first_input() == old(self).first_input(),
                self.result() == old(self).result(),
                second == old(self).second_input(),
                aposteriori == decoded::<C::ConstituentEncoderCode, S>(first, C::TERMINATE_FIRST),
                forall|k: int|
                    0 <= k < first.len() ==> (#[trigger] llr_items(self.bcjr_result)[k]) as int
                        == aposteriori[k],
                symbol_items(self.second_input) == Seq::new(
                    second.len(),
                    |i: int|
                        if i < index {
                            with_apriori(second[i], extrinsic(aposteriori[perm[i]], first[perm[i]]))
                        } else {
                            second[i]
                        },
                ),
            decreases count - index,
        {
            let InterleaverMapping(i, ii) = self.mappings[index];
            let first_input = symbols_slice(&self.first_input);
            let lapp = llr_slice(&self.bcjr_result)[ii] as i32;  // a-posteriori llr
            let la = first_input[ii].apriori as i32;  // a-priori llr
            let lu = first_input[ii].systematic as i32;

            // Emit the extrinsic L_e from the first decoder as L_a for the second.
            let extrinsic = lapp - la - lu;
            set_apriori(&mut self.second_input, i, clamp_to_llr(extrinsic));
            index += 1;
            proof {
                assert(symbol_items(self.second_input) =~= Seq::new(
                    second.len(),
                    |i: int|
                        if i < index {
                            with_apriori(
                                second[i],
                                self::extrinsic(aposteriori[perm[i]], first[perm[i]]),
                            )
                        } else {
                            second[i]
                        },
                ));
            }
        }
    }

    fn run_second_decoder(&mut self)
        requires
            old(self).wf(),
        ensures
            final(self).wf(),
            final(self).permutation() == old(self).permutation(),
            final(self).second_input() == old(self).second_input(),
            final(self).first_input() == after_second_decoder::<C, S>(
                old(self).first_input(),
                old(self).second_input(),
                old(self).permutation(),
                old(self).permutation().len(),
            ),
            final(self).result() == iteration_result::<C, S>(
                old(self).second_input(),
                old(self).permutation(),
                old(self).result(),
            ),
    {
        self.second_bcjr.decode_with(
            symbols_slice(&self.second_input),
            llr_slice_mut(&mut self.bcjr_result),
            &mut self.forward,
        );

        // Compute the extrinsic information from the a-posteriori LLR (Lapp) from second decoder,
        // to be used now as the a-priori LLR for the first decoder.
        let ghost first = self.first_input();
        let ghost second = self.second_input();
        let ghost perm = self.permutation();
        let ghost aposteriori = decoded::<C::ConstituentEncoderCode, S>(second, C::TERMINATE_SECOND);
        let count = self.mappings.len();
        let mut index: usize = 0;
        while index < count
            invariant
                index <= count,
                count == self.input_len,
                self.wf(),
                self.interleaver == old(self).interleaver,
                perm == permutation(self.interleaver),
                perm.len() == count,
                first == old(self).first_input(),
                second == symbol_items(self.second_input),
                self.second_input() == old(self).second_input(),
                self.result() == old(self).result(),
                aposteriori == decoded::<C::ConstituentEncoderCode, S>(second, C::TERMINATE_SECOND),
                forall|k: int|
                    0 <= k < second.len() ==> (#[trigger] llr_items(self.bcjr_result)[k]) as int
                        == aposteriori[k],
                symbol_items(self.first_input) == after_second_decoder::<C, S>(
                    first,
                    second,
                    perm,
                    index as nat,
                ),
            decreases count - index,
        {
            let InterleaverMapping(i, ii) = self.mappings[index];
            let second_input = symbols_slice(&self.second_input);
            let lapp = llr_slice(&self.bcjr_result)[i] as i32;  // a-posteriori llr
            let la = second_input[i].apriori as i32;  // a-priori llr
            let lu = second_input[i].systematic as i32;

            // Emit the extrinsic L_e from the second decoder as L_a for the first.
            let extrinsic = lapp - la - lu;
            set_apriori(&mut self.first_input, ii, clamp_to_llr(extrinsic));
            index += 1;
        }

        // Deinterleave Lapp for decision making
        let ghost aposteriori = second_aposteriori::<C, S>(second, count as nat);
        let ghost previous = self.result();
        let mut index: usize = 0;
        while index < count
            invariant
                index <= count,
                count == self.input_len,
                self.wf(),
                self.interleaver == old(self).interleaver,
                perm == permutation(self.interleaver),
                perm.len() == count,
                second == symbol_items(self.second_input),
                self.second_input() == old(self).second_input(),
                previous == old(self).result(),
                aposteriori == second_aposteriori::<C, S>(second, count as nat),
                symbol_items(self.first_input) == after_second_decoder::<C, S>(
                    first,
                    second,
                    perm,
                    count as nat,
                ),
                forall|k: int|
                    0 <= k < count ==> #[trigger] llr_items(self.bcjr_result)[k] == aposteriori[k],
                llr_items(self.result) == deinterleaved(perm, aposteriori, previous, index as nat),
            decreases count - index,
        {
            let InterleaverMapping(i, ii) = self.mappings[index];
            let value = llr_slice(&self.bcjr_result)[i];
            set_llr(&mut self.result, ii, value);
            index += 1;
        }
    }
}

} // verus!
