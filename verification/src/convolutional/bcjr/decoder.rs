//! The forward-backward decoder over any trellis, and what it asks of a state vector.
use vstd::prelude::*;
use core::marker::PhantomData;
use crate::buffer::{gamma_items, gamma_new, gamma_push, gamma_slice, GammaBuffer, MAX_TRELLIS_BITS};
use crate::convolutional::code::code_memory;
use crate::convolutional::{ConvolutionalCode, ConvolutionalCodeExt};
use crate::Llr;
use super::packing::{pack_gamma, packed_gamma};
use super::symbol::BcjrSymbol;

verus! {

/// The state vector of the decoder: one metric for each state of the trellis.
///
/// Each operation of the vector has a mathematical twin on the sequence of
/// its metrics; the decoder is described by these twins alone.
pub trait BcjrState: Copy {
    /// The metric of each trellis state.
    spec fn metrics(self) -> Seq<int>;

    /// The metrics of the vector that `zero` gives.
    spec fn spec_zero() -> Seq<int>;

    /// The unscaled metrics of the next stage of the forward path.
    spec fn spec_next_alpha(metrics: Seq<int>, g: u32) -> Seq<int>;

    /// The unscaled metrics of the previous stage of the backward path.
    spec fn spec_previous_beta(metrics: Seq<int>, g: u32) -> Seq<int>;

    /// The a-posteriori value of a stage.
    spec fn spec_aposteriori(g: u32, a: Seq<int>, b: Seq<int>) -> int;

    /// The metrics, scaled so that their sum is about zero.
    spec fn spec_all_scaled(metrics: Seq<int>) -> Seq<int>;

    /// The metrics with the unreachable states of the stage `index` marked,
    /// and the others scaled so that their sum is about zero.
    spec fn spec_valid_scaled(metrics: Seq<int>, index: int, symbol_count: int) -> Seq<int>;

    /// The vector whose metrics are all zero.
    fn zero() -> (state: Self)
        ensures
            state.metrics() == Self::spec_zero(),
    ;

    /// Get the unscaled next value of A in the forward path given the current value and `g`.
    fn get_next_alpha(self, g: u32) -> (next: Self)
        ensures
            next.metrics() == Self::spec_next_alpha(self.metrics(), g),
    ;

    /// Get the unscaled next value of B in the backward path given the current value and `g`.
    fn get_previous_beta(self, g: u32) -> (previous: Self)
        ensures
            previous.metrics() == Self::spec_previous_beta(self.metrics(), g),
    ;

    /// Get the a-posteriori llr given the three computation values.
    fn get_aposteriori(g: u32, a: Self, b: Self) -> (llr: Llr)
        ensures
            llr == Self::spec_aposteriori(g, a.metrics(), b.metrics()),
    ;

    /// Scale the values so that their sum is zero assuming all states are valid.
    fn get_all_scaled(self) -> (scaled: Self)
        ensures
            scaled.metrics() == Self::spec_all_scaled(self.metrics()),
    ;

    /// Invalidate unreachable states and scale remaining values so their sum is zero.
    fn get_valid_scaled(self, index: usize, symbol_count: usize) -> (scaled: Self)
        ensures
            scaled.metrics() == Self::spec_valid_scaled(self.metrics(), index as int, symbol_count as int),
    ;
}

/// The packed branch metrics of each symbol of a block.
pub open spec fn gamma_of(input: Seq<BcjrSymbol>) -> Seq<u32> {
    Seq::new(input.len(), |k: int| packed_gamma(input[k]))
}

/// At the stage `index` not every state can be reached: the trellis is
/// still opening from the state 0, or, if it is terminated, already closing
/// towards the state 0.
pub open spec fn stage_is_constrained(memory: int, terminated: bool, symbol_count: int, index: int) -> bool {
    index < memory || (terminated && index >= symbol_count - memory)
}

/// The scaling of the metrics of the stage `index`.
pub open spec fn scaled_stage<S: BcjrState>(
    metrics: Seq<int>,
    memory: int,
    terminated: bool,
    symbol_count: int,
    index: int,
) -> Seq<int> {
    if stage_is_constrained(memory, terminated, symbol_count, index) {
        S::spec_valid_scaled(metrics, index, symbol_count)
    } else {
        S::spec_all_scaled(metrics)
    }
}

/// The metrics of the forward path before the stage `index`: only the
/// state 0 can be reached before the first stage, and each stage takes the
/// metrics on by one step and scales them.
pub open spec fn forward_metrics<S: BcjrState>(gamma: Seq<u32>, memory: int, terminated: bool, index: int) -> Seq<int>
    decreases index,
{
    if index <= 0 {
        S::spec_valid_scaled(S::spec_zero(), 0, gamma.len() as int)
    } else {
        scaled_stage::<S>(
            S::spec_next_alpha(
                forward_metrics::<S>(gamma, memory, terminated, index - 1),
                gamma[index - 1],
            ),
            memory,
            terminated,
            gamma.len() as int,
            index,
        )
    }
}

/// The metrics of the backward path before the stage `index`: after the
/// last stage only the state 0 can be reached if the trellis is terminated,
/// and every state alike if it is not; each stage takes the metrics back by
/// one step and scales them.
pub open spec fn backward_metrics<S: BcjrState>(gamma: Seq<u32>, memory: int, terminated: bool, index: int) -> Seq<int>
    decreases gamma.len() - index,
{
    if index >= gamma.len() {
        if terminated {
            S::spec_valid_scaled(S::spec_zero(), gamma.len() as int, gamma.len() as int)
        } else {
            S::spec_zero()
        }
    } else {
        scaled_stage::<S>(
            S::spec_previous_beta(
                backward_metrics::<S>(gamma, memory, terminated, index + 1),
                gamma[index],
            ),
            memory,
            terminated,
            gamma.len() as int,
            index,
        )
    }
}

/// The a-posteriori value of the stage `index`.
pub open spec fn aposteriori<S: BcjrState>(gamma: Seq<u32>, memory: int, terminated: bool, index: int) -> int {
    S::spec_aposteriori(
        gamma[index],
        forward_metrics::<S>(gamma, memory, terminated, index),
        backward_metrics::<S>(gamma, memory, terminated, index + 1),
    )
}

/// The a-posteriori values of a block of symbols of the code `C`, decoded
/// with the state vector `S`.
pub open spec fn decoded<C: ConvolutionalCode, S: BcjrState>(input: Seq<BcjrSymbol>, terminated: bool) -> Seq<int> {
    Seq::new(
        input.len(),
        |k: int| aposteriori::<S>(gamma_of(input), code_memory::<C>() as int, terminated, k),
    )
}

/// The least number of symbols of a block of the code `C`: the trellis has
/// to open and, if it is terminated, to close.
pub open spec fn min_symbols<C: ConvolutionalCode>(terminated: bool) -> int {
    if terminated {
        2 * (code_memory::<C>() as int)
    } else {
        code_memory::<C>() as int
    }
}

/// The soft decoder of the code `C` with the state vector `S`.
pub struct BcjrDecoder<C: ConvolutionalCode, S: BcjrState> {
    _code: PhantomData<C>,
    _state: PhantomData<S>,
    /// Whether the encoder drove the state back to zero at the end of each block.
    pub terminated: bool,
}

impl<C: ConvolutionalCode, S: BcjrState> BcjrDecoder<C, S> {
    /// Whether the trellis of each block ends in the state 0.
    pub closed spec fn is_terminated(&self) -> bool {
        self.terminated
    }

    /// The least number of symbols of a block.
    pub open spec fn min_symbols(&self) -> int {
        min_symbols::<C>(self.is_terminated())
    }

    /// Create a decoder for blocks that are terminated or not.
    pub fn new(terminated: bool) -> (decoder: Self)
        ensures
            decoder.is_terminated() == terminated,
    {
        Self { _code: PhantomData, _state: PhantomData, terminated }
    }

    /// Soft decode a block of symbols.
    ///
    /// The first values of `output`, one for each symbol, take the
    /// a-posteriori values of the block; the rest of `output` stays as it is.
    pub fn decode(&self, input: &[BcjrSymbol], output: &mut [Llr])
        requires
            old(output)@.len() >= input@.len(),
            input@.len() >= self.min_symbols(),
            input@.len() <= MAX_TRELLIS_BITS,
        ensures
            final(output)@.len() == old(output)@.len(),
            forall|k: int|
                0 <= k < input@.len() ==> (#[trigger] final(output)@[k]) as int == decoded::<C, S>(
                    input@,
                    self.is_terminated(),
                )[k],
            forall|k: int|
                input@.len() <= k < old(output)@.len() ==> #[trigger] final(output)@[k] == old(
                    output,
                )@[k],
    {
        let mut forward: Vec<S> = Vec::new();
        self.decode_with(input, output, &mut forward);
    }

    /// Soft decode a block of symbols as `decode` does, with `forward` as
    /// the store of the forward path: what it held before is lost, and a
    /// store that has held a block of the same length does not grow again.
    pub fn decode_with(&self, input: &[BcjrSymbol], output: &mut [Llr], forward: &mut Vec<S>)
        requires
            old(output)@.len() >= input@.len(),
            input@.len() >= self.min_symbols(),
            input@.len() <= MAX_TRELLIS_BITS,
        ensures
            final(output)@.len() == old(output)@.len(),
            forall|k: int|
                0 <= k < input@.len() ==> (#[trigger] final(output)@[k]) as int == decoded::<C, S>(
                    input@,
                    self.is_terminated(),
                )[k],
            forall|k: int|
                input@.len() <= k < old(output)@.len() ==> #[trigger] final(output)@[k] == old(
                    output,
                )@[k],
    {
        let gamma = self.compute_gamma(input);
        self.forward_path(gamma_slice(&gamma), forward);
        self.backward_path(gamma, forward, output);
    }

    /// Compute the inner product of possible transmitted symbols and their received value.
    fn compute_gamma(&self, input: &[BcjrSymbol]) -> (gamma: GammaBuffer)
        requires
            input@.len() <= MAX_TRELLIS_BITS,
        ensures
            gamma_items(gamma) == gamma_of(input@),
    {
        let mut gamma = gamma_new();
        let mut index: usize = 0;
        while index < input.len()
            invariant
                index <= input@.len(),
                input@.len() <= MAX_TRELLIS_BITS,
                gamma_items(gamma) == gamma_of(input@.take(index as int)),
            decreases input@.len() - index,
        {
            let g = pack_gamma(input[index]);
            gamma_push(&mut gamma, g).unwrap();
            proof {
                assert(gamma_of(input@.take(index as int)).push(g) =~= gamma_of(
                    input@.take(index + 1),
                ));
            }
            index += 1;
        }
        proof {
            assert(input@.take(index as int) =~= input@);
        }
        gamma
    }

    fn forward_path(&self, gamma: &[u32], alpha: &mut Vec<S>)
        requires
            gamma@.len() >= self.min_symbols(),
        ensures
            final(alpha)@.len() == gamma@.len(),
            forall|k: int|
                0 <= k < gamma@.len() ==> (#[trigger] final(alpha)@[k]).metrics()
                    == forward_metrics::<S>(
                    gamma@,
                    code_memory::<C>() as int,
                    self.is_terminated(),
                    k,
                ),
    {
        alpha.clear();
        let memory = C::mem();
        let symbol_count = gamma.len();
        let mut index: usize = 0;

        let mut a = S::zero();
        a = a.get_valid_scaled(index, symbol_count);
        alpha.push(a);
        index += 1;

        while index < memory
            invariant
                1 <= index <= memory <= symbol_count,
                memory == code_memory::<C>(),
                symbol_count == gamma@.len(),
                symbol_count >= self.min_symbols(),
                alpha@.len() == index,
                a.metrics() == forward_metrics::<S>(gamma@, memory as int, self.is_terminated(), index - 1),
                forall|k: int|
                    0 <= k < index ==> (#[trigger] alpha@[k]).metrics() == forward_metrics::<S>(
                        gamma@,
                        memory as int,
                        self.is_terminated(),
                        k,
                    ),
            decreases memory - index,
        {
            let g = gamma[index - 1];
            a = a.get_next_alpha(g);
            a = a.get_valid_scaled(index, symbol_count);
            alpha.push(a);
            index += 1;
        }

        if self.terminated {
            // Trellis is terminated
            while index < symbol_count - memory
                invariant
                    memory <= index <= symbol_count - memory,
                    1 <= memory == code_memory::<C>(),
                    symbol_count == gamma@.len(),
                    self.is_terminated(),
                    alpha@.len() == index,
                    a.metrics() == forward_metrics::<S>(gamma@, memory as int, true, index - 1),
                    forall|k: int|
                        0 <= k < index ==> (#[trigger] alpha@[k]).metrics() == forward_metrics::<S>(
                            gamma@,
                            memory as int,
                            true,
                            k,
                        ),
                decreases symbol_count - index,
            {
                let g = gamma[index - 1];
                a = a.get_next_alpha(g);
                a = a.get_all_scaled();
                alpha.push(a);
                index += 1;
            }

            while index < symbol_count
                invariant
                    symbol_count - memory <= index <= symbol_count,
                    1 <= memory == code_memory::<C>(),
                    memory <= symbol_count - memory,
                    symbol_count == gamma@.len(),
                    self.is_terminated(),
                    alpha@.len() == index,
                    a.metrics() == forward_metrics::<S>(gamma@, memory as int, true, index - 1),
                    forall|k: int|
                        0 <= k < index ==> (#[trigger] alpha@[k]).metrics() == forward_metrics::<S>(
                            gamma@,
                            memory as int,
                            true,
                            k,
                        ),
                decreases symbol_count - index,
            {
                let g = gamma[index - 1];
                a = a.get_next_alpha(g);
                a = a.get_valid_scaled(index, symbol_count);
                alpha.push(a);
                index += 1;
            }
        } else {
            // Trellis is not terminated
            while index < symbol_count
                invariant
                    memory <= index <= symbol_count,
                    1 <= memory == code_memory::<C>(),
                    symbol_count == gamma@.len(),
                    !self.is_terminated(),
                    alpha@.len() == index,
                    a.metrics() == forward_metrics::<S>(gamma@, memory as int, false, index - 1),
                    forall|k: int|
                        0 <= k < index ==> (#[trigger] alpha@[k]).metrics() == forward_metrics::<S>(
                            gamma@,
                            memory as int,
                            false,
                            k,
                        ),
                decreases symbol_count - index,
            {
                let g = gamma[index - 1];
                a = a.get_next_alpha(g);
                a = a.get_all_scaled();
                alpha.push(a);
                index += 1;
            }
        }
    }

    fn backward_path(&self, gamma: GammaBuffer, alpha: &Vec<S>, lapp: &mut [Llr])
        requires
            gamma_items(gamma).len() >= self.min_symbols(),
            alpha@.len() == gamma_items(gamma).len(),
            old(lapp)@.len() >= gamma_items(gamma).len(),
            forall|k: int|
                0 <= k < alpha@.len() ==> (#[trigger] alpha@[k]).metrics() == forward_metrics::<S>(
                    gamma_items(gamma),
                    code_memory::<C>() as int,
                    self.is_terminated(),
                    k,
                ),
        ensures
            final(lapp)@.len() == old(lapp)@.len(),
            forall|k: int|
                0 <= k < alpha@.len() ==> (#[trigger] final(lapp)@[k]) as int == aposteriori::<S>(
                    gamma_items(gamma),
                    code_memory::<C>() as int,
                    self.is_terminated(),
                    k,
                ),
            forall|k: int|
                alpha@.len() <= k < old(lapp)@.len() ==> #[trigger] final(lapp)@[k] == old(lapp)@[k],
    {
        let gamma = gamma_slice(&gamma);
        let memory = C::mem();
        let symbol_count = gamma.len();
        let terminated = self.terminated;
        let mut index = symbol_count;

        let mut b = S::zero();

        if terminated {
            b = b.get_valid_scaled(index, symbol_count);
            index -= 1;

            while index >= symbol_count - memory
                invariant
                    symbol_count - memory - 1 <= index < symbol_count,
                    1 <= memory == code_memory::<C>(),
                    memory <= symbol_count - memory,
                    terminated,
                    symbol_count == gamma@.len(),
                    alpha@.len() == symbol_count,
                    lapp@.len() == old(lapp)@.len(),
                    lapp@.len() >= symbol_count,
                    b.metrics() == backward_metrics::<S>(gamma@, memory as int, terminated, index + 1),
                    forall|k: int|
                        0 <= k < alpha@.len() ==> (#[trigger] alpha@[k]).metrics()
                            == forward_metrics::<S>(gamma@, memory as int, terminated, k),
                    forall|k: int|
                        index < k < symbol_count ==> (#[trigger] lapp@[k]) as int == aposteriori::<S>(
                            gamma@,
                            memory as int,
                            terminated,
                            k,
                        ),
                    forall|k: int|
                        symbol_count <= k < lapp@.len() ==> #[trigger] lapp@[k] == old(lapp)@[k],
                decreases index,
            {
                let g = gamma[index];
                let a = alpha[index];

                // Emit LLR
                lapp[index] = S::get_aposteriori(g, a, b);

                b = b.get_previous_beta(g);
                b = b.get_valid_scaled(index, symbol_count);
                index -= 1;
            }
        } else {
            index -= 1;
        }

        while index >= memory
            invariant
                memory - 1 <= index < symbol_count,
                terminated ==> index < symbol_count - memory,
                1 <= memory == code_memory::<C>(),
                symbol_count == gamma@.len(),
                alpha@.len() == symbol_count,
                lapp@.len() == old(lapp)@.len(),
                lapp@.len() >= symbol_count,
                b.metrics() == backward_metrics::<S>(gamma@, memory as int, terminated, index + 1),
                forall|k: int|
                    0 <= k < alpha@.len() ==> (#[trigger] alpha@[k]).metrics() == forward_metrics::<S>(
                        gamma@,
                        memory as int,
                        terminated,
                        k,
                    ),
                forall|k: int|
                    index < k < symbol_count ==> (#[trigger] lapp@[k]) as int == aposteriori::<S>(
                        gamma@,
                        memory as int,
                        terminated,
                        k,
                    ),
                forall|k: int| symbol_count <= k < lapp@.len() ==> #[trigger] lapp@[k] == old(lapp)@[k],
            decreases index,
        {
            let g = gamma[index];
            let a = alpha[index];

            // Emit LLR
            lapp[index] = S::get_aposteriori(g, a, b);

            b = b.get_previous_beta(g);
            b = b.get_all_scaled();
            index -= 1;
        }

        while index > 0
            invariant
                index < memory <= symbol_count,
                1 <= memory == code_memory::<C>(),
                symbol_count == gamma@.len(),
                alpha@.len() == symbol_count,
                lapp@.len() == old(lapp)@.len(),
                lapp@.len() >= symbol_count,
                b.metrics() == backward_metrics::<S>(gamma@, memory as int, terminated, index + 1),
                forall|k: int|
                    0 <= k < alpha@.len() ==> (#[trigger] alpha@[k]).metrics() == forward_metrics::<S>(
                        gamma@,
                        memory as int,
                        terminated,
                        k,
                    ),
                forall|k: int|
                    index < k < symbol_count ==> (#[trigger] lapp@[k]) as int == aposteriori::<S>(
                        gamma@,
                        memory as int,
                        terminated,
                        k,
                    ),
                forall|k: int| symbol_count <= k < lapp@.len() ==> #[trigger] lapp@[k] == old(lapp)@[k],
            decreases index,
        {
            let g = gamma[index];
            let a = alpha[index];

            // Emit LLR
            lapp[index] = S::get_aposteriori(g, a, b);

            b = b.get_previous_beta(g);
            b = b.get_valid_scaled(index, symbol_count);
            index -= 1;
        }

        // index == 0
        let g = gamma[index];
        let a = alpha[index];

        // Emit LLR
        lapp[index] = S::get_aposteriori(g, a, b);
    }
}

} // verus!
