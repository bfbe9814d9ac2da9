//! The definition of a convolutional code and what follows from it: the
//! transitions and the output words of its shift register.
//!
//! A state holds the `m` bits of the shift register, the most recently
//! shifted bit as its most significant one. All polynomials are read with
//! their least significant bit at the oldest stage of the register.
use vstd::prelude::*;
use vstd::arithmetic::power2::{lemma2_to64, lemma_pow2_unfold, pow2};
use crate::bits::{
    bit_weight,
    lemma_bit_weight,
    lemma_low_bit,
    lemma_or_above,
    lemma_popcount_and,
    lemma_popcount_bound,
    lemma_shift_bit,
    lemma_shift_right,
    lemma_xor_of_bits,
    popcount,
    tap_parity,
};
use crate::CodeRate;
use super::EncoderOutput;

verus! {

/// The contents of the shift register of a code.
pub type CodeState = usize;

/// An input bit as a number.
pub open spec fn bit_value(bit: bool) -> nat {
    if bit {
        1
    } else {
        0
    }
}

/// The constants describe a code: the constraint length lies between 2 and
/// 9, there is at least one generator polynomial and no more of them than an
/// output word has bits, and every polynomial fits the constraint length.
pub open spec fn well_formed_code(constraint_length: usize, generators: Seq<usize>, feedback: usize) -> bool {
    &&& 2 <= constraint_length <= 9
    &&& 0 < generators.len() <= usize::BITS
    &&& feedback < pow2(constraint_length as nat)
    &&& forall|j: int| 0 <= j < generators.len() ==> #[trigger] generators[j] < pow2(constraint_length as nat)
}

/// The state after the state `state` on the input `input`: the register is
/// shifted by one, and the input plus the feedback parity enters as the new
/// most significant bit.
pub open spec fn next_state(memory: nat, feedback: nat, state: nat, input: bool) -> nat {
    state / 2 + bit_weight(
        (bit_value(input) + tap_parity(state, feedback)) % 2,
        (memory - 1) as nat,
    )
}

/// The input that shifts a zero into the register: the feedback parity of the state.
pub open spec fn termination_input(feedback: nat, state: nat) -> bool {
    tap_parity(state, feedback) == 1
}

/// The output bit of one generator polynomial.
pub open spec fn output_bit(generator: nat, feedback: nat, state: nat, input: bool) -> nat {
    (tap_parity(state, feedback) + bit_value(input) + tap_parity(state, generator)) % 2
}

/// The output word: generator `j` gives bit `j`.
pub open spec fn output_word(generators: Seq<usize>, feedback: nat, state: nat, input: bool) -> nat
    decreases generators.len(),
{
    if generators.len() == 0 {
        0
    } else {
        output_word(generators.drop_last(), feedback, state, input) + bit_weight(
            output_bit(generators.last() as nat, feedback, state, input),
            (generators.len() - 1) as nat,
        )
    }
}

/// A convolutional code: its constraint length and its polynomials.
pub trait ConvolutionalCode: Default {
    /// The constraint length of the code, i.e.
    /// the number of bits stored in each shift register, including the current input bit.
    const CONSTRAINT_LENGTH: usize;

    /// The generator polynomials describing each output path.
    /// The code has rate 1/k where `k` is the number of generator polynomials.
    spec fn spec_generators() -> Seq<usize>;

    /// The feedback polynomial describing the feedback path.
    /// Zero for a code without feedback.
    const FEEDBACK: usize;

    /// The generator polynomials describing each output path.
    fn generators() -> (generators: &'static [usize])
        ensures
            generators@ == Self::spec_generators(),
    ;

    /// The constants describe a code.
    proof fn lemma_well_formed()
        ensures
            well_formed_code(Self::CONSTRAINT_LENGTH, Self::spec_generators(), Self::FEEDBACK),
    ;
}

/// The memory `m` of a code: the number of bits of its shift register.
pub open spec fn code_memory<C: ConvolutionalCode>() -> nat {
    (C::CONSTRAINT_LENGTH - 1) as nat
}

/// `state` is a state of the code: it fits the shift register.
pub open spec fn is_code_state<C: ConvolutionalCode>(state: nat) -> bool {
    state < pow2(code_memory::<C>())
}

/// The state of the code `C` after `state` on `input`.
pub open spec fn code_next_state<C: ConvolutionalCode>(state: nat, input: bool) -> nat {
    next_state(code_memory::<C>(), C::FEEDBACK as nat, state, input)
}

/// The input that moves the code `C` from `state` towards the zero state.
pub open spec fn code_termination_input<C: ConvolutionalCode>(state: nat) -> bool {
    termination_input(C::FEEDBACK as nat, state)
}

/// The output word of the code `C` in `state` on `input`.
pub open spec fn code_output<C: ConvolutionalCode>(state: nat, input: bool) -> nat {
    output_word(C::spec_generators(), C::FEEDBACK as nat, state, input)
}

/// The code is systematic: its first generator polynomial is the feedback polynomial.
pub open spec fn code_is_systematic<C: ConvolutionalCode>() -> bool {
    C::spec_generators()[0] == C::FEEDBACK
}

/// The state after `count` termination steps that start in `state`.
pub open spec fn code_terminated_state<C: ConvolutionalCode>(state: nat, count: nat) -> nat
    decreases count,
{
    if count == 0 {
        state
    } else {
        let before = code_terminated_state::<C>(state, (count - 1) as nat);
        code_next_state::<C>(before, code_termination_input::<C>(before))
    }
}

/// The parity of the common taps is a bit.
pub proof fn lemma_tap_parity_is_bit(x: nat, y: nat)
    ensures
        tap_parity(x, y) <= 1,
    decreases x,
{
    if x != 0 {
        lemma_tap_parity_is_bit(x / 2, y / 2);
    }
}

/// An output word of `n` generators has `n` bits.
pub proof fn lemma_output_word_bound(generators: Seq<usize>, feedback: nat, state: nat, input: bool)
    ensures
        output_word(generators, feedback, state, input) < pow2(generators.len()),
    decreases generators.len(),
{
    if generators.len() == 0 {
        lemma2_to64();
    } else {
        lemma_output_word_bound(generators.drop_last(), feedback, state, input);
        lemma_pow2_unfold(generators.len());
        let high = pow2((generators.len() - 1) as nat);
        let bit = output_bit(generators.last() as nat, feedback, state, input);
        lemma_bit_weight(bit, (generators.len() - 1) as nat);
        assert(bit * high <= high) by (nonlinear_arith)
            requires
                bit <= 1,
        ;
    }
}

/// The lowest bit of an output word is the output bit of the first generator.
pub proof fn lemma_output_word_low_bit(generators: Seq<usize>, feedback: nat, state: nat, input: bool)
    requires
        generators.len() > 0,
    ensures
        output_word(generators, feedback, state, input) % 2 == output_bit(
            generators[0] as nat,
            feedback,
            state,
            input,
        ),
{
    lemma_output_word_bit(generators, feedback, state, input, 0);
    lemma2_to64();
}

/// Generator `j` gives bit `j` of the output word.
pub proof fn lemma_output_word_bit(generators: Seq<usize>, feedback: nat, state: nat, input: bool, j: int)
    requires
        0 <= j < generators.len(),
    ensures
        (output_word(generators, feedback, state, input) / pow2(j as nat)) % 2 == output_bit(
            generators[j] as nat,
            feedback,
            state,
            input,
        ),
    decreases generators.len(),
{
    let n = (generators.len() - 1) as nat;
    let lower = output_word(generators.drop_last(), feedback, state, input);
    let bit = output_bit(generators.last() as nat, feedback, state, input);
    let word = output_word(generators, feedback, state, input);
    lemma_output_word_bound(generators.drop_last(), feedback, state, input);
    lemma_bit_weight(bit, n);
    vstd::arithmetic::power2::lemma_pow2_pos(n);
    vstd::arithmetic::power2::lemma_pow2_pos(j as nat);
    if j == n {
        assert(word == pow2(n) * bit + lower) by (nonlinear_arith)
            requires
                word == lower + bit * pow2(n),
        ;
        vstd::arithmetic::div_mod::lemma_fundamental_div_mod_converse(
            word as int,
            pow2(n) as int,
            bit as int,
            lower as int,
        );
    } else {
        lemma_output_word_bit(generators.drop_last(), feedback, state, input, j);
        let rest = pow2((n - j) as nat);
        let half = pow2((n - j - 1) as nat);
        vstd::arithmetic::power2::lemma_pow2_adds(j as nat, (n - j) as nat);
        lemma_pow2_unfold((n - j) as nat);
        assert(bit * pow2(n) == (bit * rest) * pow2(j as nat)) by (nonlinear_arith)
            requires
                pow2(n) == pow2(j as nat) * rest,
        ;
        assert(bit * rest == 2 * (bit * half)) by (nonlinear_arith)
            requires
                rest == 2 * half,
        ;
        vstd::arithmetic::div_mod::lemma_hoist_over_denominator(
            lower as int,
            (bit * rest) as int,
            pow2(j as nat),
        );
    }
}

/// Generator `j` of the code `C` gives bit `j` of its output word.
pub proof fn lemma_code_output_bit<C: ConvolutionalCode>(state: nat, input: bool, j: int)
    requires
        0 <= j < C::spec_generators().len(),
    ensures
        (code_output::<C>(state, input) / pow2(j as nat)) % 2 == output_bit(
            C::spec_generators()[j] as nat,
            C::FEEDBACK as nat,
            state,
            input,
        ),
{
    lemma_output_word_bit(C::spec_generators(), C::FEEDBACK as nat, state, input, j);
}

/// From any state of the code, `m` termination steps lead to the zero state.
pub proof fn lemma_termination_reaches_zero<C: ConvolutionalCode>(state: nat)
    requires
        is_code_state::<C>(state),
    ensures
        code_terminated_state::<C>(state, code_memory::<C>()) == 0,
{
    C::lemma_well_formed();
    lemma_terminated_state::<C>(state, code_memory::<C>());
    vstd::arithmetic::div_mod::lemma_basic_div(state as int, pow2(code_memory::<C>()) as int);
}

/// Each termination step shifts the register by one bit and shifts in a zero.
proof fn lemma_terminated_state<C: ConvolutionalCode>(state: nat, count: nat)
    ensures
        code_terminated_state::<C>(state, count) == state / pow2(count),
    decreases count,
{
    if count == 0 {
        lemma2_to64();
    } else {
        lemma_terminated_state::<C>(state, (count - 1) as nat);
        let before = code_terminated_state::<C>(state, (count - 1) as nat);
        let parity = tap_parity(before, C::FEEDBACK as nat);
        lemma_tap_parity_is_bit(before, C::FEEDBACK as nat);
        lemma_pow2_unfold(count);
        vstd::arithmetic::power2::lemma_pow2_pos((count - 1) as nat);
        vstd::arithmetic::div_mod::lemma_div_denominator(
            state as int,
            pow2((count - 1) as nat) as int,
            2,
        );
    }
}

/// No tap of the polynomial zero holds a one.
proof fn lemma_tap_parity_of_zero(x: nat)
    ensures
        tap_parity(x, 0) == 0,
    decreases x,
{
    if x != 0 {
        lemma_tap_parity_of_zero(x / 2);
    }
}

/// A code without feedback is terminated by zeros: in every state its termination input is 0.
pub proof fn lemma_feed_forward_termination<C: ConvolutionalCode>(state: nat)
    requires
        C::FEEDBACK == 0,
    ensures
        !code_termination_input::<C>(state),
{
    lemma_tap_parity_of_zero(state);
}

/// If the first generator polynomial of the code is its feedback
/// polynomial, the lowest bit of every output word is the input bit.
pub proof fn lemma_systematic_output<C: ConvolutionalCode>(state: nat, input: bool)
    requires
        code_is_systematic::<C>(),
    ensures
        code_output::<C>(state, input) % 2 == bit_value(input),
{
    C::lemma_well_formed();
    lemma_output_word_low_bit(C::spec_generators(), C::FEEDBACK as nat, state, input);
    lemma_tap_parity_is_bit(state, C::FEEDBACK as nat);
}

/// What follows from the constants of a convolutional code.
pub trait ConvolutionalCodeExt<C: ConvolutionalCode> {
    /// The code rate.
    fn rate() -> (rate: CodeRate)
        ensures
            rate.k == 1,
            rate.n == C::spec_generators().len(),
    {
        proof {
            C::lemma_well_formed();
        }
        CodeRate { k: 1, n: C::generators().len() as u8 }
    }

    /// The memory in the code, i.e. the number of shift registers.
    fn mem() -> (memory: usize)
        ensures
            memory == code_memory::<C>(),
            1 <= memory <= 8,
    {
        proof {
            C::lemma_well_formed();
        }
        C::CONSTRAINT_LENGTH - 1
    }

    /// Get whether the code is systematic.
    /// The code is systematic if the first generator polynomial equals the feedback polynomial.
    fn is_systematic() -> (systematic: bool)
        ensures
            systematic == code_is_systematic::<C>(),
    {
        proof {
            C::lemma_well_formed();
        }
        C::generators()[0] == C::FEEDBACK
    }

    /// Get the state that follows `current` on `input`.
    fn get_next_state(current: CodeState, input: bool) -> (next: CodeState)
        requires
            is_code_state::<C>(current as nat),
        ensures
            next == code_next_state::<C>(current as nat, input),
            is_code_state::<C>(next as nat),
    {
        let memory = Self::mem();
        // Find the feedback sum
        let ones = (current & C::FEEDBACK).count_ones() as usize;
        let sum = ones & 1;
        let bit: usize = if input {
            1
        } else {
            0
        };
        let entering = bit ^ sum;
        proof {
            lemma_popcount_and(current, C::FEEDBACK);
            lemma_low_bit(ones, sum);
            lemma_low_bit(current, sum);
            lemma_xor_of_bits(bit, sum);
            lemma_shift_bit(entering, (memory - 1) as usize);
            lemma_bit_weight(entering as nat, (memory - 1) as nat);
            lemma_pow2_unfold(memory as nat);
            let high = pow2((memory - 1) as nat);
            assert(entering * high <= high) by (nonlinear_arith)
                requires
                    entering <= 1,
            ;
            lemma_or_above(current >> 1, entering, (memory - 1) as usize);
        }
        // Shift out the oldest value
        let mut next: CodeState = current >> 1;
        // Add the input + feedback as the newest value
        next |= entering << (memory - 1);
        next
    }

    /// Find the input that produces a 0 on the output of the first delay
    /// when used to compute the next state.
    fn get_termination_input(current: CodeState) -> (input: bool)
        requires
            is_code_state::<C>(current as nat),
        ensures
            input == code_termination_input::<C>(current as nat),
    {
        let memory = Self::mem();
        // The next state on the input 0 holds the feedback parity as its newest bit:
        // that bit is the input which cancels it.
        let next_if_0 = Self::get_next_state(current, false);
        let input = next_if_0 >> (memory - 1);
        proof {
            let parity = tap_parity(current as nat, C::FEEDBACK as nat);
            lemma_tap_parity_is_bit(current as nat, C::FEEDBACK as nat);
            lemma_shift_right(next_if_0, (memory - 1) as usize);
            lemma_pow2_unfold(memory as nat);
            let high = pow2((memory - 1) as nat) as int;
            vstd::arithmetic::power2::lemma_pow2_pos((memory - 1) as nat);
            lemma_bit_weight(parity, (memory - 1) as nat);
            vstd::arithmetic::div_mod::lemma_fundamental_div_mod_converse(
                next_if_0 as int,
                high,
                parity as int,
                current as int / 2,
            );
        }
        input != 0
    }

    /// Get the output bits for all generator polynomials concatenated.
    /// E.g. for a rate 1/3 code there are three bits.
    /// The first polynomial gets the least significant bit, the last
    /// polynomial the most significant bit, i.e. polynomial[0] -> bit 0.
    fn get_output(current: CodeState, input: bool) -> (output: EncoderOutput)
        ensures
            output == code_output::<C>(current as nat, input),
            output < pow2(C::spec_generators().len()),
    {
        proof {
            C::lemma_well_formed();
            lemma2_to64();
        }
        let mut output: usize = 0;
        let mut mask: usize = 1;
        let bit: usize = if input {
            1
        } else {
            0
        };
        proof {
            lemma_popcount_bound((current & C::FEEDBACK) as nat);
        }
        // Find the feedback sum
        let feedback_sum = (current & C::FEEDBACK).count_ones() as usize + bit;
        let generators = C::generators();
        let count = generators.len();
        let mut j: usize = 0;
        // Get the individual output for each generator and append to the final output
        while j < count
            invariant
                j <= count,
                generators@ == C::spec_generators(),
                count == generators@.len(),
                count <= usize::BITS,
                bit == bit_value(input),
                feedback_sum == popcount((current & C::FEEDBACK) as nat) + bit,
                feedback_sum <= 65,
                j < usize::BITS ==> mask == pow2(j as nat),
                output < pow2(j as nat),
                output == output_word(C::spec_generators().take(j as int), C::FEEDBACK as nat, current as nat, input),
            decreases count - j,
        {
            let poly = generators[j];
            proof {
                lemma_popcount_bound((current & poly) as nat);
            }
            let ones = (current & poly).count_ones() as usize;
            let total = feedback_sum + ones;
            let sum = total & 1;
            proof {
                lemma_low_bit(total, 0);
                lemma_popcount_and(current, C::FEEDBACK);
                lemma_popcount_and(current, poly);
                lemma_shift_bit(sum, j);
                lemma_bit_weight(sum as nat, j as nat);
                lemma_or_above(output, sum, j);
                lemma_pow2_unfold((j + 1) as nat);
                if j + 1 < usize::BITS {
                    lemma_shift_bit(1, (j + 1) as usize);
                    lemma2_to64();
                    vstd::bits::lemma_usize_shl_is_mul(mask, 1);
                }
                let taken = C::spec_generators().take(j + 1);
                assert(taken.drop_last() == C::spec_generators().take(j as int));
                assert(sum * mask <= mask) by (nonlinear_arith)
                    requires
                        sum <= 1,
                ;
            }
            output |= sum * mask;
            mask <<= 1;
            j += 1;
        }
        proof {
            assert(C::spec_generators().take(count as int) == C::spec_generators());
        }
        output
    }
}

impl<C: ConvolutionalCode> ConvolutionalCodeExt<C> for C {
}

} // verus!
