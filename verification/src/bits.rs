//! Bits of machine words as numbers: the facts that tie `&`, `|`, `^` and the
//! shifts to division, remainder and powers of two.
use vstd::prelude::*;
use vstd::arithmetic::power2::{lemma2_to64, lemma_pow2_unfold, pow2};
use vstd::bits::{lemma_usize_pow2_no_overflow, lemma_usize_shl_is_mul, lemma_usize_shr_is_div};

verus! {

/// The number of ones in the binary representation of `x`.
pub open spec fn popcount(x: nat) -> nat
    decreases x,
{
    if x == 0 {
        0
    } else {
        x % 2 + popcount(x / 2)
    }
}

/// `usize::count_ones` of std: the number of ones in the binary
/// representation of the value, as its documentation says.
pub assume_specification[ usize::count_ones ](x: usize) -> (ones: u32)
    ensures
        ones == popcount(x as nat),
;

/// `u32::count_ones` of std: the number of ones in the binary
/// representation of the value, as its documentation says.
pub assume_specification[ u32::count_ones ](x: u32) -> (ones: u32)
    ensures
        ones == popcount(x as nat),
;

/// A word has at most as many ones as it has bits.
pub proof fn lemma_popcount_bound(x: nat)
    ensures
        x <= usize::MAX ==> popcount(x) <= 64,
{
    lemma_popcount_below(x, 64);
    lemma2_to64();
    vstd::arithmetic::power2::lemma2_to64_rest();
}

/// A number below `2^n` has at most `n` ones.
proof fn lemma_popcount_below(x: nat, n: nat)
    ensures
        x < pow2(n) ==> popcount(x) <= n,
    decreases n,
{
    if n == 0 {
        lemma2_to64();
    } else {
        lemma_pow2_unfold(n);
        lemma_popcount_below(x / 2, (n - 1) as nat);
    }
}

/// A number whose `n` lowest bits are set, and no others, has `n` ones.
pub proof fn lemma_popcount_of_ones(n: nat)
    ensures
        popcount((pow2(n) - 1) as nat) == n,
    decreases n,
{
    if n == 0 {
        lemma2_to64();
    } else {
        lemma_pow2_unfold(n);
        vstd::arithmetic::power2::lemma_pow2_pos((n - 1) as nat);
        lemma_popcount_of_ones((n - 1) as nat);
    }
}

/// The ones of a number are the ones of its `n` lowest bits and the ones of the bits above.
pub proof fn lemma_popcount_of_parts(low: nat, high: nat, n: nat)
    requires
        low < pow2(n),
    ensures
        popcount(low + high * pow2(n)) == popcount(low) + popcount(high),
    decreases n,
{
    if n == 0 {
        lemma2_to64();
        assert(high * 1 == high) by (nonlinear_arith);
    } else {
        let half = pow2((n - 1) as nat);
        lemma_pow2_unfold(n);
        assert(high * (2 * half) == 2 * (high * half)) by (nonlinear_arith);
        lemma_popcount_of_parts(low / 2, high, (n - 1) as nat);
        if high == 0 {
            assert(0 * half == 0) by (nonlinear_arith);
        } else {
            assert(high * half >= half) by (nonlinear_arith)
                requires
                    high >= 1,
                    half >= 0,
            ;
            vstd::arithmetic::power2::lemma_pow2_pos((n - 1) as nat);
        }
    }
}

/// The value of a bit at a position of a binary number: the power of two of
/// the position if the bit is set, zero if not.
pub open spec fn bit_weight(bit: nat, position: nat) -> nat {
    if bit == 0 {
        0
    } else {
        pow2(position)
    }
}

/// The value of a bit at a position is the bit times the power of two of the position.
pub proof fn lemma_bit_weight(bit: nat, position: nat)
    requires
        bit <= 1,
    ensures
        bit_weight(bit, position) == bit * pow2(position),
{
    assert(0 * pow2(position) == 0 && 1 * pow2(position) == pow2(position)) by (nonlinear_arith);
}

/// One if the lowest bit of both `x` and `y` is set, zero if not.
pub open spec fn common_bit(x: nat, y: nat) -> nat {
    if x % 2 == 1 && y % 2 == 1 {
        1
    } else {
        0
    }
}

/// The parity, 0 or 1, of the number of bit positions at which both `x` and `y` hold a one.
pub open spec fn tap_parity(x: nat, y: nat) -> nat
    decreases x,
{
    if x == 0 {
        0
    } else {
        (common_bit(x, y) + tap_parity(x / 2, y / 2)) % 2
    }
}

/// The lowest bit and the remaining bits of a word and of the `&` of two words.
pub proof fn lemma_low_bit(x: usize, y: usize)
    by (bit_vector)
    ensures
        x & 1 == x % 2,
        x >> 1 == x / 2,
        y >> 1 == y / 2,
        (x & y) >> 1 == (x >> 1) & (y >> 1),
        (x & y) >> 1 == (x & y) / 2,
        x & y <= x,
{
}

/// The lowest bit of the `&` of two words is the product of their lowest bits.
pub proof fn lemma_low_bit_of_and(x: usize, y: usize)
    by (bit_vector)
    ensures
        (x & y) % 2 == (x % 2) * (y % 2),
{
}

/// `^` of two bits is their sum modulo two.
pub proof fn lemma_xor_of_bits(x: usize, y: usize)
    by (bit_vector)
    requires
        x <= 1,
        y <= 1,
    ensures
        x ^ y == (x + y) % 2,
{
}

/// `|` adds where the left operand lies below the bits of the right one.
pub proof fn lemma_or_above(low: usize, high: usize, shift: usize)
    by (bit_vector)
    requires
        shift < usize::BITS,
        low < (1usize << shift),
    ensures
        low | (high << shift) == low + (high << shift),
{
}

/// The parity of the ones of `x & y` is the parity of the common taps of `x` and `y`.
pub proof fn lemma_popcount_and(x: usize, y: usize)
    ensures
        popcount((x & y) as nat) % 2 == tap_parity(x as nat, y as nat),
    decreases x,
{
    lemma_low_bit(x, y);
    lemma_low_bit_of_and(x, y);
    if x != 0 {
        lemma_popcount_and(x / 2, y / 2);
        let z = x & y;
        assert(common_bit(x as nat, y as nat) == z % 2) by (nonlinear_arith)
            requires
                z % 2 == (x % 2) * (y % 2),
                0 <= x % 2 <= 1,
                0 <= y % 2 <= 1,
        ;
    }
}

/// A left shift of a bit is the bit times a power of two; one shifted is the power itself.
pub proof fn lemma_shift_bit(bit: usize, shift: usize)
    requires
        bit <= 1,
        shift < usize::BITS,
    ensures
        bit << shift == bit * pow2(shift as nat),
        1usize << shift == pow2(shift as nat),
        0 < pow2(shift as nat) <= usize::MAX,
{
    lemma_usize_pow2_no_overflow(shift as nat);
    assert(bit * pow2(shift as nat) <= pow2(shift as nat)) by (nonlinear_arith)
        requires
            bit <= 1,
    ;
    lemma_usize_shl_is_mul(bit, shift);
    lemma_usize_shl_is_mul(1, shift);
}

/// A right shift divides by a power of two.
pub proof fn lemma_shift_right(x: usize, shift: usize)
    requires
        shift < usize::BITS,
    ensures
        x >> shift == x as nat / pow2(shift as nat),
{
    lemma_usize_shr_is_div(x, shift);
}

} // verus!
