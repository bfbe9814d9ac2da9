//! The rate-matching puncturer.
use vstd::prelude::*;
use vstd::arithmetic::div_mod::{
    lemma_add_mod_noop,
    lemma_div_denominator,
    lemma_fundamental_div_mod,
    lemma_fundamental_div_mod_converse,
    lemma_mod_bound,
    lemma_small_mod,
};
use vstd::arithmetic::power2::{lemma2_to64, lemma_pow2_adds, lemma_pow2_pos, lemma_pow2_unfold, pow2};
use crate::bits::{bit_weight, lemma_bit_weight, lemma_low_bit, lemma_or_above, lemma_shift_bit};

verus! {

/// The pattern after one read: it is rotated by one bit, the lowest bit
/// entering again as the highest of the `width` bits.
pub open spec fn rotated_pattern(width: nat, pattern: nat) -> nat {
    pattern / 2 + bit_weight(pattern % 2, (width - 1) as nat)
}

/// The pattern after a number of reads.
pub open spec fn pattern_after(width: nat, pattern: nat, reads: nat) -> nat
    decreases reads,
{
    if reads == 0 {
        pattern
    } else {
        rotated_pattern(width, pattern_after(width, pattern, (reads - 1) as nat))
    }
}

/// The bit at a position of the pattern.
pub open spec fn pattern_bit(pattern: nat, position: nat) -> nat {
    (pattern / pow2(position)) % 2
}

/// The pattern rotated by `by` bits, where `by` is less than the width: the
/// bits from `by` upwards come down, and the `by` lowest bits go on top.
pub open spec fn rotated_by(width: nat, pattern: nat, by: nat) -> nat {
    pattern / pow2(by) + (pattern % pow2(by)) * pow2((width - by) as nat)
}

/// One more rotation of a rotated pattern.
proof fn lemma_rotate_once_more(width: nat, pattern: nat, by: nat)
    requires
        by < width,
        pattern < pow2(width),
    ensures
        rotated_pattern(width, rotated_by(width, pattern, by)) == rotated_by(
            width,
            pattern,
            (by + 1) % width,
        ),
        rotated_by(width, pattern, by) % 2 == pattern_bit(pattern, by),
        rotated_by(width, pattern, by) < pow2(width),
{
    let low = pow2(by);
    let high = pow2((width - by) as nat);
    let half = pow2((width - by - 1) as nat);
    let top = pow2((width - 1) as nat);
    let a = pattern / low;
    let b = pattern % low;
    lemma_pow2_pos(by);
    lemma_pow2_pos((width - by - 1) as nat);
    lemma_pow2_unfold((width - by) as nat);
    lemma_pow2_unfold(by + 1);
    lemma_pow2_adds(by, (width - by) as nat);
    lemma_pow2_adds(by, (width - by - 1) as nat);
    lemma_fundamental_div_mod(pattern as int, low as int);
    lemma_mod_bound(pattern as int, low as int);
    // the rotated pattern is a + b * high, and b * high is even
    let x = a + b * high;
    lemma_bit_weight(x % 2, (width - 1) as nat);
    assert(b * high == 2 * (b * half)) by (nonlinear_arith)
        requires
            high == 2 * half,
    ;
    assert(x % 2 == a % 2 && x / 2 == a / 2 + b * half);
    // a lies below the high bits: the pattern fits the width
    assert(a < high) by (nonlinear_arith)
        requires
            pattern == low * a + b,
            pattern < low * high,
            0 <= b,
            0 < low,
    ;
    assert(b * high <= (low - 1) * high) by (nonlinear_arith)
        requires
            0 <= b <= low - 1,
            0 < high,
    ;
    assert((low - 1) * high == low * high - high) by (nonlinear_arith);
    assert(x < pow2(width));
    let bit = a % 2;
    assert(bit * top == bit * (low * half)) by (nonlinear_arith)
        requires
            top == low * half,
    ;
    if by + 1 < width {
        lemma_small_mod(by + 1, width);
        lemma_div_denominator(pattern as int, low as int, 2);
        assert(low * 2 == 2 * low) by (nonlinear_arith);
        // the lowest by + 1 bits of the pattern are b and, on top of it, the lowest bit of a
        assert(pattern == (2 * low) * (a / 2) + (bit * low + b)) by (nonlinear_arith)
            requires
                pattern == low * a + b,
                a == 2 * (a / 2) + bit,
        ;
        assert(bit * low + b < 2 * low) by (nonlinear_arith)
            requires
                0 <= bit <= 1,
                0 <= b < low,
        ;
        lemma_fundamental_div_mod_converse(
            pattern as int,
            (2 * low) as int,
            (a / 2) as int,
            (bit * low + b) as int,
        );
        assert((bit * low + b) * half == bit * (low * half) + b * half) by (nonlinear_arith);
    } else {
        // the pattern has come round
        vstd::arithmetic::div_mod::lemma_mod_self_0(width as int);
        lemma2_to64();
        assert(high == 2 && half == 1 && a < 2 && a / 2 == 0);
        assert(b * half == b) by (nonlinear_arith)
            requires
                half == 1,
        ;
        assert(bit * (low * half) == a * low) by (nonlinear_arith)
            requires
                half == 1,
                bit == a,
        ;
        assert(a * low == low * a) by (nonlinear_arith);
        lemma_small_mod(pattern, pow2(width));
        assert(pattern / 1 == pattern && pattern % 1 == 0);
        assert(0 * pow2(width) == 0) by (nonlinear_arith);
    }
}

/// A bit of the pattern that is 1 punctures the output bits at its
/// position, counted modulo the width: after any number of reads the next
/// read decides by the bit of the pattern at that position.
pub proof fn lemma_pattern_after(width: nat, pattern: nat, reads: nat)
    requires
        1 <= width,
        pattern < pow2(width),
    ensures
        pattern_after(width, pattern, reads) == rotated_by(width, pattern, reads % width),
        pattern_after(width, pattern, reads) % 2 == pattern_bit(pattern, reads % width),
        pattern_after(width, pattern, reads) < pow2(width),
    decreases reads,
{
    if reads == 0 {
        lemma_small_mod(0, width);
        lemma2_to64();
        assert(pattern / 1 == pattern && pattern % 1 == 0);
        assert(0 * pow2(width) == 0) by (nonlinear_arith);
        assert(rotated_by(width, pattern, 0) == pattern);
        lemma_rotate_once_more(width, pattern, 0);
    } else {
        let before = (reads - 1) as nat;
        let by = before % width;
        lemma_pattern_after(width, pattern, before);
        lemma_mod_bound(before as int, width as int);
        lemma_rotate_once_more(width, pattern, by);
        lemma_add_mod_noop(before as int, 1, width as int);
        if width == 1 {
            assert(1int % 1 == 0);
            assert(reads % width == 0 && (by + 1) % width == 0);
        } else {
            lemma_small_mod(1, width);
        }
        assert((by + 1) % width == reads % width);
        lemma_mod_bound(reads as int, width as int);
        lemma_rotate_once_more(width, pattern, reads % width);
    }
}

/// Rate-matching puncturer: a pattern of `width` bits that is read bit by
/// bit, again and again. A one in the pattern punctures the output bit at
/// its position.
pub struct Puncturer {
    state: usize,
    /// The width of the puncturing pattern.
    width: usize,
}

impl Puncturer {
    #[verifier::type_invariant]
    spec fn well_formed(&self) -> bool {
        &&& 1 <= self.width <= usize::BITS
        &&& self.state < pow2(self.width as nat)
    }

    /// The width of the pattern.
    pub closed spec fn width(&self) -> nat {
        self.width as nat
    }

    /// The pattern as it stands: its lowest bit belongs to the next output bit.
    pub closed spec fn pattern(&self) -> nat {
        self.state as nat
    }

    /// Create a new puncturer.
    ///
    /// # Arguments
    ///
    /// * `width` - The width of the puncturing pattern
    /// * `pattern` - The puncturing pattern. Bit 0 (LSB) is the first bit in the puncture pattern, bit 1 the second, etc. up to `width` bits.
    ///
    /// # Examples
    /// Pattern 0b0010 (width: 4) will puncture bit 1 and output bit 0, 2 and 3.
    pub fn new(width: usize, pattern: usize) -> (puncturer: Self)
        requires
            1 <= width <= usize::BITS,
            pattern < pow2(width as nat),
        ensures
            puncturer.width() == width,
            puncturer.pattern() == pattern,
    {
        Self { state: pattern, width }
    }

    /// Get whether a bit should be output, i.e. not punctured.
    pub fn read_output(&mut self) -> (kept: bool)
        ensures
            kept == (old(self).pattern() % 2 == 0),
            final(self).width() == old(self).width(),
            final(self).pattern() == rotated_pattern(old(self).width(), old(self).pattern()),
    {
        proof {
            use_type_invariant(&*self);
        }
        let output = self.state & 1;
        let shift = self.width - 1;
        proof {
            lemma_low_bit(self.state, 0);
            lemma_pow2_unfold(self.width as nat);
            lemma_shift_bit(output, shift);
            lemma_bit_weight(output as nat, shift as nat);
            lemma_or_above(self.state >> 1, output, shift);
        }
        let state = (self.state >> 1) | (output << shift);
        *self = Self { state, width: self.width };
        output == 0
    }
}

impl Default for Puncturer {
    /// Create a default puncturer that does not puncture.
    fn default() -> (puncturer: Self)
        ensures
            puncturer.width() == 1,
            puncturer.pattern() == 0,
    {
        proof {
            vstd::arithmetic::power2::lemma2_to64();
        }
        Self { state: 0, width: 1 }
    }
}

} // verus!
