//! The packed state vector of the 8-state trellis of the UMTS code.
//!
//! The vector holds one signed 8-bit metric for each of the eight states,
//! packed into two 32-bit words: the low word holds the states 0 to 3, the
//! high word the states 4 to 7, each with the lower state in the lower byte.
//! The value -128 marks a state that cannot be reached.
use vstd::prelude::*;
use vstd::arithmetic::power2::pow2;
use crate::bits::{
    lemma_popcount_bound,
    lemma_popcount_of_ones,
    lemma_popcount_of_parts,
    popcount,
    tap_parity,
};
use crate::catalog::{lemma_umts, UMTS};
use crate::convolutional::code::{
    bit_value,
    code_next_state,
    code_output,
    output_word,
};
use crate::{saturate, Llr};
use super::decoder::{BcjrDecoder, BcjrState};
use super::packing::{
    byte0,
    byte1,
    byte2,
    byte3,
    lemma_bytes_bounded,
    lemma_packed_word,
    pack_word,
    packed_gamma,
    signed,
    unpack_word,
    word_lane,
};
use super::symbol::BcjrSymbol;

verus! {

/// The eight metrics that two words hold.
pub open spec fn packed_metrics(s74: u32, s30: u32) -> Seq<int> {
    Seq::new(
        8,
        |k: int|
            if k < 4 {
                word_lane(s30, k)
            } else {
                word_lane(s74, k - 4)
            },
    )
}

/// The saturating sum of two signed 8-bit values.
fn llr_saturating_add(x: i8, y: i8) -> (sum: i8)
    ensures
        sum == saturate(x + y),
{
    let wide = x as i16 + y as i16;
    if wide > 127 {
        127
    } else if wide < -128 {
        -128
    } else {
        wide as i8
    }
}

/// The saturating difference of two signed 8-bit values.
fn llr_saturating_sub(x: i8, y: i8) -> (difference: i8)
    ensures
        difference == saturate(x - y),
{
    let wide = x as i16 - y as i16;
    if wide > 127 {
        127
    } else if wide < -128 {
        -128
    } else {
        wide as i8
    }
}

/// The larger of two values.
pub open spec fn max(x: int, y: int) -> int {
    if x >= y {
        x
    } else {
        y
    }
}

/// The largest of eight metrics.
pub open spec fn max8(m: Seq<int>) -> int {
    max(max(max(m[0], m[1]), max(m[2], m[3])), max(max(m[4], m[5]), max(m[6], m[7])))
}

/// The sum of eight metrics.
pub open spec fn sum8(m: Seq<int>) -> int {
    m[0] + m[1] + m[2] + m[3] + m[4] + m[5] + m[6] + m[7]
}

/// The state that follows the state `s` on the input `u` in the trellis of the UMTS code.
pub open spec fn umts_successor(s: int, u: int) -> int {
    s / 2 + 4 * ((u + s % 2 + (s / 2) % 2) % 2)
}

/// The state from which the input `u` leads to the state `t`.
pub open spec fn umts_predecessor(t: int, u: int) -> int {
    2 * (t % 4) + (t / 4 + u + t % 2) % 2
}

/// The parity bit that the UMTS code puts out in the state `s` on the input `u`.
pub open spec fn umts_parity(s: int, u: int) -> int {
    (u + (s / 2) % 2 + (s / 4) % 2) % 2
}

/// The branch metric of the input `u` and the parity `v`, read from the packed word `g`:
/// byte 0 for (0, 0), byte 1 for (0, 1), byte 2 for (1, 0) and byte 3 for (1, 1).
pub open spec fn branch_metric(g: u32, u: int, v: int) -> int {
    word_lane(g, 2 * u + v)
}

/// The metric of the edge that leaves the state `s` on the input `u`.
pub open spec fn edge_metric(g: u32, s: int, u: int) -> int {
    branch_metric(g, u, umts_parity(s, u))
}

/// The forward step: each state takes the better of its two incoming edges.
pub open spec fn umts_next_alpha(alpha: Seq<int>, g: u32) -> Seq<int> {
    Seq::new(
        8,
        |t: int|
            max(
                saturate(alpha[umts_predecessor(t, 0)] + edge_metric(g, umts_predecessor(t, 0), 0)),
                saturate(alpha[umts_predecessor(t, 1)] + edge_metric(g, umts_predecessor(t, 1), 1)),
            ),
    )
}

/// The backward step: each state takes the better of its two outgoing edges.
pub open spec fn umts_previous_beta(beta: Seq<int>, g: u32) -> Seq<int> {
    Seq::new(
        8,
        |s: int|
            max(
                saturate(beta[umts_successor(s, 0)] + edge_metric(g, s, 0)),
                saturate(beta[umts_successor(s, 1)] + edge_metric(g, s, 1)),
            ),
    )
}

/// The metrics of the eight paths through a stage on the input `u`.
pub open spec fn umts_paths(g: u32, alpha: Seq<int>, beta: Seq<int>, u: int) -> Seq<int> {
    Seq::new(
        8,
        |s: int| saturate(saturate(alpha[s] + edge_metric(g, s, u)) + beta[umts_successor(s, u)]),
    )
}

/// The a-posteriori value of a stage: the best path on the input 1 against
/// the best path on the input 0.
pub open spec fn umts_aposteriori(g: u32, alpha: Seq<int>, beta: Seq<int>) -> int {
    saturate(max8(umts_paths(g, alpha, beta, 1)) - max8(umts_paths(g, alpha, beta, 0)))
}

/// The state `s` can be reached at the stage `index` of a trellis of
/// `symbol_count` stages that opens in the state 0 and closes in the state 0.
pub open spec fn umts_reachable(index: int, symbol_count: int, s: int) -> bool {
    if index == 0 {
        s == 0
    } else if index == 1 {
        s % 4 == 0
    } else if index == 2 {
        s % 2 == 0
    } else if index == symbol_count - 2 {
        s < 4
    } else if index == symbol_count - 1 {
        s < 2
    } else if index == symbol_count {
        s == 0
    } else {
        true
    }
}

/// The states that can be reached at the stage `index`, as one flag for each state.
pub open spec fn umts_reachable_states(index: int, symbol_count: int) -> Seq<bool> {
    Seq::new(8, |s: int| umts_reachable(index, symbol_count, s))
}

/// All eight states, as one flag for each state.
pub open spec fn all_states() -> Seq<bool> {
    Seq::new(8, |s: int| true)
}

/// The metrics with zero in place of the metrics of the states that are not valid.
pub open spec fn masked_metrics(metrics: Seq<int>, valid: Seq<bool>) -> Seq<int> {
    Seq::new(8, |s: int| if valid[s] { metrics[s] } else { 0 })
}

/// The number of valid states.
pub open spec fn valid_count(valid: Seq<bool>) -> int {
    sum8(Seq::new(8, |s: int| if valid[s] { 1int } else { 0int }))
}

/// The floor of the mean of the metrics of the valid states.
pub open spec fn valid_mean(metrics: Seq<int>, valid: Seq<bool>) -> int {
    sum8(masked_metrics(metrics, valid)) / valid_count(valid)
}

/// The metrics of the valid states less the floor of their mean, saturated,
/// and -128 for every other state.
pub open spec fn scaled_metrics(metrics: Seq<int>, valid: Seq<bool>) -> Seq<int> {
    Seq::new(
        8,
        |s: int| if valid[s] { saturate(metrics[s] - valid_mean(metrics, valid)) } else { -128 },
    )
}

/// The scaling where every state is valid.
pub open spec fn umts_all_scaled(metrics: Seq<int>) -> Seq<int> {
    scaled_metrics(metrics, all_states())
}

/// The scaling at the stage `index` of a trellis of `symbol_count` stages.
pub open spec fn umts_valid_scaled(metrics: Seq<int>, index: int, symbol_count: int) -> Seq<int> {
    scaled_metrics(metrics, umts_reachable_states(index, symbol_count))
}

/// The metrics of the states 1, 2, 5 and 6.
fn shuffle_inner(high: u32, low: u32) -> (w: u32)
    ensures
        byte0(w) == byte1(low),
        byte1(w) == byte2(low),
        byte2(w) == byte1(high),
        byte3(w) == byte2(high),
{
    let w = (high & 0x00FFFF00) << 8 | (low & 0x00FFFF00) >> 8;
    assert(byte0(w) == byte1(low) && byte1(w) == byte2(low) && byte2(w) == byte1(high) && byte3(w)
        == byte2(high)) by (bit_vector)
        requires
            w == (high & 0x00FFFF00) << 8 | (low & 0x00FFFF00) >> 8,
    ;
    w
}

/// The metrics of the states 0, 3, 4 and 7.
fn shuffle_outer(high: u32, low: u32) -> (w: u32)
    ensures
        byte0(w) == byte0(low),
        byte1(w) == byte3(low),
        byte2(w) == byte0(high),
        byte3(w) == byte3(high),
{
    let w = (high & 0xFF000000) | (high & 0x000000FF) << 16 | (low & 0xFF000000) >> 16 | (low
        & 0x000000FF);
    assert(byte0(w) == byte0(low) && byte1(w) == byte3(low) && byte2(w) == byte0(high) && byte3(w)
        == byte3(high)) by (bit_vector)
        requires
            w == (high & 0xFF000000) | (high & 0x000000FF) << 16 | (low & 0xFF000000) >> 16 | (low
                & 0x000000FF),
    ;
    w
}

/// The metrics of the successors of the states 4 to 7, where `near` holds
/// the states that the first input leads to and `far` the others.
fn shuffle_successors_high(near: u32, far: u32) -> (w: u32)
    ensures
        byte0(w) == byte2(far),
        byte1(w) == byte2(near),
        byte2(w) == byte3(near),
        byte3(w) == byte3(far),
{
    let w = (far & 0xFF000000) | (near & 0xFFFF0000) >> 8 | (far & 0x00FF0000) >> 16;
    assert(byte0(w) == byte2(far) && byte1(w) == byte2(near) && byte2(w) == byte3(near) && byte3(w)
        == byte3(far)) by (bit_vector)
        requires
            w == (far & 0xFF000000) | (near & 0xFFFF0000) >> 8 | (far & 0x00FF0000) >> 16,
    ;
    w
}

/// The metrics of the successors of the states 0 to 3.
fn shuffle_successors_low(near: u32, far: u32) -> (w: u32)
    ensures
        byte0(w) == byte0(far),
        byte1(w) == byte0(near),
        byte2(w) == byte1(near),
        byte3(w) == byte1(far),
{
    let w = (far & 0x0000FF00) << 16 | (near & 0x0000FFFF) << 8 | (far & 0x000000FF);
    assert(byte0(w) == byte0(far) && byte1(w) == byte0(near) && byte2(w) == byte1(near) && byte3(w)
        == byte1(far)) by (bit_vector)
        requires
            w == (far & 0x0000FF00) << 16 | (near & 0x0000FFFF) << 8 | (far & 0x000000FF),
    ;
    w
}

/// The branch metrics of the input 0 in the order of the states that the edges lead to.
fn align_forward_0(g: u32) -> (w: u32)
    ensures
        byte0(w) == byte0(g),
        byte1(w) == byte1(g),
        byte2(w) == byte1(g),
        byte3(w) == byte0(g),
{
    let w = (g & 0x000000FF) << 24 | (g & 0x0000FF00) << 8 | (g & 0x0000FFFF);
    assert(byte0(w) == byte0(g) && byte1(w) == byte1(g) && byte2(w) == byte1(g) && byte3(w)
        == byte0(g)) by (bit_vector)
        requires
            w == (g & 0x000000FF) << 24 | (g & 0x0000FF00) << 8 | (g & 0x0000FFFF),
    ;
    w
}

/// The branch metrics of the input 1 in the order of the states that the edges lead to.
fn align_forward_1(g: u32) -> (w: u32)
    ensures
        byte0(w) == byte3(g),
        byte1(w) == byte2(g),
        byte2(w) == byte2(g),
        byte3(w) == byte3(g),
{
    let w = (g & 0xFFFF0000) | (g & 0x00FF0000) >> 8 | (g & 0xFF000000) >> 24;
    assert(byte0(w) == byte3(g) && byte1(w) == byte2(g) && byte2(w) == byte2(g) && byte3(w)
        == byte3(g)) by (bit_vector)
        requires
            w == (g & 0xFFFF0000) | (g & 0x00FF0000) >> 8 | (g & 0xFF000000) >> 24,
    ;
    w
}

/// The branch metrics of the input 0 in the order of the states 4 to 7 that the edges leave.
fn align_backward_0_high(g: u32) -> (w: u32)
    ensures
        byte0(w) == byte1(g),
        byte1(w) == byte1(g),
        byte2(w) == byte0(g),
        byte3(w) == byte0(g),
{
    let w = (g & 0x000000FF) << 24 | (g & 0x000000FF) << 16 | (g & 0x0000FF00) | (g & 0x0000FF00)
        >> 8;
    assert(byte0(w) == byte1(g) && byte1(w) == byte1(g) && byte2(w) == byte0(g) && byte3(w)
        == byte0(g)) by (bit_vector)
        requires
            w == (g & 0x000000FF) << 24 | (g & 0x000000FF) << 16 | (g & 0x0000FF00) | (g
                & 0x0000FF00) >> 8,
    ;
    w
}

/// The branch metrics of the input 0 in the order of the states 0 to 3 that the edges leave.
fn align_backward_0_low(g: u32) -> (w: u32)
    ensures
        byte0(w) == byte0(g),
        byte1(w) == byte0(g),
        byte2(w) == byte1(g),
        byte3(w) == byte1(g),
{
    let w = (g & 0x0000FF00) << 16 | (g & 0x0000FFFF) << 8 | (g & 0x000000FF);
    assert(byte0(w) == byte0(g) && byte1(w) == byte0(g) && byte2(w) == byte1(g) && byte3(w)
        == byte1(g)) by (bit_vector)
        requires
            w == (g & 0x0000FF00) << 16 | (g & 0x0000FFFF) << 8 | (g & 0x000000FF),
    ;
    w
}

/// The branch metrics of the input 1 in the order of the states 4 to 7 that the edges leave.
fn align_backward_1_high(g: u32) -> (w: u32)
    ensures
        byte0(w) == byte2(g),
        byte1(w) == byte2(g),
        byte2(w) == byte3(g),
        byte3(w) == byte3(g),
{
    let w = (g & 0xFF000000) | (g & 0xFFFF0000) >> 8 | (g & 0x00FF0000) >> 16;
    assert(byte0(w) == byte2(g) && byte1(w) == byte2(g) && byte2(w) == byte3(g) && byte3(w)
        == byte3(g)) by (bit_vector)
        requires
            w == (g & 0xFF000000) | (g & 0xFFFF0000) >> 8 | (g & 0x00FF0000) >> 16,
    ;
    w
}

/// The branch metrics of the input 1 in the order of the states 0 to 3 that the edges leave.
fn align_backward_1_low(g: u32) -> (w: u32)
    ensures
        byte0(w) == byte3(g),
        byte1(w) == byte3(g),
        byte2(w) == byte2(g),
        byte3(w) == byte2(g),
{
    let w = (g & 0x00FF0000) << 8 | (g & 0x00FF0000) | (g & 0xFF000000) >> 16 | (g & 0xFF000000)
        >> 24;
    assert(byte0(w) == byte3(g) && byte1(w) == byte3(g) && byte2(w) == byte2(g) && byte3(w)
        == byte2(g)) by (bit_vector)
        requires
            w == (g & 0x00FF0000) << 8 | (g & 0x00FF0000) | (g & 0xFF000000) >> 16 | (g
                & 0xFF000000) >> 24,
    ;
    w
}

/// The bytes of the words that the masks are made of.
proof fn lemma_constant_bytes()
    by (bit_vector)
    ensures
        byte0(0x00000000) == 0 && byte1(0x00000000) == 0 && byte2(0x00000000) == 0 && byte3(0x00000000) == 0,
        byte0(0x000000FF) == 255 && byte1(0x000000FF) == 0 && byte2(0x000000FF) == 0 && byte3(0x000000FF) == 0,
        byte0(0x0000FFFF) == 255 && byte1(0x0000FFFF) == 255 && byte2(0x0000FFFF) == 0 && byte3(0x0000FFFF) == 0,
        byte0(0x00FF00FF) == 255 && byte1(0x00FF00FF) == 0 && byte2(0x00FF00FF) == 255 && byte3(0x00FF00FF) == 0,
        byte0(0xFFFFFFFF) == 255 && byte1(0xFFFFFFFF) == 255 && byte2(0xFFFFFFFF) == 255 && byte3(0xFFFFFFFF) == 255,
{
}

/// The number of ones of the words that the masks are made of.
proof fn lemma_constant_ones()
    ensures
        popcount(0x00000000) == 0,
        popcount(0x000000FF) == 8,
        popcount(0x0000FFFF) == 16,
        popcount(0x00FF00FF) == 16,
        popcount(0xFFFFFFFF) == 32,
{
    vstd::arithmetic::power2::lemma2_to64();
    lemma_popcount_of_ones(8);
    lemma_popcount_of_ones(16);
    lemma_popcount_of_ones(32);
    lemma_popcount_of_parts(0xFF, 0xFF, 16);
    assert(0xFF * pow2(16) == 0xFF0000) by (nonlinear_arith)
        requires
            pow2(16) == 0x10000,
    ;
}

/// The bytes of a word under a mask whose bytes are all ones or all zeros:
/// what `&` keeps, and what is left after the masked bytes are marked as unreachable.
proof fn lemma_masked_bytes(w: u32, mask: u32)
    by (bit_vector)
    requires
        byte0(mask) == 0 || byte0(mask) == 255,
        byte1(mask) == 0 || byte1(mask) == 255,
        byte2(mask) == 0 || byte2(mask) == 255,
        byte3(mask) == 0 || byte3(mask) == 255,
    ensures
        byte0(w & mask) == (if byte0(mask) == 255 { byte0(w) } else { 0 }),
        byte1(w & mask) == (if byte1(mask) == 255 { byte1(w) } else { 0 }),
        byte2(w & mask) == (if byte2(mask) == 255 { byte2(w) } else { 0 }),
        byte3(w & mask) == (if byte3(mask) == 255 { byte3(w) } else { 0 }),
        byte0((w & mask) | (0x80808080 & !mask)) == (if byte0(mask) == 255 { byte0(w) } else { 128 }),
        byte1((w & mask) | (0x80808080 & !mask)) == (if byte1(mask) == 255 { byte1(w) } else { 128 }),
        byte2((w & mask) | (0x80808080 & !mask)) == (if byte2(mask) == 255 { byte2(w) } else { 128 }),
        byte3((w & mask) | (0x80808080 & !mask)) == (if byte3(mask) == 255 { byte3(w) } else { 128 }),
{
}

/// The soft decoder with the packed state vector of the UMTS code.
pub type UmtsBcjrDecoder<C> = BcjrDecoder<C, UmtsState>;

/// The state vector of the 8-state trellis of the UMTS code.
#[derive(Clone, Copy, Debug)]
pub struct UmtsState {
    s74: u32,
    s30: u32,
}

impl View for UmtsState {
    type V = Seq<int>;

    /// The metrics of the eight states.
    closed spec fn view(&self) -> Seq<int> {
        packed_metrics(self.s74, self.s30)
    }
}

impl UmtsState {
    /// The vector that the two words hold: `s74` the states 7 to 4, `s30` the states 3 to 0.
    pub fn new(s74: u32, s30: u32) -> (state: Self)
        ensures
            state@ == packed_metrics(s74, s30),
    {
        Self { s74, s30 }
    }

    /// A state vector holds eight metrics, each a signed 8-bit value.
    pub proof fn lemma_metrics(self)
        ensures
            self@.len() == 8,
            forall|k: int| 0 <= k < 8 ==> -128 <= #[trigger] self@[k] <= 127,
    {
        lemma_bytes_bounded(self.s74);
        lemma_bytes_bounded(self.s30);
    }

    /// The lane-wise saturating sum.
    pub fn simd_saturating_add(left: Self, right: Self) -> (sum: Self)
        ensures
            sum@ == Seq::new(8, |k: int| saturate(left@[k] + right@[k])),
    {
        let (a0, a1, a2, a3) = unpack_word(left.s30);
        let (a4, a5, a6, a7) = unpack_word(left.s74);
        let (b0, b1, b2, b3) = unpack_word(right.s30);
        let (b4, b5, b6, b7) = unpack_word(right.s74);
        let s30 = pack_word(
            llr_saturating_add(a0, b0),
            llr_saturating_add(a1, b1),
            llr_saturating_add(a2, b2),
            llr_saturating_add(a3, b3),
        );
        let s74 = pack_word(
            llr_saturating_add(a4, b4),
            llr_saturating_add(a5, b5),
            llr_saturating_add(a6, b6),
            llr_saturating_add(a7, b7),
        );
        let sum = Self { s74, s30 };
        assert(sum@ =~= Seq::new(8, |k: int| saturate(left@[k] + right@[k])));
        sum
    }

    /// The lane-wise saturating difference.
    pub fn simd_saturating_sub(left: Self, right: Self) -> (difference: Self)
        ensures
            difference@ == Seq::new(8, |k: int| saturate(left@[k] - right@[k])),
    {
        let (a0, a1, a2, a3) = unpack_word(left.s30);
        let (a4, a5, a6, a7) = unpack_word(left.s74);
        let (b0, b1, b2, b3) = unpack_word(right.s30);
        let (b4, b5, b6, b7) = unpack_word(right.s74);
        let s30 = pack_word(
            llr_saturating_sub(a0, b0),
            llr_saturating_sub(a1, b1),
            llr_saturating_sub(a2, b2),
            llr_saturating_sub(a3, b3),
        );
        let s74 = pack_word(
            llr_saturating_sub(a4, b4),
            llr_saturating_sub(a5, b5),
            llr_saturating_sub(a6, b6),
            llr_saturating_sub(a7, b7),
        );
        let difference = Self { s74, s30 };
        assert(difference@ =~= Seq::new(8, |k: int| saturate(left@[k] - right@[k])));
        difference
    }

    /// The lane-wise maximum.
    pub fn simd_max(x: Self, y: Self) -> (largest: Self)
        ensures
            largest@ == Seq::new(8, |k: int| max(x@[k], y@[k])),
    {
        let (a0, a1, a2, a3) = unpack_word(x.s30);
        let (a4, a5, a6, a7) = unpack_word(x.s74);
        let (b0, b1, b2, b3) = unpack_word(y.s30);
        let (b4, b5, b6, b7) = unpack_word(y.s74);
        let s30 = pack_word(
            if a0 >= b0 { a0 } else { b0 },
            if a1 >= b1 { a1 } else { b1 },
            if a2 >= b2 { a2 } else { b2 },
            if a3 >= b3 { a3 } else { b3 },
        );
        let s74 = pack_word(
            if a4 >= b4 { a4 } else { b4 },
            if a5 >= b5 { a5 } else { b5 },
            if a6 >= b6 { a6 } else { b6 },
            if a7 >= b7 { a7 } else { b7 },
        );
        let largest = Self { s74, s30 };
        assert(largest@ =~= Seq::new(8, |k: int| max(x@[k], y@[k])));
        largest
    }

    /// The largest metric.
    pub fn reduce_max(self) -> (largest: i8)
        ensures
            largest == max8(self@),
    {
        let (a0, a1, a2, a3) = unpack_word(self.s30);
        let (a4, a5, a6, a7) = unpack_word(self.s74);
        let m01 = if a0 >= a1 { a0 } else { a1 };
        let m23 = if a2 >= a3 { a2 } else { a3 };
        let m45 = if a4 >= a5 { a4 } else { a5 };
        let m67 = if a6 >= a7 { a6 } else { a7 };
        let m03 = if m01 >= m23 { m01 } else { m23 };
        let m47 = if m45 >= m67 { m45 } else { m67 };
        if m03 >= m47 { m03 } else { m47 }
    }

    /// The sum of the metrics.
    pub fn reduce_sum(self) -> (sum: i16)
        ensures
            sum == sum8(self@),
    {
        let (a0, a1, a2, a3) = unpack_word(self.s30);
        let (a4, a5, a6, a7) = unpack_word(self.s74);
        a0 as i16 + a1 as i16 + a2 as i16 + a3 as i16 + a4 as i16 + a5 as i16 + a6 as i16
            + a7 as i16
    }

    /// The metrics of the states from which the input 0 leads to each state.
    fn predecessors_0(self) -> (aligned: Self)
        ensures
            aligned@ == Seq::new(8, |t: int| self@[umts_predecessor(t, 0)]),
    {
        let aligned = Self {
            s74: shuffle_inner(self.s74, self.s30),
            s30: shuffle_outer(self.s74, self.s30),
        };
        proof {
            let expected = Seq::new(8, |t: int| self@[umts_predecessor(t, 0)]);
            assert(aligned@ =~= expected);
        }
        aligned
    }

    /// The metrics of the states from which the input 1 leads to each state.
    fn predecessors_1(self) -> (aligned: Self)
        ensures
            aligned@ == Seq::new(8, |t: int| self@[umts_predecessor(t, 1)]),
    {
        let aligned = Self {
            s74: shuffle_outer(self.s74, self.s30),
            s30: shuffle_inner(self.s74, self.s30),
        };
        proof {
            let expected = Seq::new(8, |t: int| self@[umts_predecessor(t, 1)]);
            assert(aligned@ =~= expected);
        }
        aligned
    }

    /// The metrics of the states to which the input 0 leads from each state.
    fn successors_0(self) -> (aligned: Self)
        ensures
            aligned@ == Seq::new(8, |s: int| self@[umts_successor(s, 0)]),
    {
        let aligned = Self {
            s74: shuffle_successors_high(self.s74, self.s30),
            s30: shuffle_successors_low(self.s74, self.s30),
        };
        proof {
            let expected = Seq::new(8, |s: int| self@[umts_successor(s, 0)]);
            assert(aligned@ =~= expected);
        }
        aligned
    }

    /// The metrics of the states to which the input 1 leads from each state.
    fn successors_1(self) -> (aligned: Self)
        ensures
            aligned@ == Seq::new(8, |s: int| self@[umts_successor(s, 1)]),
    {
        let aligned = Self {
            s74: shuffle_successors_high(self.s30, self.s74),
            s30: shuffle_successors_low(self.s30, self.s74),
        };
        proof {
            let expected = Seq::new(8, |s: int| self@[umts_successor(s, 1)]);
            assert(aligned@ =~= expected);
        }
        aligned
    }

    /// The metrics of the edges on which the input 0 leads to each state.
    fn incoming_edges_0(g: u32) -> (aligned: Self)
        ensures
            aligned@ == Seq::new(8, |t: int| edge_metric(g, umts_predecessor(t, 0), 0)),
    {
        let aligned = Self { s74: align_forward_0(g), s30: align_forward_0(g) };
        proof {
            let expected = Seq::new(8, |t: int| edge_metric(g, umts_predecessor(t, 0), 0));
            assert(aligned@ =~= expected);
        }
        aligned
    }

    /// The metrics of the edges on which the input 1 leads to each state.
    fn incoming_edges_1(g: u32) -> (aligned: Self)
        ensures
            aligned@ == Seq::new(8, |t: int| edge_metric(g, umts_predecessor(t, 1), 1)),
    {
        let aligned = Self { s74: align_forward_1(g), s30: align_forward_1(g) };
        proof {
            let expected = Seq::new(8, |t: int| edge_metric(g, umts_predecessor(t, 1), 1));
            assert(aligned@ =~= expected);
        }
        aligned
    }

    /// The metrics of the edges that leave each state on the input 0.
    fn outgoing_edges_0(g: u32) -> (aligned: Self)
        ensures
            aligned@ == Seq::new(8, |s: int| edge_metric(g, s, 0)),
    {
        let aligned = Self { s74: align_backward_0_high(g), s30: align_backward_0_low(g) };
        proof {
            let expected = Seq::new(8, |s: int| edge_metric(g, s, 0));
            assert(aligned@ =~= expected);
        }
        aligned
    }

    /// The metrics of the edges that leave each state on the input 1.
    fn outgoing_edges_1(g: u32) -> (aligned: Self)
        ensures
            aligned@ == Seq::new(8, |s: int| edge_metric(g, s, 1)),
    {
        let aligned = Self { s74: align_backward_1_high(g), s30: align_backward_1_low(g) };
        proof {
            let expected = Seq::new(8, |s: int| edge_metric(g, s, 1));
            assert(aligned@ =~= expected);
        }
        aligned
    }

    /// The number of ones of the two words.
    closed spec fn ones(self) -> nat {
        popcount(self.s74 as nat) + popcount(self.s30 as nat)
    }

    /// The vector is a mask: the lanes of the valid states hold -1, the others 0.
    spec fn is_mask(self, valid: Seq<bool>) -> bool {
        &&& self@ == Seq::new(8, |s: int| if valid[s] { -1int } else { 0int })
        &&& self.ones() == 8 * valid_count(valid)
    }

    /// The number of ones of the two words.
    fn count_ones(self) -> (ones: u32)
        ensures
            ones == self.ones(),
    {
        proof {
            lemma_popcount_bound(self.s74 as nat);
            lemma_popcount_bound(self.s30 as nat);
        }
        self.s74.count_ones() + self.s30.count_ones()
    }

    /// The mask of the states that can be reached at the stage `index`.
    fn get_mask(index: usize, symbol_count: usize) -> (mask: Self)
        ensures
            mask.is_mask(umts_reachable_states(index as int, symbol_count as int)),
    {
        let mask = if index == 0 {
            Self { s74: 0x00000000, s30: 0x000000FF }  // S0 is valid
        } else if index == 1 {
            Self { s74: 0x000000FF, s30: 0x000000FF }  // S0 and S4 are valid
        } else if index == 2 {
            Self { s74: 0x00FF00FF, s30: 0x00FF00FF }  // S0, S2, S4 and S6 are valid
        } else if symbol_count >= 2 && index == symbol_count - 2 {
            Self { s74: 0x00000000, s30: 0xFFFFFFFF }  // S0, S1, S2 and S3 are valid
        } else if symbol_count >= 1 && index == symbol_count - 1 {
            Self { s74: 0x00000000, s30: 0x0000FFFF }  // S0 and S1 are valid
        } else if index == symbol_count {
            Self { s74: 0x00000000, s30: 0x000000FF }  // S0 is valid
        } else {
            Self { s74: 0xFFFFFFFF, s30: 0xFFFFFFFF }  // All states are valid
        };
        proof {
            lemma_constant_bytes();
            lemma_constant_ones();
            let valid = umts_reachable_states(index as int, symbol_count as int);
            assert(mask@ =~= Seq::new(8, |s: int| if valid[s] { -1int } else { 0int }));
        }
        mask
    }

    /// Get the scale coefficients so that all values across all states sum to 0 as log(1) = 0.
    fn get_scale_coefficients(masked_unscaled: Self, valid_state_count: usize) -> (coefficients: Self)
        requires
            1 <= valid_state_count <= 8,
            -128 * valid_state_count <= sum8(masked_unscaled@) <= 127 * valid_state_count,
        ensures
            coefficients@ == Seq::new(8, |s: int| sum8(masked_unscaled@) / (valid_state_count as int)),
    {
        let sum = masked_unscaled.reduce_sum();
        let count = valid_state_count as i16;
        let quotient = if sum >= 0 {
            sum / count
        } else {
            -((-sum + count - 1) / count)
        };
        proof {
            let n = count as int;
            if sum < 0 {
                let up = (-sum + n - 1) / n;
                vstd::arithmetic::div_mod::lemma_fundamental_div_mod(-sum + n - 1, n);
                vstd::arithmetic::div_mod::lemma_mod_bound(-sum + n - 1, n);
                assert(n * (-up) == -(n * up)) by (nonlinear_arith);
                vstd::arithmetic::div_mod::lemma_fundamental_div_mod_converse(
                    sum as int,
                    n,
                    -up,
                    n - 1 - (-sum + n - 1) % n,
                );
            }
            assert(quotient == sum as int / n);
            vstd::arithmetic::div_mod::lemma_div_is_ordered(-128 * n, sum as int, n);
            vstd::arithmetic::div_mod::lemma_div_is_ordered(sum as int, 127 * n, n);
            vstd::arithmetic::div_mod::lemma_div_multiples_vanish(-128, n);
            vstd::arithmetic::div_mod::lemma_div_multiples_vanish(127, n);
            assert(n * -128 == -128 * n && n * 127 == 127 * n) by (nonlinear_arith);
        }
        let coeff = quotient as i8;
        let word = pack_word(coeff, coeff, coeff, coeff);
        let coefficients = Self::new(word, word);
        assert(coefficients@ =~= Seq::new(
            8,
            |s: int| sum8(masked_unscaled@) / (valid_state_count as int),
        ));
        coefficients
    }
}

/// What the saturation cuts off the metrics of the valid states when the
/// floor of their mean is taken off them: zero where no metric leaves the
/// range of a signed 8-bit value.
pub open spec fn saturation_excess(metrics: Seq<int>, valid: Seq<bool>) -> int {
    let mean = valid_mean(metrics, valid);
    sum8(
        Seq::new(
            8,
            |s: int|
                if valid[s] {
                    saturate(metrics[s] - mean) - (metrics[s] - mean)
                } else {
                    0
                },
        ),
    )
}

/// After the scaling the states that are not valid hold -128, and the
/// metrics of the valid states sum up to the remainder that the division of
/// their sum by their number left, and to what the saturation cut off.
pub proof fn lemma_scaled_metrics_sum(metrics: Seq<int>, valid: Seq<bool>)
    requires
        metrics.len() == 8,
        valid.len() == 8,
        valid_count(valid) > 0,
    ensures
        forall|s: int| 0 <= s < 8 && !valid[s] ==> #[trigger] scaled_metrics(metrics, valid)[s] == -128,
        sum8(masked_metrics(scaled_metrics(metrics, valid), valid)) == sum8(
            masked_metrics(metrics, valid),
        ) % valid_count(valid) + saturation_excess(metrics, valid),
        0 <= sum8(masked_metrics(metrics, valid)) % valid_count(valid) < valid_count(valid),
{
    let mean = valid_mean(metrics, valid);
    let count = valid_count(valid);
    let sum = sum8(masked_metrics(metrics, valid));
    let scaled = scaled_metrics(metrics, valid);
    let flags = Seq::new(8, |s: int| if valid[s] { 1int } else { 0int });
    let means = Seq::new(8, |s: int| flags[s] * mean);
    let excess = Seq::new(
        8,
        |s: int|
            if valid[s] {
                saturate(metrics[s] - mean) - (metrics[s] - mean)
            } else {
                0
            },
    );
    assert forall|s: int| 0 <= s < 8 implies masked_metrics(scaled, valid)[s] == masked_metrics(
        metrics,
        valid,
    )[s] - #[trigger] means[s] + excess[s] by {
        assert(flags[s] * mean == if valid[s] { mean } else { 0 }) by (nonlinear_arith)
            requires
                flags[s] == if valid[s] { 1int } else { 0int },
        ;
    }
    assert(means[0] + means[1] + means[2] + means[3] + means[4] + means[5] + means[6] + means[7]
        == count * mean) by (nonlinear_arith)
        requires
            means[0] == flags[0] * mean,
            means[1] == flags[1] * mean,
            means[2] == flags[2] * mean,
            means[3] == flags[3] * mean,
            means[4] == flags[4] * mean,
            means[5] == flags[5] * mean,
            means[6] == flags[6] * mean,
            means[7] == flags[7] * mean,
            count == flags[0] + flags[1] + flags[2] + flags[3] + flags[4] + flags[5] + flags[6]
                + flags[7],
    ;
    vstd::arithmetic::div_mod::lemma_fundamental_div_mod(sum, count);
    vstd::arithmetic::div_mod::lemma_mod_bound(sum, count);
    assert(sum8(masked_metrics(scaled, valid)) == sum - count * mean + sum8(excess));
}

/// After the scaling the metrics of the valid states sum up to less than
/// their number, and to no less than zero, if none of them left the range
/// of a signed 8-bit value when the mean was taken off.
pub proof fn lemma_scaled_metrics_are_normalized(metrics: Seq<int>, valid: Seq<bool>)
    requires
        metrics.len() == 8,
        valid.len() == 8,
        valid_count(valid) > 0,
        forall|s: int|
            0 <= s < 8 && valid[s] ==> -128 <= #[trigger] metrics[s] - valid_mean(metrics, valid)
                <= 127,
    ensures
        0 <= sum8(masked_metrics(scaled_metrics(metrics, valid), valid)) < valid_count(valid),
{
    lemma_scaled_metrics_sum(metrics, valid);
    let mean = valid_mean(metrics, valid);
    let excess = Seq::new(
        8,
        |s: int|
            if valid[s] {
                saturate(metrics[s] - mean) - (metrics[s] - mean)
            } else {
                0
            },
    );
    assert forall|s: int| 0 <= s < 8 implies #[trigger] excess[s] == 0 by {
        assert(-128 <= metrics[s] - mean <= 127 || !valid[s]);
    }
}

/// The scaling at a stage of a trellis, where no metric of a state that can
/// be reached leaves the range of a signed 8-bit value: the states that
/// cannot be reached hold -128, the others their metric less the floor of
/// the mean of the metrics of these states, and the scaled metrics of these
/// states sum up to less than their number, and to no less than zero.
pub proof fn lemma_valid_scaled_is_normalized(metrics: Seq<int>, index: int, symbol_count: int)
    requires
        metrics.len() == 8,
        forall|s: int|
            0 <= s < 8 && umts_reachable(index, symbol_count, s) ==> -128 <= #[trigger] metrics[s]
                - valid_mean(metrics, umts_reachable_states(index, symbol_count)) <= 127,
    ensures
        forall|s: int|
            0 <= s < 8 && !umts_reachable(index, symbol_count, s) ==> #[trigger] umts_valid_scaled(
                metrics,
                index,
                symbol_count,
            )[s] == -128,
        forall|s: int|
            0 <= s < 8 && umts_reachable(index, symbol_count, s) ==> #[trigger] umts_valid_scaled(
                metrics,
                index,
                symbol_count,
            )[s] == metrics[s] - valid_mean(metrics, umts_reachable_states(index, symbol_count)),
        0 <= sum8(
            masked_metrics(
                umts_valid_scaled(metrics, index, symbol_count),
                umts_reachable_states(index, symbol_count),
            ),
        ) < valid_count(umts_reachable_states(index, symbol_count)),
        1 <= valid_count(umts_reachable_states(index, symbol_count)) <= 8,
{
    let valid = umts_reachable_states(index, symbol_count);
    assert(valid[0]);
    assert(valid_count(valid) >= 1);
    assert forall|s: int| 0 <= s < 8 && valid[s] implies -128 <= #[trigger] metrics[s] - valid_mean(
        metrics,
        valid,
    ) <= 127 by {
        assert(umts_reachable(index, symbol_count, s));
    }
    lemma_scaled_metrics_are_normalized(metrics, valid);
}

/// The branch metrics that the state vector reads from the packed word of a
/// symbol: zero for the pair (0, 0), the parity value for (0, 1), the sum of
/// the a-priori and the systematic value for (1, 0), and the sum of all
/// three for (1, 1), each saturated.
pub proof fn lemma_branch_metrics(symbol: BcjrSymbol)
    ensures
        branch_metric(packed_gamma(symbol), 0, 0) == 0,
        branch_metric(packed_gamma(symbol), 0, 1) == symbol.parity,
        branch_metric(packed_gamma(symbol), 1, 0) == saturate(symbol.apriori + symbol.systematic),
        branch_metric(packed_gamma(symbol), 1, 1) == saturate(
            symbol.parity + symbol.apriori + symbol.systematic,
        ),
{
    lemma_packed_word(
        0,
        saturate(symbol.parity as int),
        saturate(symbol.apriori + symbol.systematic),
        saturate(symbol.parity + symbol.apriori + symbol.systematic),
    );
}

/// The trellis of the packed state vector is the trellis of the UMTS code:
/// its successors and its parity bits are those of the code, each state is
/// the predecessor of its successors, and the code is systematic.
pub proof fn lemma_umts_trellis(s: int, input: bool)
    requires
        0 <= s < 8,
    ensures
        umts_successor(s, bit_value(input) as int) == code_next_state::<UMTS>(s as nat, input),
        umts_parity(s, bit_value(input) as int) == (code_output::<UMTS>(s as nat, input) / 2) % 2,
        code_output::<UMTS>(s as nat, input) % 2 == bit_value(input),
        umts_predecessor(umts_successor(s, bit_value(input) as int), bit_value(input) as int) == s,
        0 <= umts_successor(s, bit_value(input) as int) < 8,
{
    reveal_with_fuel(tap_parity, 5);
    reveal_with_fuel(output_word, 3);
    vstd::arithmetic::power2::lemma2_to64();
    lemma_umts();
}

impl BcjrState for UmtsState {
    open spec fn metrics(self) -> Seq<int> {
        self@
    }

    open spec fn spec_zero() -> Seq<int> {
        Seq::new(8, |s: int| 0int)
    }

    open spec fn spec_next_alpha(metrics: Seq<int>, g: u32) -> Seq<int> {
        umts_next_alpha(metrics, g)
    }

    open spec fn spec_previous_beta(metrics: Seq<int>, g: u32) -> Seq<int> {
        umts_previous_beta(metrics, g)
    }

    open spec fn spec_aposteriori(g: u32, a: Seq<int>, b: Seq<int>) -> int {
        umts_aposteriori(g, a, b)
    }

    open spec fn spec_all_scaled(metrics: Seq<int>) -> Seq<int> {
        umts_all_scaled(metrics)
    }

    open spec fn spec_valid_scaled(metrics: Seq<int>, index: int, symbol_count: int) -> Seq<int> {
        umts_valid_scaled(metrics, index, symbol_count)
    }

    fn zero() -> (state: Self) {
        let state = Self::new(0, 0);
        proof {
            lemma_constant_bytes();
        }
        assert(state@ =~= Self::spec_zero());
        state
    }

    fn get_next_alpha(self, g: u32) -> (next: Self) {
        // Case when u=0 is transmitted
        let a0 = Self::simd_saturating_add(self.predecessors_0(), Self::incoming_edges_0(g));
        // Case when u=1 is transmitted
        let a1 = Self::simd_saturating_add(self.predecessors_1(), Self::incoming_edges_1(g));
        let next = Self::simd_max(a0, a1);
        assert(next@ =~= umts_next_alpha(self@, g));
        next
    }

    fn get_previous_beta(self, g: u32) -> (previous: Self) {
        // Case when u=0 is transmitted
        let b0 = Self::simd_saturating_add(self.successors_0(), Self::outgoing_edges_0(g));
        // Case when u=1 is transmitted
        let b1 = Self::simd_saturating_add(self.successors_1(), Self::outgoing_edges_1(g));
        let previous = Self::simd_max(b0, b1);
        assert(previous@ =~= umts_previous_beta(self@, g));
        previous
    }

    fn get_aposteriori(g: u32, a: Self, b: Self) -> (llr: Llr) {
        // Align g and B for u=0 according to A
        let sum0 = Self::simd_saturating_add(
            Self::simd_saturating_add(a, Self::outgoing_edges_0(g)),
            b.successors_0(),
        );
        let max0 = sum0.reduce_max();
        // Align g and B for u=1 according to A
        let sum1 = Self::simd_saturating_add(
            Self::simd_saturating_add(a, Self::outgoing_edges_1(g)),
            b.successors_1(),
        );
        let max1 = sum1.reduce_max();
        proof {
            assert(sum0@ =~= umts_paths(g, a@, b@, 0));
            assert(sum1@ =~= umts_paths(g, a@, b@, 1));
        }
        let difference = max1 as i32 - max0 as i32;
        if difference > 127 {
            127
        } else if difference < -128 {
            -128
        } else {
            difference as i8
        }
    }

    fn get_all_scaled(self) -> (scaled: Self) {
        proof {
            self.lemma_metrics();
        }
        assert(masked_metrics(self@, all_states()) =~= self@);
        let coefficients = Self::get_scale_coefficients(self, 8);
        let scaled = Self::simd_saturating_sub(self, coefficients);
        assert(scaled@ =~= umts_all_scaled(self@));
        scaled
    }

    fn get_valid_scaled(self, index: usize, symbol_count: usize) -> (scaled: Self) {
        let mask = Self::get_mask(index, symbol_count);
        let valid_state_count = mask.count_ones() as usize / 8;
        let ghost valid = umts_reachable_states(index as int, symbol_count as int);
        let masked = Self::new(self.s74 & mask.s74, self.s30 & mask.s30);
        proof {
            self.lemma_metrics();
            lemma_bytes_bounded(mask.s74);
            lemma_bytes_bounded(mask.s30);
            assert(mask@[0] >= -1 && mask@[1] >= -1 && mask@[2] >= -1 && mask@[3] >= -1);
            assert(mask@[4] >= -1 && mask@[5] >= -1 && mask@[6] >= -1 && mask@[7] >= -1);
            lemma_masked_bytes(self.s74, mask.s74);
            lemma_masked_bytes(self.s30, mask.s30);
            assert(masked@ =~= masked_metrics(self@, valid));
        }
        let coefficients = Self::get_scale_coefficients(masked, valid_state_count);
        let scaled = Self::simd_saturating_sub(masked, coefficients);
        let invalidated = Self::new(
            (scaled.s74 & mask.s74) | (0x80808080 & !mask.s74),
            (scaled.s30 & mask.s30) | (0x80808080 & !mask.s30),
        );
        proof {
            lemma_masked_bytes(scaled.s74, mask.s74);
            lemma_masked_bytes(scaled.s30, mask.s30);
            let expected = umts_valid_scaled(self@, index as int, symbol_count as int);
            assert(valid_state_count == valid_count(valid));
            assert(scaled@[0] == saturate(masked@[0] - coefficients@[0]) && mask@[0] >= -1);
            assert(scaled@[1] == saturate(masked@[1] - coefficients@[1]) && mask@[1] >= -1);
            assert(scaled@[2] == saturate(masked@[2] - coefficients@[2]) && mask@[2] >= -1);
            assert(scaled@[3] == saturate(masked@[3] - coefficients@[3]) && mask@[3] >= -1);
            assert(scaled@[4] == saturate(masked@[4] - coefficients@[4]) && mask@[4] >= -1);
            assert(scaled@[5] == saturate(masked@[5] - coefficients@[5]) && mask@[5] >= -1);
            assert(scaled@[6] == saturate(masked@[6] - coefficients@[6]) && mask@[6] >= -1);
            assert(scaled@[7] == saturate(masked@[7] - coefficients@[7]) && mask@[7] >= -1);
            assert(invalidated@[0] == expected[0]);
            assert(invalidated@[1] == expected[1]);
            assert(invalidated@[2] == expected[2]);
            assert(invalidated@[3] == expected[3]);
            assert(invalidated@[4] == expected[4]);
            assert(invalidated@[5] == expected[5]);
            assert(invalidated@[6] == expected[6]);
            assert(invalidated@[7] == expected[7]);
            assert(invalidated@ =~= expected);
        }
        invalidated
    }
}

impl Default for UmtsState {
    /// The vector whose metrics are all zero.
    fn default() -> (state: Self)
        ensures
            state@ == Seq::new(8, |s: int| 0int),
    {
        Self::zero()
    }
}

} // verus!
