//! The decoder of the UMTS code on the all-zero codeword: where every
//! received value speaks for the bit 0 with the same strength, every
//! a-posteriori value speaks for the bit 0 too.
//!
//! The proof follows the metric of the state 0 through the trellis. On the
//! all-zero codeword no edge has a metric above zero and the edge from the
//! state 0 to the state 0 has the metric zero, so the state 0 leads at every
//! stage of both paths; and each state that can be reached stays within the
//! weight of the three edges that lead to it from the state 0, or from it to
//! the state 0, so that the scaling cuts nothing off.
use vstd::prelude::*;
use vstd::arithmetic::div_mod::{lemma_div_is_ordered, lemma_div_multiples_vanish};
use crate::catalog::{lemma_umts, UMTS};
use crate::convolutional::code::code_memory;
use super::decoder::{aposteriori, backward_metrics, decoded, forward_metrics, gamma_of};
use super::packing::word_lane;
use super::symbol::BcjrSymbol;
use super::umts::{
    all_states,
    lemma_branch_metrics,
    masked_metrics,
    max8,
    scaled_metrics,
    sum8,
    umts_aposteriori,
    umts_next_alpha,
    umts_paths,
    umts_previous_beta,
    umts_reachable_states,
    valid_count,
    valid_mean,
    UmtsState,
};

verus! {

/// The largest strength of the received values for which the law is proved.
pub const MAX_STRENGTH: i8 = 12;

/// The symbol of the all-zero codeword that is received with the strength
/// `strength`: both values speak for the bit 0.
pub open spec fn zero_symbol(strength: int) -> BcjrSymbol {
    BcjrSymbol { systematic: (-strength) as i8, parity: (-strength) as i8, apriori: 0 }
}

/// The word holds the branch metrics of a symbol of the all-zero codeword.
pub open spec fn is_zero_gamma(g: u32, strength: int) -> bool {
    &&& word_lane(g, 0) == 0
    &&& word_lane(g, 1) == -strength
    &&& word_lane(g, 2) == -strength
    &&& word_lane(g, 3) == -2 * strength
}

/// How far the metric of a state may lie below that of the state 0 on the
/// forward path: the strength times the weight of the three edges that
/// lead from the state 0 to the state.
pub open spec fn forward_slack(strength: int) -> Seq<int> {
    seq![
        0int,
        4 * strength,
        3 * strength,
        5 * strength,
        2 * strength,
        4 * strength,
        3 * strength,
        3 * strength,
    ]
}

/// How far the metric of a state may lie below that of the state 0 on the
/// backward path: the strength times the weight of the three edges that
/// lead from the state to the state 0.
pub open spec fn backward_slack(strength: int) -> Seq<int> {
    seq![
        0int,
        2 * strength,
        3 * strength,
        3 * strength,
        4 * strength,
        4 * strength,
        5 * strength,
        3 * strength,
    ]
}

/// The state 0 leads: its metric lies between zero and `bound`, no metric
/// lies above it, and the metric of each valid state lies below it by no
/// more than the slack of the state.
pub open spec fn led_by_zero(metrics: Seq<int>, valid: Seq<bool>, slack: Seq<int>, bound: int) -> bool {
    &&& metrics.len() == 8
    &&& valid.len() == 8
    &&& slack.len() == 8
    &&& valid[0]
    &&& 0 <= metrics[0] <= bound
    &&& forall|s: int| 0 <= s < 8 ==> -128 <= #[trigger] metrics[s] <= metrics[0]
    &&& forall|s: int| 0 <= s < 8 && valid[s] ==> #[trigger] metrics[s] >= metrics[0] - slack[s]
}

/// The states that are valid at a stage of a terminated trellis of the memory 3.
pub open spec fn stage_states(index: int, symbol_count: int) -> Seq<bool> {
    if index < 3 || index >= symbol_count - 3 {
        umts_reachable_states(index, symbol_count)
    } else {
        all_states()
    }
}

/// The sum of the metrics of the valid states lies between their number
/// times a lower and times an upper bound of these metrics.
proof fn lemma_masked_sum_bounds(metrics: Seq<int>, valid: Seq<bool>, low: int, high: int)
    requires
        metrics.len() == 8,
        valid.len() == 8,
        forall|s: int| 0 <= s < 8 && valid[s] ==> low <= #[trigger] metrics[s] <= high,
    ensures
        valid_count(valid) * low <= sum8(masked_metrics(metrics, valid)) <= valid_count(valid) * high,
        0 <= valid_count(valid) <= 8,
{
    let flags = Seq::new(8, |s: int| if valid[s] { 1int } else { 0int });
    let lows = Seq::new(8, |s: int| flags[s] * low);
    let highs = Seq::new(8, |s: int| flags[s] * high);
    let masked = masked_metrics(metrics, valid);
    let count = valid_count(valid);
    assert forall|s: int| 0 <= s < 8 implies #[trigger] lows[s] <= masked[s] <= highs[s] by {
        assert(valid[s] ==> low <= metrics[s] <= high);
        assert(flags[s] * low == (if valid[s] { low } else { 0 }) && flags[s] * high == (if valid[s] {
            high
        } else {
            0
        })) by (nonlinear_arith)
            requires
                flags[s] == if valid[s] { 1int } else { 0int },
        ;
    }
    assert(lows[0] <= masked[0] <= highs[0]);
    assert(lows[1] <= masked[1] <= highs[1]);
    assert(lows[2] <= masked[2] <= highs[2]);
    assert(lows[3] <= masked[3] <= highs[3]);
    assert(lows[4] <= masked[4] <= highs[4]);
    assert(lows[5] <= masked[5] <= highs[5]);
    assert(lows[6] <= masked[6] <= highs[6]);
    assert(lows[7] <= masked[7] <= highs[7]);
    assert(lows[0] + lows[1] + lows[2] + lows[3] + lows[4] + lows[5] + lows[6] + lows[7] == count
        * low) by (nonlinear_arith)
        requires
            lows[0] == flags[0] * low,
            lows[1] == flags[1] * low,
            lows[2] == flags[2] * low,
            lows[3] == flags[3] * low,
            lows[4] == flags[4] * low,
            lows[5] == flags[5] * low,
            lows[6] == flags[6] * low,
            lows[7] == flags[7] * low,
            count == flags[0] + flags[1] + flags[2] + flags[3] + flags[4] + flags[5] + flags[6]
                + flags[7],
    ;
    assert(highs[0] + highs[1] + highs[2] + highs[3] + highs[4] + highs[5] + highs[6] + highs[7]
        == count * high) by (nonlinear_arith)
        requires
            highs[0] == flags[0] * high,
            highs[1] == flags[1] * high,
            highs[2] == flags[2] * high,
            highs[3] == flags[3] * high,
            highs[4] == flags[4] * high,
            highs[5] == flags[5] * high,
            highs[6] == flags[6] * high,
            highs[7] == flags[7] * high,
            count == flags[0] + flags[1] + flags[2] + flags[3] + flags[4] + flags[5] + flags[6]
                + flags[7],
    ;
}

/// The floor of the mean of the metrics of the valid states lies between a
/// lower and an upper bound of these metrics.
proof fn lemma_mean_bounds(metrics: Seq<int>, valid: Seq<bool>, low: int, high: int)
    requires
        metrics.len() == 8,
        valid.len() == 8,
        valid[0],
        forall|s: int| 0 <= s < 8 && valid[s] ==> low <= #[trigger] metrics[s] <= high,
    ensures
        low <= valid_mean(metrics, valid) <= high,
{
    let count = valid_count(valid);
    let sum = sum8(masked_metrics(metrics, valid));
    lemma_masked_sum_bounds(metrics, valid, low, high);
    assert(count >= 1);
    lemma_div_is_ordered(count * low, sum, count);
    lemma_div_is_ordered(sum, count * high, count);
    lemma_div_multiples_vanish(low, count);
    lemma_div_multiples_vanish(high, count);
}

/// The scaling keeps the lead of the state 0: the metrics of the valid
/// states lie so close together that nothing is cut off.
proof fn lemma_scaling_keeps_lead(metrics: Seq<int>, valid: Seq<bool>, slack: Seq<int>, bound: int)
    requires
        metrics.len() == 8,
        valid.len() == 8,
        slack.len() == 8,
        valid[0],
        0 <= bound <= 60,
        slack[0] == 0,
        forall|s: int| 0 <= s < 8 ==> 0 <= #[trigger] slack[s] <= bound,
        0 <= metrics[0] <= bound,
        forall|s: int| 0 <= s < 8 ==> -128 <= #[trigger] metrics[s] <= metrics[0],
        forall|s: int| 0 <= s < 8 && valid[s] ==> #[trigger] metrics[s] >= metrics[0] - slack[s],
    ensures
        led_by_zero(scaled_metrics(metrics, valid), valid, slack, bound),
{
    let scaled = scaled_metrics(metrics, valid);
    let mean = valid_mean(metrics, valid);
    assert forall|s: int| 0 <= s < 8 && valid[s] implies metrics[0] - bound <= #[trigger] metrics[s]
        <= metrics[0] by {
        assert(slack[s] <= bound);
    }
    lemma_mean_bounds(metrics, valid, metrics[0] - bound, metrics[0]);
    assert forall|s: int| 0 <= s < 8 implies -128 <= #[trigger] scaled[s] <= scaled[0] by {
        assert(-128 <= metrics[s] <= metrics[0]);
        assert(valid[s] ==> metrics[s] >= metrics[0] - slack[s] && slack[s] <= bound);
    }
    assert forall|s: int| 0 <= s < 8 && valid[s] implies #[trigger] scaled[s] >= scaled[0]
        - slack[s] by {
        assert(metrics[s] >= metrics[0] - slack[s] && slack[s] <= bound);
        assert(-128 <= metrics[s] <= metrics[0]);
    }
}

/// One stage of the forward path keeps the lead of the state 0, if each
/// state that is valid after the stage has its even predecessor among the
/// states that were valid before.
proof fn lemma_forward_stage(alpha: Seq<int>, g: u32, strength: int, before: Seq<bool>, after: Seq<bool>)
    requires
        1 <= strength <= MAX_STRENGTH,
        is_zero_gamma(g, strength),
        led_by_zero(alpha, before, forward_slack(strength), 5 * strength),
        after.len() == 8,
        after[0],
        forall|t: int| 0 <= t < 8 && after[t] ==> #[trigger] before[2 * (t % 4)],
    ensures
        led_by_zero(
            scaled_metrics(umts_next_alpha(alpha, g), after),
            after,
            forward_slack(strength),
            5 * strength,
        ),
{
    let next = umts_next_alpha(alpha, g);
    let slack = forward_slack(strength);
    assert(-128 <= alpha[0] <= alpha[0] && -128 <= alpha[1] <= alpha[0] && -128 <= alpha[2]
        <= alpha[0] && -128 <= alpha[3] <= alpha[0]);
    assert(-128 <= alpha[4] <= alpha[0] && -128 <= alpha[5] <= alpha[0] && -128 <= alpha[6]
        <= alpha[0] && -128 <= alpha[7] <= alpha[0]);
    assert(before[0] ==> alpha[0] >= alpha[0] - slack[0]);
    assert(before[2] ==> alpha[2] >= alpha[0] - slack[2]);
    assert(before[4] ==> alpha[4] >= alpha[0] - slack[4]);
    assert(before[6] ==> alpha[6] >= alpha[0] - slack[6]);
    assert(after[0] ==> before[2 * (0int % 4)]);
    assert(after[1] ==> before[2 * (1int % 4)]);
    assert(after[2] ==> before[2 * (2int % 4)]);
    assert(after[3] ==> before[2 * (3int % 4)]);
    assert(after[4] ==> before[2 * (4int % 4)]);
    assert(after[5] ==> before[2 * (5int % 4)]);
    assert(after[6] ==> before[2 * (6int % 4)]);
    assert(after[7] ==> before[2 * (7int % 4)]);
    assert(next[0] == alpha[0]);
    assert(-128 <= next[1] <= alpha[0] && (after[1] ==> next[1] >= alpha[0] - slack[1]));
    assert(-128 <= next[2] <= alpha[0] && (after[2] ==> next[2] >= alpha[0] - slack[2]));
    assert(-128 <= next[3] <= alpha[0] && (after[3] ==> next[3] >= alpha[0] - slack[3]));
    assert(-128 <= next[4] <= alpha[0] && (after[4] ==> next[4] >= alpha[0] - slack[4]));
    assert(-128 <= next[5] <= alpha[0] && (after[5] ==> next[5] >= alpha[0] - slack[5]));
    assert(-128 <= next[6] <= alpha[0] && (after[6] ==> next[6] >= alpha[0] - slack[6]));
    assert(-128 <= next[7] <= alpha[0] && (after[7] ==> next[7] >= alpha[0] - slack[7]));
    lemma_scaling_keeps_lead(next, after, slack, 5 * strength);
}

/// One stage of the backward path keeps the lead of the state 0, if each
/// state that is valid before the stage has the state that its termination
/// input leads to among the states that are valid after it.
proof fn lemma_backward_stage(beta: Seq<int>, g: u32, strength: int, before: Seq<bool>, after: Seq<bool>)
    requires
        1 <= strength <= MAX_STRENGTH,
        is_zero_gamma(g, strength),
        led_by_zero(beta, after, backward_slack(strength), 5 * strength),
        before.len() == 8,
        before[0],
        forall|s: int| 0 <= s < 8 && before[s] ==> #[trigger] after[s / 2],
    ensures
        led_by_zero(
            scaled_metrics(umts_previous_beta(beta, g), before),
            before,
            backward_slack(strength),
            5 * strength,
        ),
{
    let previous = umts_previous_beta(beta, g);
    let slack = backward_slack(strength);
    assert(-128 <= beta[0] <= beta[0] && -128 <= beta[1] <= beta[0] && -128 <= beta[2] <= beta[0]
        && -128 <= beta[3] <= beta[0]);
    assert(-128 <= beta[4] <= beta[0] && -128 <= beta[5] <= beta[0] && -128 <= beta[6] <= beta[0]
        && -128 <= beta[7] <= beta[0]);
    assert(after[0] ==> beta[0] >= beta[0] - slack[0]);
    assert(after[1] ==> beta[1] >= beta[0] - slack[1]);
    assert(after[2] ==> beta[2] >= beta[0] - slack[2]);
    assert(after[3] ==> beta[3] >= beta[0] - slack[3]);
    assert(before[0] ==> after[0int / 2]);
    assert(before[1] ==> after[1int / 2]);
    assert(before[2] ==> after[2int / 2]);
    assert(before[3] ==> after[3int / 2]);
    assert(before[4] ==> after[4int / 2]);
    assert(before[5] ==> after[5int / 2]);
    assert(before[6] ==> after[6int / 2]);
    assert(before[7] ==> after[7int / 2]);
    assert(previous[0] == beta[0]);
    assert(-128 <= previous[1] <= beta[0] && (before[1] ==> previous[1] >= beta[0] - slack[1]));
    assert(-128 <= previous[2] <= beta[0] && (before[2] ==> previous[2] >= beta[0] - slack[2]));
    assert(-128 <= previous[3] <= beta[0] && (before[3] ==> previous[3] >= beta[0] - slack[3]));
    assert(-128 <= previous[4] <= beta[0] && (before[4] ==> previous[4] >= beta[0] - slack[4]));
    assert(-128 <= previous[5] <= beta[0] && (before[5] ==> previous[5] >= beta[0] - slack[5]));
    assert(-128 <= previous[6] <= beta[0] && (before[6] ==> previous[6] >= beta[0] - slack[6]));
    assert(-128 <= previous[7] <= beta[0] && (before[7] ==> previous[7] >= beta[0] - slack[7]));
    lemma_scaling_keeps_lead(previous, before, slack, 5 * strength);
}

/// Before the first stage and after the last one only the state 0 is
/// valid, with the metric zero.
proof fn lemma_single_state(slack: Seq<int>, bound: int, valid: Seq<bool>)
    requires
        valid == Seq::new(8, |s: int| s == 0),
        slack.len() == 8,
        slack[0] == 0,
        0 <= bound,
    ensures
        led_by_zero(scaled_metrics(Seq::new(8, |s: int| 0int), valid), valid, slack, bound),
{
    let zero = Seq::new(8, |s: int| 0int);
    let masked = masked_metrics(zero, valid);
    assert(masked[0] == 0 && masked[1] == 0 && masked[2] == 0 && masked[3] == 0 && masked[4] == 0
        && masked[5] == 0 && masked[6] == 0 && masked[7] == 0);
    assert(valid_count(valid) == 1);
    assert(valid_mean(zero, valid) == 0);
}

/// The gamma of every stage of the all-zero codeword.
proof fn lemma_zero_gamma(input: Seq<BcjrSymbol>, strength: int, index: int)
    requires
        1 <= strength <= MAX_STRENGTH,
        0 <= index < input.len(),
        input[index] == zero_symbol(strength),
    ensures
        is_zero_gamma(gamma_of(input)[index], strength),
{
    lemma_branch_metrics(input[index]);
}

/// On the all-zero codeword the state 0 leads at every stage of the forward path.
proof fn lemma_forward_lead(input: Seq<BcjrSymbol>, strength: int, index: int)
    requires
        1 <= strength <= MAX_STRENGTH,
        input.len() >= 6,
        forall|k: int| 0 <= k < input.len() ==> #[trigger] input[k] == zero_symbol(strength),
        0 <= index <= input.len(),
    ensures
        led_by_zero(
            forward_metrics::<UmtsState>(gamma_of(input), 3, true, index),
            stage_states(index, input.len() as int),
            forward_slack(strength),
            5 * strength,
        ),
    decreases index,
{
    let n = input.len() as int;
    let gamma = gamma_of(input);
    if index == 0 {
        assert(stage_states(0, n) =~= Seq::new(8, |s: int| s == 0));
        lemma_single_state(forward_slack(strength), 5 * strength, stage_states(0, n));
    } else {
        lemma_forward_lead(input, strength, index - 1);
        lemma_zero_gamma(input, strength, index - 1);
        let before = stage_states(index - 1, n);
        let after = stage_states(index, n);
        assert forall|t: int| 0 <= t < 8 && after[t] implies #[trigger] before[2 * (t % 4)] by {
            assert(0 <= 2 * (t % 4) < 8);
        }
        lemma_forward_stage(
            forward_metrics::<UmtsState>(gamma, 3, true, index - 1),
            gamma[index - 1],
            strength,
            before,
            after,
        );
    }
}

/// On the all-zero codeword the state 0 leads at every stage of the backward path.
proof fn lemma_backward_lead(input: Seq<BcjrSymbol>, strength: int, index: int)
    requires
        1 <= strength <= MAX_STRENGTH,
        input.len() >= 6,
        forall|k: int| 0 <= k < input.len() ==> #[trigger] input[k] == zero_symbol(strength),
        1 <= index <= input.len(),
    ensures
        led_by_zero(
            backward_metrics::<UmtsState>(gamma_of(input), 3, true, index),
            stage_states(index, input.len() as int),
            backward_slack(strength),
            5 * strength,
        ),
    decreases input.len() - index,
{
    let n = input.len() as int;
    let gamma = gamma_of(input);
    if index == n {
        assert(stage_states(n, n) =~= Seq::new(8, |s: int| s == 0));
        lemma_single_state(backward_slack(strength), 5 * strength, stage_states(n, n));
    } else {
        lemma_backward_lead(input, strength, index + 1);
        lemma_zero_gamma(input, strength, index);
        let before = stage_states(index, n);
        let after = stage_states(index + 1, n);
        assert forall|s: int| 0 <= s < 8 && before[s] implies #[trigger] after[s / 2] by {
            assert(0 <= s / 2 < 8);
        }
        lemma_backward_stage(
            backward_metrics::<UmtsState>(gamma, 3, true, index + 1),
            gamma[index],
            strength,
            before,
            after,
        );
    }
}

/// Where the state 0 leads on both paths, the a-posteriori value of the
/// stage speaks for the bit 0 with the strength of the received values at least.
proof fn lemma_aposteriori_of_lead(
    g: u32,
    alpha: Seq<int>,
    beta: Seq<int>,
    strength: int,
    forward: Seq<bool>,
    backward: Seq<bool>,
)
    requires
        1 <= strength <= MAX_STRENGTH,
        is_zero_gamma(g, strength),
        led_by_zero(alpha, forward, forward_slack(strength), 5 * strength),
        led_by_zero(beta, backward, backward_slack(strength), 5 * strength),
    ensures
        umts_aposteriori(g, alpha, beta) <= -strength,
{
    let zeros = umts_paths(g, alpha, beta, 0);
    let ones = umts_paths(g, alpha, beta, 1);
    let best = alpha[0] + beta[0];
    assert(-128 <= alpha[0] <= alpha[0] && -128 <= alpha[1] <= alpha[0] && -128 <= alpha[2]
        <= alpha[0] && -128 <= alpha[3] <= alpha[0]);
    assert(-128 <= alpha[4] <= alpha[0] && -128 <= alpha[5] <= alpha[0] && -128 <= alpha[6]
        <= alpha[0] && -128 <= alpha[7] <= alpha[0]);
    assert(-128 <= beta[0] <= beta[0] && -128 <= beta[1] <= beta[0] && -128 <= beta[2] <= beta[0]
        && -128 <= beta[3] <= beta[0]);
    assert(-128 <= beta[4] <= beta[0] && -128 <= beta[5] <= beta[0] && -128 <= beta[6] <= beta[0]
        && -128 <= beta[7] <= beta[0]);
    assert(zeros[0] == best);
    assert(ones[0] <= best - strength);
    assert(ones[1] <= best - strength);
    assert(ones[2] <= best - strength);
    assert(ones[3] <= best - strength);
    assert(ones[4] <= best - strength);
    assert(ones[5] <= best - strength);
    assert(ones[6] <= best - strength);
    assert(ones[7] <= best - strength);
    assert(max8(ones) <= best - strength);
    assert(max8(zeros) >= best);
}

/// Sign consistency on the all-zero codeword: where a terminated block of
/// at least six symbols of the UMTS code is received with every value
/// speaking for the bit 0 with the same strength, of 1 to 12, every
/// a-posteriori value of the decoder is negative, and speaks for the bit 0
/// with that strength at least.
pub proof fn lemma_all_zero_codeword(input: Seq<BcjrSymbol>, strength: int)
    requires
        1 <= strength <= MAX_STRENGTH,
        input.len() >= 6,
        forall|k: int| 0 <= k < input.len() ==> #[trigger] input[k] == zero_symbol(strength),
    ensures
        forall|k: int|
            0 <= k < input.len() ==> #[trigger] decoded::<UMTS, UmtsState>(input, true)[k]
                <= -strength,
        forall|k: int| 0 <= k < input.len() ==> #[trigger] decoded::<UMTS, UmtsState>(input, true)[k] < 0,
{
    lemma_umts();
    assert(code_memory::<UMTS>() == 3);
    let n = input.len() as int;
    let gamma = gamma_of(input);
    assert forall|k: int| 0 <= k < input.len() implies #[trigger] decoded::<UMTS, UmtsState>(
        input,
        true,
    )[k] <= -strength by {
        lemma_forward_lead(input, strength, k);
        lemma_backward_lead(input, strength, k + 1);
        lemma_zero_gamma(input, strength, k);
        lemma_aposteriori_of_lead(
            gamma[k],
            forward_metrics::<UmtsState>(gamma, 3, true, k),
            backward_metrics::<UmtsState>(gamma, 3, true, k + 1),
            strength,
            stage_states(k, n),
            stage_states(k + 1, n),
        );
        assert(decoded::<UMTS, UmtsState>(input, true)[k] == aposteriori::<UmtsState>(
            gamma,
            3,
            true,
            k,
        ));
    }
}

} // verus!
