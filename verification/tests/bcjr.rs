use turbofec::catalog;
use turbofec::convolutional::bcjr::umts::{UmtsBcjrDecoder, UmtsState};
use turbofec::convolutional::bcjr::{BcjrDecoder, BcjrState, BcjrSymbol};

#[test]
fn can_decode_byte() {
    // Given
    let decoder = UmtsBcjrDecoder::<catalog::UMTS>::new(true);
    let input = [
        BcjrSymbol::new(4, 4),
        BcjrSymbol::new(4, -4),
        BcjrSymbol::new(-4, -4),
        BcjrSymbol::new(4, 4),
        BcjrSymbol::new(4, 4),
        BcjrSymbol::new(-4, -4),
        BcjrSymbol::new(-4, 4),
        BcjrSymbol::new(4, 4),
        BcjrSymbol::new(-4, -4),
        BcjrSymbol::new(-4, -4),
        BcjrSymbol::new(-4, -4),
    ];
    let mut output = [0; 11];

    // When
    decoder.decode(&input, &mut output);

    // Then
    assert_eq!([24, 24, -24, 24, 24, -24, -24, 24, -24, -24, -24], output);
}

#[test]
fn can_decode_excel_example_decoder1() {
    // Given
    let decoder = UmtsBcjrDecoder::<catalog::UMTS>::new(true);
    let input = [
        BcjrSymbol::new(-4, -4),
        BcjrSymbol::new(-4, -4),
        BcjrSymbol::new(-4, -4),
        BcjrSymbol::new(4, 4),
        BcjrSymbol::new(-4, 4),
        BcjrSymbol::new(-4, 4),
        BcjrSymbol::new(4, -4),
        BcjrSymbol::new(4, -4),
        BcjrSymbol::new(-4, -4),
        BcjrSymbol::new(-4, 4),
        BcjrSymbol::new(-4, 4),
        BcjrSymbol::new(-4, 4),
        BcjrSymbol::new(-4, -4),
        BcjrSymbol::new(-4, -4),
        BcjrSymbol::new(4, -4),
        BcjrSymbol::new(-4, 4),
        BcjrSymbol::new(4, 4),
        BcjrSymbol::new(-4, 4),
        BcjrSymbol::new(4, 4),
    ];
    let mut output = [0; 19];

    // When
    decoder.decode(&input, &mut output);

    // Then
    assert_eq!(
        [
            -24, -24, -24, 24, -24, -24, 24, 24, -24, -24, -24, -24, -24, -24, 24, -24, 24, -24,
            24
        ],
        output
    );
}

#[test]
fn symbol_starts_without_apriori_knowledge() {
    let symbol = BcjrSymbol::new(-7, 9);
    assert_eq!((-7, 9, 0), (symbol.systematic, symbol.parity, symbol.apriori));
}

#[test]
fn decoder_leaves_the_rest_of_the_output_alone() {
    let decoder = BcjrDecoder::<catalog::UMTS, UmtsState>::new(true);
    let input = [BcjrSymbol::new(-4, -4); 6];
    let mut output = [55i8; 9];
    decoder.decode(&input, &mut output);
    assert_eq!([-24, -24, -24, -24, -24, -24, 55, 55, 55], output);
}

#[test]
fn apriori_knowledge_moves_the_decision() {
    let decoder = UmtsBcjrDecoder::<catalog::UMTS>::new(false);
    let mut input = [BcjrSymbol::new(0, 0); 8];
    let mut output = [0i8; 8];
    decoder.decode(&input, &mut output);
    assert_eq!([0; 8], output);
    input[2].apriori = 20;
    input[5].apriori = -30;
    decoder.decode(&input, &mut output);
    assert_eq!([0, 0, 20, 0, 0, -30, 0, 0], output);
}

#[test]
fn strong_positive_systematic_values_give_positive_decisions() {
    for count in [6usize, 11, 20, 40] {
        let decoder = UmtsBcjrDecoder::<catalog::UMTS>::new(true);
        let input = vec![BcjrSymbol::new(100, 0); count];
        let mut output = vec![0i8; count];
        decoder.decode(&input, &mut output);
        assert!(output.iter().all(|llr| *llr > 0), "{:?}", output);
    }
}

#[test]
fn all_zero_codeword_gives_negative_decisions() {
    for amplitude in [4i8, 20, 60, 127] {
        for count in [6usize, 11, 20, 40] {
            let decoder = UmtsBcjrDecoder::<catalog::UMTS>::new(true);
            let input = vec![BcjrSymbol::new(-amplitude, -amplitude); count];
            let mut output = vec![0i8; count];
            decoder.decode(&input, &mut output);
            assert!(output.iter().all(|llr| *llr < 0), "{:?}", output);
        }
    }
}

#[test]
fn branch_metrics_saturate() {
    // The metric of the input 1 is the sum of the a-priori and the systematic
    // value: 127 + 127 is held at 127, and the decision at the stage is 127.
    let decoder = UmtsBcjrDecoder::<catalog::UMTS>::new(false);
    let mut input = [BcjrSymbol::new(0, 0); 4];
    input[1] = BcjrSymbol { systematic: 127, parity: 0, apriori: 127 };
    let mut output = [0i8; 4];
    decoder.decode(&input, &mut output);
    assert_eq!([0, 127, 0, 0], output);
    input[1] = BcjrSymbol { systematic: -128, parity: 0, apriori: -128 };
    decoder.decode(&input, &mut output);
    assert_eq!([0, -128, 0, 0], output);
}

/// The metrics of a state vector: each one is read as the largest metric
/// after all the others have been pushed down to -128.
fn lanes(state: UmtsState) -> [i8; 8] {
    let mut lanes = [0i8; 8];
    for s in 0..8 {
        let push_down = pattern(s, -128, 0);
        let only = UmtsState::simd_saturating_add(
            UmtsState::simd_saturating_add(state, push_down),
            push_down,
        );
        lanes[s] = only.reduce_max();
    }
    lanes
}

fn pattern(lane: usize, others: i8, own: i8) -> UmtsState {
    let mut s74 = 0u32;
    let mut s30 = 0u32;
    for s in 0..8 {
        let value = if s == lane { own } else { others } as u8 as u32;
        if s < 4 {
            s30 |= value << (8 * s);
        } else {
            s74 |= value << (8 * (s - 4));
        }
    }
    UmtsState::new(s74, s30)
}

fn state(lanes: [i8; 8]) -> UmtsState {
    let mut s74 = 0u32;
    let mut s30 = 0u32;
    for s in 0..8 {
        let value = lanes[s] as u8 as u32;
        if s < 4 {
            s30 |= value << (8 * s);
        } else {
            s74 |= value << (8 * (s - 4));
        }
    }
    UmtsState::new(s74, s30)
}

#[test]
fn lane_arithmetic_saturates() {
    let x = state([100, -100, 5, -5, 127, -128, 0, 1]);
    let y = state([100, -100, -5, 5, 1, -1, 0, -2]);
    assert_eq!([127, -128, 0, 0, 127, -128, 0, -1], lanes(UmtsState::simd_saturating_add(x, y)));
    assert_eq!([0, 0, 10, -10, 126, -127, 0, 3], lanes(UmtsState::simd_saturating_sub(x, y)));
    assert_eq!([100, -100, 5, 5, 127, -1, 0, 1], lanes(UmtsState::simd_max(x, y)));
    assert_eq!(127, x.reduce_max());
    assert_eq!(0, x.reduce_sum());
    assert_eq!(-2, y.reduce_sum());
    assert_eq!(-128, state([-128; 8]).reduce_max());
    assert_eq!(-1024, state([-128; 8]).reduce_sum());
    assert_eq!(1016, state([127; 8]).reduce_sum());
}

#[test]
fn scaling_marks_the_states_that_cannot_be_reached() {
    // All metrics are 8, so the mean is 8: the states that can be reached
    // come out as 0, the others as -128.
    let n = 20;
    let flat = state([8; 8]);
    let x = -128;
    assert_eq!([0, x, x, x, x, x, x, x], lanes(flat.get_valid_scaled(0, n)));
    assert_eq!([0, x, x, x, 0, x, x, x], lanes(flat.get_valid_scaled(1, n)));
    assert_eq!([0, x, 0, x, 0, x, 0, x], lanes(flat.get_valid_scaled(2, n)));
    assert_eq!([0; 8], lanes(flat.get_valid_scaled(3, n)));
    assert_eq!([0; 8], lanes(flat.get_valid_scaled(n - 3, n)));
    assert_eq!([0, 0, 0, 0, x, x, x, x], lanes(flat.get_valid_scaled(n - 2, n)));
    assert_eq!([0, 0, x, x, x, x, x, x], lanes(flat.get_valid_scaled(n - 1, n)));
    assert_eq!([0, x, x, x, x, x, x, x], lanes(flat.get_valid_scaled(n, n)));
    assert_eq!([0; 8], lanes(flat.get_all_scaled()));
}

#[test]
fn scaling_takes_off_the_floor_of_the_mean() {
    // sum 36, mean 4 (floor of 4.5)
    let scaled = state([1, 2, 3, 4, 5, 6, 7, 8]).get_all_scaled();
    assert_eq!([-3, -2, -1, 0, 1, 2, 3, 4], lanes(scaled));
    assert_eq!(4, scaled.reduce_sum());
    // sum -36, mean -5 (floor of -4.5)
    let scaled = state([-1, -2, -3, -4, -5, -6, -7, -8]).get_all_scaled();
    assert_eq!([4, 3, 2, 1, 0, -1, -2, -3], lanes(scaled));
    assert_eq!(4, scaled.reduce_sum());
    // only the states 0 and 4 count at the stage 1: sum 3, mean 1
    let scaled = state([10, 50, 50, 50, -7, 50, 50, 50]).get_valid_scaled(1, 20);
    assert_eq!([9, -128, -128, -128, -8, -128, -128, -128], lanes(scaled));
    // only the state 0 counts before the first stage
    let scaled = UmtsState::zero().get_valid_scaled(0, 20);
    assert_eq!([0, -128, -128, -128, -128, -128, -128, -128], lanes(scaled));
    // the states 0 to 3 two stages before the end: sum -10, mean -3
    let scaled = state([-1, -2, -3, -4, 9, 9, 9, 9]).get_valid_scaled(18, 20);
    assert_eq!([2, 1, 0, -1, -128, -128, -128, -128], lanes(scaled));
}

#[test]
fn scaling_saturates_where_a_metric_leaves_the_range() {
    // sum 253 over four states, mean 63: -128 - 63 is held at -128
    let scaled = state([127, 0, 127, 0, 127, 0, -128, 0]).get_valid_scaled(2, 20);
    assert_eq!([64, -128, 64, -128, 64, -128, -128, -128], lanes(scaled));
}

#[test]
fn forward_step_takes_the_better_incoming_edge() {
    // g holds the metrics 0, 1, 2 and 3 of the pairs (0,0), (0,1), (1,0), (1,1)
    let g = 0x03020100;
    let alpha = state([0, 10, 20, 30, 40, 50, 60, 70]);
    // next state 0: from 0 on (0,0) or from 1 on (1,1): max(0 + 0, 10 + 3)
    // next state 1: from 3 on (0,1) or from 2 on (1,0): max(30 + 1, 20 + 2)
    // next state 2: from 4 on (0,1) or from 5 on (1,0): max(40 + 1, 50 + 2)
    // next state 3: from 7 on (0,0) or from 6 on (1,1): max(70 + 0, 60 + 3)
    // next state 4: from 1 on (0,0) or from 0 on (1,1): max(10 + 0, 0 + 3)
    // next state 5: from 2 on (0,1) or from 3 on (1,0): max(20 + 1, 30 + 2)
    // next state 6: from 5 on (0,1) or from 4 on (1,0): max(50 + 1, 40 + 2)
    // next state 7: from 6 on (0,0) or from 7 on (1,1): max(60 + 0, 70 + 3)
    assert_eq!([13, 31, 52, 70, 10, 32, 51, 73], lanes(alpha.get_next_alpha(g)));
}

#[test]
fn backward_step_takes_the_better_outgoing_edge() {
    let g = 0x03020100;
    let beta = state([0, 10, 20, 30, 40, 50, 60, 70]);
    // state 0: to 0 on (0,0) or to 4 on (1,1): max(0 + 0, 40 + 3)
    // state 1: to 4 on (0,0) or to 0 on (1,1): max(40 + 0, 0 + 3)
    // state 2: to 5 on (0,1) or to 1 on (1,0): max(50 + 1, 10 + 2)
    // state 3: to 1 on (0,1) or to 5 on (1,0): max(10 + 1, 50 + 2)
    // state 4: to 2 on (0,1) or to 6 on (1,0): max(20 + 1, 60 + 2)
    // state 5: to 6 on (0,1) or to 2 on (1,0): max(60 + 1, 20 + 2)
    // state 6: to 7 on (0,0) or to 3 on (1,1): max(70 + 0, 30 + 3)
    // state 7: to 3 on (0,0) or to 7 on (1,1): max(30 + 0, 70 + 3)
    assert_eq!([43, 40, 51, 52, 62, 61, 70, 73], lanes(beta.get_previous_beta(g)));
}

#[test]
fn aposteriori_value_compares_the_best_paths() {
    let g = 0x03020100;
    let alpha = state([0, 10, 20, 30, 40, 50, 60, 70]);
    let beta = state([0, 1, 2, 3, 4, 5, 6, 7]);
    // input 0: best is state 7 to 3 on (0,0): 70 + 0 + 3 = 73;
    //          state 6 to 7 on (0,0): 60 + 0 + 7 = 67
    // input 1: best is state 7 to 7 on (1,1): 70 + 3 + 7 = 80
    assert_eq!(7, UmtsState::get_aposteriori(g, alpha, beta));
    assert_eq!(0, UmtsState::get_aposteriori(0, UmtsState::default(), UmtsState::zero()));
}

#[test]
fn store_of_the_forward_path_can_be_used_again() {
    let decoder = UmtsBcjrDecoder::<catalog::UMTS>::new(true);
    let mut forward = Vec::new();
    let long = [
        BcjrSymbol::new(4, 4),
        BcjrSymbol::new(4, -4),
        BcjrSymbol::new(-4, -4),
        BcjrSymbol::new(4, 4),
        BcjrSymbol::new(4, 4),
        BcjrSymbol::new(-4, -4),
        BcjrSymbol::new(-4, 4),
        BcjrSymbol::new(4, 4),
        BcjrSymbol::new(-4, -4),
        BcjrSymbol::new(-4, -4),
        BcjrSymbol::new(-4, -4),
    ];
    let mut output = [0; 11];
    decoder.decode_with(&long, &mut output, &mut forward);
    assert_eq!([24, 24, -24, 24, 24, -24, -24, 24, -24, -24, -24], output);
    assert_eq!(11, forward.len());

    let short = [BcjrSymbol::new(-4, -4); 6];
    let mut output = [0; 6];
    decoder.decode_with(&short, &mut output, &mut forward);
    assert_eq!([-24; 6], output);
    assert_eq!(6, forward.len());

    let mut output = [0; 11];
    decoder.decode_with(&long, &mut output, &mut forward);
    assert_eq!([24, 24, -24, 24, 24, -24, -24, 24, -24, -24, -24], output);
}

#[test]
fn all_zero_codeword_is_decided_with_the_strength_of_the_input_at_least() {
    for amplitude in 1i8..=12 {
        for count in [6usize, 7, 8, 11, 20, 40, 100] {
            let decoder = UmtsBcjrDecoder::<catalog::UMTS>::new(true);
            let input = vec![BcjrSymbol::new(-amplitude, -amplitude); count];
            let mut output = vec![0i8; count];
            decoder.decode(&input, &mut output);
            assert!(output.iter().all(|llr| *llr <= -amplitude), "{:?}", output);
        }
    }
}
