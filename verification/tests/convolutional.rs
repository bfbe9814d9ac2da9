use turbofec::catalog;
use turbofec::convolutional::{ConvolutionalCodeExt, ConvolutionalEncoder, EncoderOutput};

#[test]
fn abrantes() {
    // Given
    type Code = catalog::ABRANTES;

    // When

    // Then
    assert_eq!(0, Code::get_next_state(0, false));
    assert_eq!(2, Code::get_next_state(0, true));
    assert_eq!(2, Code::get_next_state(1, false));
    assert_eq!(0, Code::get_next_state(1, true));
    assert_eq!(3, Code::get_next_state(2, false));
    assert_eq!(1, Code::get_next_state(2, true));
    assert_eq!(1, Code::get_next_state(3, false));
    assert_eq!(3, Code::get_next_state(3, true));

    assert_eq!(false, Code::get_termination_input(0));
    assert_eq!(true, Code::get_termination_input(1));
    assert_eq!(true, Code::get_termination_input(2));
    assert_eq!(false, Code::get_termination_input(3));

    assert_eq!(0b00, Code::get_output(0, false));
    assert_eq!(0b11, Code::get_output(0, true));
    assert_eq!(0b00, Code::get_output(1, false));
    assert_eq!(0b11, Code::get_output(1, true));
    assert_eq!(0b10, Code::get_output(2, false));
    assert_eq!(0b01, Code::get_output(2, true));
    assert_eq!(0b10, Code::get_output(3, false));
    assert_eq!(0b01, Code::get_output(3, true));
}

#[test]
fn umts() {
    // Given
    type Code = catalog::UMTS;

    // When
    assert_eq!(0, Code::get_next_state(0, false));
    assert_eq!(4, Code::get_next_state(0, true));
    assert_eq!(4, Code::get_next_state(1, false));
    assert_eq!(0, Code::get_next_state(1, true));
    assert_eq!(5, Code::get_next_state(2, false));
    assert_eq!(1, Code::get_next_state(2, true));
    assert_eq!(1, Code::get_next_state(3, false));
    assert_eq!(5, Code::get_next_state(3, true));
    assert_eq!(2, Code::get_next_state(4, false));
    assert_eq!(6, Code::get_next_state(4, true));
    assert_eq!(6, Code::get_next_state(5, false));
    assert_eq!(2, Code::get_next_state(5, true));
    assert_eq!(7, Code::get_next_state(6, false));
    assert_eq!(3, Code::get_next_state(6, true));
    assert_eq!(3, Code::get_next_state(7, false));
    assert_eq!(7, Code::get_next_state(7, true));

    assert_eq!(false, Code::get_termination_input(0));
    assert_eq!(true, Code::get_termination_input(1));
    assert_eq!(true, Code::get_termination_input(2));
    assert_eq!(false, Code::get_termination_input(3));
    assert_eq!(false, Code::get_termination_input(4));
    assert_eq!(true, Code::get_termination_input(5));
    assert_eq!(true, Code::get_termination_input(6));
    assert_eq!(false, Code::get_termination_input(7));

    assert_eq!(0b00, Code::get_output(0, false));
    assert_eq!(0b11, Code::get_output(0, true));
    assert_eq!(0b00, Code::get_output(1, false));
    assert_eq!(0b11, Code::get_output(1, true));
    assert_eq!(0b10, Code::get_output(2, false));
    assert_eq!(0b01, Code::get_output(2, true));
    assert_eq!(0b10, Code::get_output(3, false));
    assert_eq!(0b01, Code::get_output(3, true));
    assert_eq!(0b10, Code::get_output(4, false));
    assert_eq!(0b01, Code::get_output(4, true));
    assert_eq!(0b10, Code::get_output(5, false));
    assert_eq!(0b01, Code::get_output(5, true));
    assert_eq!(0b00, Code::get_output(6, false));
    assert_eq!(0b11, Code::get_output(6, true));
    assert_eq!(0b00, Code::get_output(7, false));
    assert_eq!(0b11, Code::get_output(7, true));
}

#[test]
fn can_encode_umts() {
    can_encode_umts_case(
        &[
            // 0xBA
            // A: Systematic output
            // B: Parity output
            0b11, 0b01, 0b00, 0b11, 0b11, 0b00, 0b10, 0b11, 0b00, 0b00, 0b00,
        ],
        &[1, 1, 0, 1, 1, 0, 0, 1],
    );

    can_encode_umts_case(
        &[
            0b00, 0b11, 0b01, 0b11, 0b01, 0b10, 0b11, 0b01, 0b10, 0b11, 0b10, 0b00, 0b01, 0b11,
            0b01, 0b10, 0b11, 0b10, 0b11,
        ],
        &[0, 1, 1, 1, 1, 0, 1, 1, 0, 1, 0, 0, 1, 1, 1, 0],
    );

    can_encode_umts_case(
        &[
            0b00, 0b00, 0b11, 0b10, 0b01, 0b11, 0b00, 0b11, 0b10, 0b10, 0b01, 0b01, 0b11, 0b00,
            0b00, 0b11, 0b01, 0b00, 0b00, 0b01, 0b10, 0b11, 0b01, 0b01, 0b01, 0b11, 0b00,
        ],
        &[
            0, 0, 1, 0, 1, 1, 0, 1, 0, 0, 1, 1, 1, 0, 0, 1, 1, 0, 0, 1, 0, 1, 1, 1,
        ],
    );

    can_encode_umts_case(
        &[
            0b11, 0b01, 0b11, 0b01, 0b10, 0b11, 0b10, 0b00, 0b01, 0b00, 0b00, 0b01, 0b01, 0b10,
            0b01, 0b10, 0b01, 0b01, 0b00, 0b01, 0b11, 0b01, 0b01, 0b10, 0b10, 0b00, 0b11, 0b11,
            0b00, 0b01, 0b01, 0b01, 0b11, 0b00, 0b00,
        ],
        &[
            1, 1, 1, 1, 0, 1, 0, 0, 1, 0, 0, 1, 1, 0, 1, 0, 1, 1, 0, 1, 1, 1, 1, 0, 0, 0, 1, 1,
            0, 1, 1, 1,
        ],
    );
}

fn can_encode_umts_case(expected: &[EncoderOutput], input: &[u8]) {
    // Given
    let input: Vec<bool> = input.into_iter().map(|b| *b == 1).collect();
    let mut encoder = ConvolutionalEncoder::<catalog::UMTS>::default();

    let mut output = Vec::new();

    // When
    for bit in input {
        output.push(encoder.get_output(bit));
    }

    for _ in 0..catalog::UMTS::mem() {
        output.push(encoder.get_termination_output());
    }

    // Then
    assert_eq!(expected, output);
}

#[test]
fn rate_memory_and_systematic_flag_of_the_catalog() {
    let rate = catalog::ABRANTES::rate();
    assert_eq!((1, 2), (rate.k, rate.n));
    assert_eq!(2, catalog::ABRANTES::mem());
    assert!(catalog::ABRANTES::is_systematic());

    let rate = catalog::UMTS::rate();
    assert_eq!((1, 2), (rate.k, rate.n));
    assert_eq!(3, catalog::UMTS::mem());
    assert!(catalog::UMTS::is_systematic());

    let rate = catalog::MIOTY::rate();
    assert_eq!((1, 3), (rate.k, rate.n));
    assert_eq!(6, catalog::MIOTY::mem());
    assert!(!catalog::MIOTY::is_systematic());
}

#[test]
fn mioty_is_feed_forward() {
    type Code = catalog::MIOTY;
    // Without feedback the input itself enters the register.
    assert_eq!(0b100000, Code::get_next_state(0, true));
    assert_eq!(0b010000, Code::get_next_state(0b100000, false));
    // The termination input of a code without feedback is always zero.
    for state in 0..64 {
        assert_eq!(false, Code::get_termination_input(state));
    }
    // All three generators tap the input: 0x6D, 0x53 and 0x5F have their highest bit set.
    assert_eq!(0b111, Code::get_output(0, true));
    assert_eq!(0b000, Code::get_output(0, false));
    // State 1 holds the oldest bit, which all three generators tap.
    assert_eq!(0b111, Code::get_output(1, false));
    // State 2 is tapped by the second and the third generator only.
    assert_eq!(0b110, Code::get_output(2, false));
}

#[test]
fn termination_reaches_the_zero_state_from_every_state() {
    for start in 0..8usize {
        let mut state = start;
        for _ in 0..catalog::UMTS::mem() {
            let input = catalog::UMTS::get_termination_input(state);
            state = catalog::UMTS::get_next_state(state, input);
        }
        assert_eq!(0, state);
    }
    for start in 0..64usize {
        let mut state = start;
        for _ in 0..catalog::MIOTY::mem() {
            let input = catalog::MIOTY::get_termination_input(state);
            state = catalog::MIOTY::get_next_state(state, input);
        }
        assert_eq!(0, state);
    }
}

#[test]
fn systematic_codes_put_out_their_input() {
    for state in 0..8usize {
        assert_eq!(0, catalog::UMTS::get_output(state, false) & 1);
        assert_eq!(1, catalog::UMTS::get_output(state, true) & 1);
    }
    for state in 0..4usize {
        assert_eq!(0, catalog::ABRANTES::get_output(state, false) & 1);
        assert_eq!(1, catalog::ABRANTES::get_output(state, true) & 1);
    }
}

#[test]
fn encoders_with_the_same_input_agree() {
    let input = [true, false, false, true, true, true, false, true, false];
    let mut first = ConvolutionalEncoder::<catalog::UMTS>::new();
    let mut second = ConvolutionalEncoder::<catalog::UMTS>::default();
    for bit in input {
        assert_eq!(first.get_output(bit), second.get_output(bit));
    }
    for _ in 0..3 {
        assert_eq!(first.get_termination_output(), second.get_termination_output());
    }
    // Both are back in the zero state: they encode as a new encoder does.
    let mut fresh = ConvolutionalEncoder::<catalog::UMTS>::new();
    let expected = fresh.get_output(true);
    assert_eq!(expected, first.get_output(true));
    assert_eq!(expected, second.get_output(true));
}
