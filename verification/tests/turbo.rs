use bitvec::order::Msb0;
use bitvec::view::BitView as _;
use turbofec::bitview::Msb0Bits;
use turbofec::catalog;
use turbofec::convolutional::bcjr::BcjrSymbol;
use turbofec::convolutional::EncoderOutput;
use turbofec::interleaver::qpp::QppInterleaver;
use turbofec::interleaver::umts::create;
use turbofec::turbo::umts::UmtsTurboDecoder;
use turbofec::turbo::{trellis_bits, TurboEncoder, TurboOutput, TurboOutputBuffer, TurboSymbol};
use turbofec::{BitView, LlrMul};

#[test]
fn can_decode_excel_example() {
    // Given
    let decoder = UmtsTurboDecoder::<catalog::UMTS>::default();
    let interleaver = QppInterleaver::new(16, 1, 4);
    let mut iteration_results = Vec::new();

    let input = [
        TurboSymbol::new(-4, -4, -4),
        TurboSymbol::new(-4, -4, -4),
        TurboSymbol::new(-4, -4, -4),
        TurboSymbol::new(4, 4, 4),
        TurboSymbol::new(-4, 4, 4),
        TurboSymbol::new(-4, 4, 4),
        TurboSymbol::new(4, -4, -4),
        TurboSymbol::new(4, -4, 4),
        TurboSymbol::new(-4, -4, 4),
        TurboSymbol::new(-4, 4, -4),
        TurboSymbol::new(-4, 4, -4),
        TurboSymbol::new(-4, 4, 4),
        TurboSymbol::new(-4, -4, -4),
        TurboSymbol::new(-4, -4, 4),
        TurboSymbol::new(4, -4, -4),
        TurboSymbol::new(-4, 4, 4),
    ];
    let first_termination = [
        BcjrSymbol::new(4, 4),
        BcjrSymbol::new(-4, 4),
        BcjrSymbol::new(4, 4),
    ];
    let second_termination = [
        BcjrSymbol::new(-4, -4),
        BcjrSymbol::new(-4, -4),
        BcjrSymbol::new(-4, -4),
    ];

    // When
    let mut decoding = decoder.decode(
        &input,
        &interleaver,
        &first_termination,
        &second_termination,
    );

    iteration_results.push(decoding.get_result().to_vec());

    for _ in 0..2 {
        decoding.run_decode_iteration();
        iteration_results.push(decoding.get_result().to_vec());
    }

    // Then
    assert_eq!([0; 16].to_vec(), iteration_results[0]);
    assert_eq!(
        [-72, -52, -68, 44, -68, -72, 68, 68, -60, -72, -52, -60, -60, -52, 44, -52].to_vec(),
        iteration_results[1]
    );
    assert_eq!(
        [-108, -84, -92, 59, -92, -108, 88, 46, -76, -84, -60, -68, -76, -60, 44, -52].to_vec(),
        iteration_results[2]
    );
}

#[test]
fn can_encode_from_boolslice() {
    let input = [false; 8].as_ref();

    let encoder = TurboEncoder::<catalog::UMTS>::default();
    let interleaver = QppInterleaver::new(input.len(), 3, 0);
    let mut writer = TurboEncoderOutputWriterStub::new();

    writer.encode(&encoder, input, &interleaver);
}

#[test]
fn can_encode_from_fixedboolslice() {
    let input = [false; 8];

    let encoder = TurboEncoder::<catalog::UMTS>::default();
    let interleaver = QppInterleaver::new(input.len(), 3, 0);
    let mut writer = TurboEncoderOutputWriterStub::new();

    writer.encode(&encoder, &input, &interleaver);
}

#[test]
fn can_encode_from_bitslice() {
    let input = &[0x00u8];
    let bitslice = Msb0Bits::new(input);
    assert_eq!(8, bitslice.len2());
    assert_eq!(8, input.view_bits::<Msb0>().len());

    let encoder = TurboEncoder::<catalog::UMTS>::default();
    let interleaver = QppInterleaver::new(bitslice.len2(), 3, 0);
    let mut writer = TurboEncoderOutputWriterStub::new();

    writer.encode(&encoder, bitslice, &interleaver);
}

#[test]
fn can_encode() {
    can_encode_case(
        &[
            // 0bCBA
            // A: Systematic output from first encoder
            // B: Parity output from first encoder
            // C: Parity output from second encoder
            0b111, 0b001, 0b000, 0b111, 0b111, 0b100, 0b010, 0b111,
            // 0bBA, 0bDC
            // A(C): First (second) encoder termination input
            // B(D): First (second) encoder parity output
            0b00, 0b11, 0b00, 0b00, 0b00, 0b00,
        ],
        &[1, 1, 0, 1, 1, 0, 0, 1],
        3,
        0,
    );

    can_encode_case(
        &[
            0b000, 0b011, 0b101, 0b011, 0b101, 0b010, 0b011, 0b101, 0b110, 0b111, 0b110, 0b000,
            0b001, 0b111, 0b001, 0b010, 0b11, 0b01, 0b10, 0b11, 0b11, 0b00,
        ],
        &[0, 1, 1, 1, 1, 0, 1, 1, 0, 1, 0, 0, 1, 1, 1, 0],
        1,
        4,
    );

    can_encode_case(
        &[
            0b000, 0b100, 0b011, 0b010, 0b101, 0b111, 0b000, 0b111, 0b010, 0b010, 0b101, 0b101,
            0b111, 0b100, 0b100, 0b011, 0b101, 0b100, 0b100, 0b101, 0b110, 0b011, 0b101, 0b101,
            0b01, 0b00, 0b11, 0b10, 0b00, 0b11,
        ],
        &[
            0, 0, 1, 0, 1, 1, 0, 1, 0, 0, 1, 1, 1, 0, 0, 1, 1, 0, 0, 1, 0, 1, 1, 1,
        ],
        1,
        6,
    );

    can_encode_case(
        &[
            0b111, 0b001, 0b011, 0b001, 0b110, 0b011, 0b010, 0b100, 0b001, 0b100, 0b100, 0b101,
            0b101, 0b110, 0b001, 0b110, 0b001, 0b001, 0b000, 0b001, 0b011, 0b001, 0b001, 0b010,
            0b110, 0b100, 0b111, 0b111, 0b000, 0b101, 0b001, 0b101, 0b11, 0b10, 0b00, 0b11, 0b00,
            0b00,
        ],
        &[
            1, 1, 1, 1, 0, 1, 0, 0, 1, 0, 0, 1, 1, 0, 1, 0, 1, 1, 0, 1, 1, 1, 1, 0, 0, 0, 1, 1,
            0, 1, 1, 1,
        ],
        1,
        4,
    );
}

fn can_encode_case(expected: &[EncoderOutput], input: &[u8], f1: u16, f2: u16) {
    // Given
    let input: Vec<bool> = input.into_iter().map(|b| *b == 1).collect();
    let encoder = TurboEncoder::<catalog::UMTS>::default();
    let interleaver = QppInterleaver::new(input.len(), f1, f2);
    let mut writer = TurboEncoderOutputWriterStub::new();

    // When
    writer.encode(&encoder, &input[..], &interleaver);

    // Then
    assert_eq!(3 * expected.len() - 6, writer.written_bit_count);
    assert_eq!(expected, writer.written);
}

/// What a writer has taken: the words in their order, the number of
/// their bits (three in a code word, two in a termination word) and the
/// encoder of each termination word.
struct TurboEncoderOutputWriterStub {
    recorder: TurboOutputBuffer,
    written: Vec<EncoderOutput>,
    written_bit_count: usize,
    tail_encoders: Vec<usize>,
}

impl TurboEncoderOutputWriterStub {
    pub fn new() -> Self {
        Self {
            recorder: TurboOutputBuffer::new(),
            written: Vec::new(),
            written_bit_count: 0,
            tail_encoders: Vec::new(),
        }
    }

    fn encode<S: BitView>(&mut self, encoder: &TurboEncoder<catalog::UMTS>, source: S, interleaver: &QppInterleaver) {
        encoder.encode(source, interleaver, &mut self.recorder);
        for word in self.recorder.words.iter() {
            match word {
                TurboOutput::Data(output) => {
                    self.written.push(*output);
                    self.written_bit_count += 3;
                }
                TurboOutput::Termination(encoder_index, output) => {
                    self.written.push(*output);
                    self.written_bit_count += 2;
                    self.tail_encoders.push(*encoder_index);
                }
            }
        }
    }
}

#[test]
fn bits_of_bytes_come_most_significant_bit_first() {
    let bytes = [0b1101_1001u8, 0b0000_0001];
    let bits = Msb0Bits::new(&bytes);
    assert_eq!(16, bits.len2());
    let read: Vec<bool> = (0..16).map(|i| bits.get(i)).collect();
    let expected: Vec<bool> = [1, 1, 0, 1, 1, 0, 0, 1, 0, 0, 0, 0, 0, 0, 0, 1]
        .iter()
        .map(|b| *b == 1)
        .collect();
    assert_eq!(expected, read);
}

#[test]
fn encoding_from_bytes_agrees_with_encoding_from_bits() {
    // 0b11011001 is the block of the first case of `can_encode`.
    let bytes = [0b1101_1001u8];
    let encoder = TurboEncoder::<catalog::UMTS>::new();
    let interleaver = QppInterleaver::new(8, 3, 0);
    let mut writer = TurboEncoderOutputWriterStub::new();
    writer.encode(&encoder, Msb0Bits::new(&bytes), &interleaver);
    assert_eq!(
        vec![
            0b111, 0b001, 0b000, 0b111, 0b111, 0b100, 0b010, 0b111, 0b00, 0b11, 0b00, 0b00,
            0b00, 0b00
        ],
        writer.written
    );
    // The tails of the two encoders take turns.
    assert_eq!(vec![0, 1, 0, 1, 0, 1], writer.tail_encoders);
}

#[test]
fn views_of_bool_slices_read_the_slice() {
    let bits = [true, false, false, true, true];
    let slice: &[bool] = &bits;
    assert_eq!(5, slice.len2());
    assert_eq!(5, BitView::len2(&&bits));
    for i in 0..5 {
        assert_eq!(bits[i], BitView::get(&slice, i));
        assert_eq!(bits[i], BitView::get(&&bits, i));
    }
}

#[test]
fn hard_bit_gives_the_sign_of_a_soft_value() {
    assert_eq!(5, true.mul(5));
    assert_eq!(-5, false.mul(5));
    assert_eq!(5, false.mul(-5));
    assert_eq!(-128, true.mul(-128));
    assert_eq!(127, false.mul(-128));
    assert_eq!(-127, false.mul(127));
    assert_eq!(0, false.mul(0));
}

#[test]
fn trellis_has_a_stage_for_each_bit_and_for_the_tail() {
    assert_eq!(6147, trellis_bits::<catalog::UMTS>(6144, true));
    assert_eq!(6144, trellis_bits::<catalog::UMTS>(6144, false));
    assert_eq!(42, trellis_bits::<catalog::ABRANTES>(40, true));
    assert_eq!(46, trellis_bits::<catalog::MIOTY>(40, true));
}

fn bits_of(seed: u32, count: usize) -> Vec<bool> {
    let mut x = seed as u64;
    let mut bits = Vec::new();
    for _ in 0..count {
        x = (x * 1103515245 + 12345) % (1 << 31);
        bits.push((x >> 16) & 1 == 1);
    }
    bits
}

fn llr(bit: bool, amplitude: i8) -> i8 {
    if bit {
        amplitude
    } else {
        -amplitude
    }
}

/// Encode a block, send it over a channel without noise and decode it:
/// gives the a-posteriori values before the first and after each iteration.
fn decode_clean_block(bits: &[bool], amplitude: i8, iterations: usize) -> Vec<Vec<i8>> {
    let length = bits.len();
    let interleaver = create(length).unwrap();
    let encoder = TurboEncoder::<catalog::UMTS>::new();
    let mut writer = TurboEncoderOutputWriterStub::new();
    writer.encode(&encoder, bits, &interleaver);
    assert_eq!(length + 6, writer.written.len());

    let input: Vec<TurboSymbol> = writer.written[..length]
        .iter()
        .map(|word| {
            TurboSymbol::new(
                llr(word & 1 == 1, amplitude),
                llr(word & 2 == 2, amplitude),
                llr(word & 4 == 4, amplitude),
            )
        })
        .collect();
    let mut first_termination = Vec::new();
    let mut second_termination = Vec::new();
    for (word, encoder_index) in writer.written[length..].iter().zip(writer.tail_encoders.iter()) {
        let symbol = BcjrSymbol::new(llr(word & 1 == 1, amplitude), llr(word & 2 == 2, amplitude));
        if *encoder_index == 0 {
            first_termination.push(symbol);
        } else {
            second_termination.push(symbol);
        }
    }

    let decoder = UmtsTurboDecoder::<catalog::UMTS>::new();
    let mut decoding = decoder.decode(&input, &interleaver, &first_termination, &second_termination);
    let mut results = vec![decoding.get_result().to_vec()];
    for _ in 0..iterations {
        decoding.run_decode_iteration();
        results.push(decoding.get_result().to_vec());
    }
    results
}

#[test]
fn clean_blocks_are_decoded_with_growing_confidence() {
    for seed in [1u32, 2, 3] {
        let bits = bits_of(seed, 40);
        let results = decode_clean_block(&bits, 1, 4);
        assert_eq!(vec![0i8; 40], results[0]);
        for iteration in 1..results.len() {
            for i in 0..40 {
                assert_eq!(bits[i], results[iteration][i] >= 0);
                assert!(results[iteration][i].unsigned_abs() >= results[iteration - 1][i].unsigned_abs());
            }
        }
        assert_eq!(11, results[1].iter().map(|llr| llr.unsigned_abs()).min().unwrap());
        assert_eq!(13, results[2].iter().map(|llr| llr.unsigned_abs()).min().unwrap());
    }
}

#[test]
fn all_zero_block_is_decoded_with_growing_confidence() {
    let bits = vec![false; 40];
    let results = decode_clean_block(&bits, 4, 5);
    for iteration in 1..results.len() {
        for i in 0..40 {
            assert!(results[iteration][i] < 0);
            assert!(results[iteration][i] <= results[iteration - 1][i]);
        }
    }
    assert_eq!((-72, -44), min_max(&results[1]));
    assert_eq!((-128, -52), min_max(&results[2]));
    assert_eq!((-128, -52), min_max(&results[5]));
}

fn min_max(values: &[i8]) -> (i8, i8) {
    (*values.iter().min().unwrap(), *values.iter().max().unwrap())
}

#[test]
fn clean_blocks_of_every_amplitude_are_decoded_without_errors() {
    for length in [40usize, 64] {
        for amplitude in [4i8, 8, 16] {
            for seed in [1u32, 2, 3] {
                let bits = bits_of(seed, length);
                let results = decode_clean_block(&bits, amplitude, 6);
                for i in 0..length {
                    assert_eq!(bits[i], results[6][i] >= 0);
                }
            }
        }
    }
}

#[test]
fn longest_block_fits_the_decoder() {
    let bits = bits_of(7, 6144);
    let results = decode_clean_block(&bits, 4, 1);
    for i in 0..6144 {
        assert_eq!(bits[i], results[1][i] >= 0);
    }
}

#[test]
fn writer_keeps_the_words_in_their_order() {
    let encoder = TurboEncoder::<catalog::UMTS>::new();
    let interleaver = QppInterleaver::new(8, 3, 0);
    let bits = [true, true, false, true, true, false, false, true];
    let mut recorder = TurboOutputBuffer::new();
    encoder.encode(&bits, &interleaver, &mut recorder);
    assert_eq!(
        vec![
            TurboOutput::Data(0b111),
            TurboOutput::Data(0b001),
            TurboOutput::Data(0b000),
            TurboOutput::Data(0b111),
            TurboOutput::Data(0b111),
            TurboOutput::Data(0b100),
            TurboOutput::Data(0b010),
            TurboOutput::Data(0b111),
            TurboOutput::Termination(0, 0b00),
            TurboOutput::Termination(1, 0b11),
            TurboOutput::Termination(0, 0b00),
            TurboOutput::Termination(1, 0b00),
            TurboOutput::Termination(0, 0b00),
            TurboOutput::Termination(1, 0b00),
        ],
        recorder.words
    );
    // A second block is appended to the first.
    encoder.encode(&bits, &interleaver, &mut recorder);
    assert_eq!(28, recorder.words.len());
    assert_eq!(recorder.words[..14], recorder.words[14..]);
}
