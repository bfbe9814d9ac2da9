use std::collections::HashSet;
use turbofec::interleaver::qpp::QppInterleaver;
use turbofec::interleaver::umts::create;
use turbofec::interleaver::{Interleaver, InterleaverMapping};

#[test]
fn can_interleave_iterator() {
    for length in 0..6144 {
        if let Some(interleaver) = create(length) {
            can_interleave_iterator_case(interleaver);
        }
    }
}

fn can_interleave_iterator_case(interleaver: QppInterleaver) {
    // Given
    let mut interleaved = HashSet::with_capacity(interleaver.len());

    // When
    for i in interleaver.iter() {
        interleaved.insert(*i);
        assert_eq!(interleaver.get(i.0), i.1);
    }

    // Then
    assert_eq!(interleaver.len(), interleaved.len());
}

#[test]
fn can_interleave() {
    // Given
    let interleaver = QppInterleaver::new(16, 1, 4);
    let source: Vec<i8> = (0..16).collect();
    let mut buffer: Vec<i8> = vec![0; 16];

    // When
    interleaver.interleave(&source, &mut buffer);

    // Then
    assert_eq!(
        [0, 5, 2, 7, 4, 9, 6, 11, 8, 13, 10, 15, 12, 1, 14, 3].to_vec(),
        buffer,
    );
}

#[test]
fn can_deinterleave() {
    // Given
    let interleaver = QppInterleaver::new(16, 1, 4);
    let source: Vec<i8> = (0..16).collect();
    let mut buffer: Vec<i8> = vec![0; 16];

    // When
    interleaver.deinterleave(&source, &mut buffer);

    // Then
    assert_eq!(
        [0, 13, 2, 15, 4, 1, 6, 3, 8, 5, 10, 7, 12, 9, 14, 11].to_vec(),
        buffer,
    );
}

#[test]
fn catalog_holds_the_supported_lengths_only() {
    let mut count = 0;
    for length in 0..=7000usize {
        let supported = (40..=504).contains(&length) && length % 8 == 0
            || (512..=1008).contains(&length) && length % 16 == 0
            || (1024..=2016).contains(&length) && length % 32 == 0
            || (2048..=6144).contains(&length) && length % 64 == 0;
        match create(length) {
            Some(interleaver) => {
                assert!(supported);
                assert_eq!(length, interleaver.len());
                count += 1;
            }
            None => assert!(!supported),
        }
    }
    assert_eq!(188, count);
    assert!(create(0).is_none());
    assert!(create(39).is_none());
    assert!(create(41).is_none());
    assert!(create(520).is_none());
    assert!(create(6145).is_none());
    assert!(create(6208).is_none());
}

#[test]
fn catalog_entries_have_their_coefficients() {
    // pi(1) = (f1 + f2) mod k and pi(2) = (2 f1 + 4 f2) mod k
    let cases: [(usize, usize, usize); 8] = [
        (40, 3, 10),
        (48, 7, 12),
        (232, 85, 58),
        (504, 55, 84),
        (512, 31, 64),
        (1024, 31, 64),
        (2048, 31, 64),
        (6144, 263, 480),
    ];
    for (length, f1, f2) in cases {
        let interleaver = create(length).unwrap();
        assert_eq!(0, interleaver.get(0));
        assert_eq!((f1 + f2) % length, interleaver.get(1));
        assert_eq!((2 * f1 + 4 * f2) % length, interleaver.get(2));
    }
    assert_eq!(13, create(40).unwrap().get(1));
    assert_eq!(6, create(40).unwrap().get(2));
    assert_eq!(743, create(6144).unwrap().get(1));
    assert_eq!(217, create(6144).unwrap().get(6143));
}

#[test]
fn every_catalog_entry_is_a_permutation() {
    for length in 0..=6144usize {
        if let Some(interleaver) = create(length) {
            let mut seen = vec![false; length];
            for i in 0..length {
                let ii = interleaver.get(i);
                assert!(ii < length);
                assert!(!seen[ii]);
                seen[ii] = true;
            }
            assert!(seen.iter().all(|s| *s));
        }
    }
}

#[test]
fn interleave_and_deinterleave_round_trip() {
    for length in [40usize, 48, 512, 1008, 1024, 2048, 6144] {
        let interleaver = create(length).unwrap();
        let buffer: Vec<u32> = (0..length as u32).map(|i| i.wrapping_mul(2654435761)).collect();
        let mut interleaved = vec![0u32; length];
        let mut restored = vec![7u32; length];
        interleaver.interleave(&buffer, &mut interleaved);
        interleaver.deinterleave(&interleaved, &mut restored);
        assert_ne!(buffer, interleaved);
        assert_eq!(buffer, restored);
    }
}

#[test]
fn iterator_walks_the_closed_formula() {
    let interleaver = QppInterleaver::new(16, 1, 4);
    let mut iterator = interleaver.iterator();
    assert_eq!((16, Some(16)), iterator.size_hint());
    let mut walked = Vec::new();
    while let Some(InterleaverMapping(i, ii)) = iterator.next() {
        assert_eq!(walked.len(), i);
        walked.push(ii);
    }
    assert_eq!(vec![0, 5, 2, 7, 4, 9, 6, 11, 8, 13, 10, 15, 12, 1, 14, 3], walked);
    assert!(iterator.next().is_none());
    assert!(iterator.next().is_none());
}

#[test]
fn index_of_a_long_block_does_not_overflow() {
    // f2 * i * i exceeds 64 bits here
    let length = usize::MAX;
    let interleaver = QppInterleaver::new(length, 65535, 65535);
    let i = length - 1;
    // i = -1 modulo the length: f1 * i + f2 * i * i = -f1 + f2 = 0
    assert_eq!(0, interleaver.get(i));
    let interleaver = QppInterleaver::new(length, 3, 5);
    assert_eq!(2, interleaver.get(i));
    assert_eq!(8, interleaver.get(1));
}

#[test]
fn interleaver_of_length_zero_has_no_mappings() {
    let interleaver = QppInterleaver::new(0, 1, 4);
    assert_eq!(0, interleaver.len());
    assert!(interleaver.iter().is_empty());
    let source: [u8; 0] = [];
    let mut target: [u8; 0] = [];
    interleaver.interleave(&source, &mut target);
    interleaver.deinterleave(&source, &mut target);
}
