use turbofec::ratematching::puncturer::Puncturer;

#[test]
fn default_puncturer_does_not_puncture() {
    // Given
    let mut puncturer = Puncturer::default();

    // When

    // Then
    assert_eq!(true, puncturer.read_output());
    assert_eq!(true, puncturer.read_output());
}

#[test]
fn can_puncture() {
    // Given
    let mut puncturer = Puncturer::new(3, 0b101);

    // When

    // Then
    assert_eq!(false, puncturer.read_output());
    assert_eq!(true, puncturer.read_output());
    assert_eq!(false, puncturer.read_output());

    assert_eq!(false, puncturer.read_output());
    assert_eq!(true, puncturer.read_output());
    assert_eq!(false, puncturer.read_output());
}

#[test]
fn pattern_of_width_four_punctures_the_second_bit() {
    let mut puncturer = Puncturer::new(4, 0b0010);
    let mut kept = Vec::new();
    for _ in 0..8 {
        kept.push(puncturer.read_output());
    }
    assert_eq!(vec![true, false, true, true, true, false, true, true], kept);
}

#[test]
fn pattern_of_full_width_rotates() {
    let width = usize::BITS as usize;
    let mut puncturer = Puncturer::new(width, 1);
    assert_eq!(false, puncturer.read_output());
    for _ in 1..width {
        assert_eq!(true, puncturer.read_output());
    }
    assert_eq!(false, puncturer.read_output());
}
