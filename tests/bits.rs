use chip8::util::Bits;

#[test]
fn test_bits() {
    let mut bits = Bits::new(0b0110_1001);

    assert_eq!(bits.next(), Some(false));
    assert_eq!(bits.next(), Some(true));
    assert_eq!(bits.next(), Some(true));
    assert_eq!(bits.next(), Some(false));

    assert_eq!(bits.next(), Some(true));
    assert_eq!(bits.next(), Some(false));
    assert_eq!(bits.next(), Some(false));
    assert_eq!(bits.next(), Some(true));
    assert_eq!(bits.next(), None);

    let mut bits = Bits::new(0b1100_1100).rev();

    assert_eq!(bits.next(), Some(false));
    assert_eq!(bits.next(), Some(false));
    assert_eq!(bits.next(), Some(true));
    assert_eq!(bits.next(), Some(true));

    assert_eq!(bits.next(), Some(false));
    assert_eq!(bits.next(), Some(false));
    assert_eq!(bits.next(), Some(true));
    assert_eq!(bits.next(), Some(true));
    assert_eq!(bits.next(), None);

    let mut bits = Bits::new(0b0000_0000);

    assert_eq!(bits.next(), Some(false));
    assert_eq!(bits.next(), Some(false));
    assert_eq!(bits.next(), Some(false));
    assert_eq!(bits.next(), Some(false));

    assert_eq!(bits.next(), Some(false));
    assert_eq!(bits.next(), Some(false));
    assert_eq!(bits.next(), Some(false));
    assert_eq!(bits.next(), Some(false));
    assert_eq!(bits.next(), None);

    let mut bits = Bits::new(0b1111_1111);

    assert_eq!(bits.next(), Some(true));
    assert_eq!(bits.next(), Some(true));
    assert_eq!(bits.next(), Some(true));
    assert_eq!(bits.next(), Some(true));

    assert_eq!(bits.next(), Some(true));
    assert_eq!(bits.next(), Some(true));
    assert_eq!(bits.next(), Some(true));
    assert_eq!(bits.next(), Some(true));
    assert_eq!(bits.next(), None);

    let mut bits = Bits::new(0b0101_0101);

    assert_eq!(bits.next(), Some(false));
    assert_eq!(bits.next(), Some(true));
    assert_eq!(bits.next(), Some(false));
    assert_eq!(bits.next(), Some(true));

    assert_eq!(bits.next(), Some(false));
    assert_eq!(bits.next(), Some(true));
    assert_eq!(bits.next(), Some(false));
    assert_eq!(bits.next(), Some(true));
    assert_eq!(bits.next(), None);

    let mut bits = Bits::new(0b1010_1010);

    assert_eq!(bits.next(), Some(true));
    assert_eq!(bits.next(), Some(false));
    assert_eq!(bits.next(), Some(true));
    assert_eq!(bits.next(), Some(false));

    assert_eq!(bits.next(), Some(true));
    assert_eq!(bits.next(), Some(false));
    assert_eq!(bits.next(), Some(true));
    assert_eq!(bits.next(), Some(false));
    assert_eq!(bits.next(), None);
}

#[test]
fn bits_next_back_takes_from_the_right() {
    let mut bits = Bits::new(0b1000_0001);
    assert_eq!(bits.next_back(), Some(true));
    assert_eq!(bits.next_back(), Some(false));
    assert_eq!(bits.next(), Some(false));
}

#[test]
fn bits_read_back_spell_the_byte() {
    for byte in 0..=255u8 {
        let mut bits = Bits::new(byte);
        let mut value: u32 = 0;
        let mut count = 0;
        while let Some(bit) = bits.next() {
            value = value * 2 + bit as u32;
            count += 1;
        }
        assert_eq!(count, 8);
        assert_eq!(value, byte as u32);
    }
}

#[test]
fn bits_reversed_are_least_significant_first() {
    for byte in 0..=255u8 {
        let mut bits = Bits::new(byte).rev();
        for k in 0..8 {
            assert_eq!(bits.next(), Some((byte >> k) & 1 == 1));
        }
        assert_eq!(bits.next(), None);
    }
}
