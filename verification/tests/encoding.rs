use blockchain::encoding::{i128_to_be_bytes, i128_to_bits, u128_to_be_bytes};

#[test]
fn zero_encodes_as_sixteen_zero_bytes() {
    assert_eq!(u128_to_be_bytes(0), [0u8; 16]);
    assert_eq!(i128_to_be_bytes(0), [0u8; 16]);
}

#[test]
fn one_sets_only_the_last_byte() {
    let mut expected = [0u8; 16];
    expected[15] = 1;
    assert_eq!(u128_to_be_bytes(1), expected);
    assert_eq!(i128_to_be_bytes(1), expected);
}

#[test]
fn bytes_come_most_significant_first() {
    assert_eq!(
        u128_to_be_bytes(0x0102_0304_0506_0708_090a_0b0c_0d0e_0f10),
        [1, 2, 3, 4, 5, 6, 7, 8, 9, 10, 11, 12, 13, 14, 15, 16]
    );
    assert_eq!(
        u128_to_be_bytes(1_700_000_000_123),
        [0, 0, 0, 0, 0, 0, 0, 0, 0, 0, 0x01, 0x8b, 0xcf, 0xe5, 0x68, 0x7b]
    );
    assert_eq!(u128_to_be_bytes(256), [0, 0, 0, 0, 0, 0, 0, 0, 0, 0, 0, 0, 0, 0, 1, 0]);
}

#[test]
fn largest_value_encodes_as_all_ones() {
    assert_eq!(u128_to_be_bytes(u128::MAX), [0xffu8; 16]);
}

#[test]
fn encoding_agrees_with_the_standard_library() {
    let samples: [u128; 5] = [0, 255, 65_536, 1 << 127, 0xdead_beef_0000_0000_0000_0000_cafe_f00d];
    for value in samples {
        assert_eq!(u128_to_be_bytes(value), value.to_be_bytes());
    }
}

#[test]
fn negative_nonces_use_twos_complement() {
    assert_eq!(i128_to_be_bytes(-1), [0xffu8; 16]);
    let mut minus_two = [0xffu8; 16];
    minus_two[15] = 0xfe;
    assert_eq!(i128_to_be_bytes(-2), minus_two);
    let mut lowest = [0u8; 16];
    lowest[0] = 0x80;
    assert_eq!(i128_to_be_bytes(i128::MIN), lowest);
    let mut highest = [0xffu8; 16];
    highest[0] = 0x7f;
    assert_eq!(i128_to_be_bytes(i128::MAX), highest);
}

#[test]
fn signed_encoding_agrees_with_the_standard_library() {
    let samples: [i128; 6] = [0, 1, -1, 129, -129, i128::MIN + 1];
    for value in samples {
        assert_eq!(i128_to_be_bytes(value), value.to_be_bytes());
    }
}

#[test]
fn bits_of_a_signed_value() {
    assert_eq!(i128_to_bits(0), 0);
    assert_eq!(i128_to_bits(5), 5);
    assert_eq!(i128_to_bits(i128::MAX), (1u128 << 127) - 1);
    assert_eq!(i128_to_bits(-1), u128::MAX);
    assert_eq!(i128_to_bits(-2), u128::MAX - 1);
    assert_eq!(i128_to_bits(i128::MIN), 1u128 << 127);
}
