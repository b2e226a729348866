use pngme::conversions::{bits_to_byte, bytes_to_u32, char_to_u8, u32_to_bytes, u8_to_bits, u8_to_string};

#[test]
fn big_endian_values() {
    assert_eq!(bytes_to_u32([0, 0, 0, 42]), 42);
    assert_eq!(bytes_to_u32([0xAB, 0xD1, 0xD8, 0x4E]), 2882656334);
    assert_eq!(bytes_to_u32([255, 255, 255, 255]), u32::MAX);
    assert_eq!(u32_to_bytes(2882656334), [0xAB, 0xD1, 0xD8, 0x4E]);
    assert_eq!(u32_to_bytes(258), [0, 0, 1, 2]);
    assert_eq!(bytes_to_u32(u32_to_bytes(123456789)), 123456789);
}

#[test]
fn bit_arrays() {
    assert_eq!(u8_to_bits(0b1010_0001), [true, false, true, false, false, false, false, true]);
    assert_eq!(u8_to_bits(0), [false; 8]);
    assert_eq!(bits_to_byte(&[true, false, true, false, false, false, false, true]), 0b1010_0001);
    assert_eq!(bits_to_byte(&[true; 8]), 255);
    for b in [0u8, 1, 82, 117, 128, 200, 255] {
        assert_eq!(bits_to_byte(&u8_to_bits(b)), b);
    }
}

#[test]
fn single_characters() {
    assert_eq!(u8_to_string(82), "R");
    assert_eq!(u8_to_string(233), "\u{e9}");
    assert_eq!(char_to_u8('t'), 116);
    assert_eq!(char_to_u8('\u{141}'), 0x41);
}
