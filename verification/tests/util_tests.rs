use aphrodite::util::{
    i16_as_u8_slice, str_as_i16, str_as_u128, str_as_u32, str_as_u64, u16_as_u8_slice,
    u32_as_u8_slice, u64_as_u8_slice, u8_as_u8_slice, usize_as_u8_slice,
};

#[test]
fn u8_slice_zero_is_leading_zero_char() {
    assert_eq!(u8_as_u8_slice(0), [b'0', 0, 0]);
}

#[test]
fn u8_slice_digits_are_right_aligned() {
    assert_eq!(u8_as_u8_slice(7), [0, 0, b'7']);
    assert_eq!(u8_as_u8_slice(42), [0, b'4', b'2']);
    assert_eq!(u8_as_u8_slice(255), [b'2', b'5', b'5']);
}

#[test]
fn u16_slice_full_width() {
    assert_eq!(u16_as_u8_slice(65535), [b'6', b'5', b'5', b'3', b'5']);
    assert_eq!(u16_as_u8_slice(0), [b'0', 0, 0, 0, 0]);
}

#[test]
fn u32_slice_full_width() {
    let buf = u32_as_u8_slice(4294967295);
    assert_eq!(&buf, b"4294967295");
    assert_eq!(u32_as_u8_slice(12), [0, 0, 0, 0, 0, 0, 0, 0, b'1', b'2']);
}

#[test]
fn u64_slice_full_width() {
    let buf = u64_as_u8_slice(18446744073709551615);
    assert_eq!(&buf, b"18446744073709551615");
    let buf = u64_as_u8_slice(5);
    assert_eq!(buf[19], b'5');
    assert_eq!(&buf[..19], [0u8; 19]);
}

#[test]
fn usize_slice_matches_u64_behaviour() {
    assert_eq!(usize_as_u8_slice(1000)[16..20], *b"1000");
    assert_eq!(usize_as_u8_slice(0)[0], b'0');
}

#[test]
fn i16_slice_negative_has_sign_and_magnitude() {
    assert_eq!(i16_as_u8_slice(-123), [b'-', 0, 0, b'1', b'2', b'3']);
    assert_eq!(i16_as_u8_slice(32767), [0, b'3', b'2', b'7', b'6', b'7']);
    assert_eq!(i16_as_u8_slice(0), [b'0', 0, 0, 0, 0, 0]);
}

#[test]
fn str_parse_reads_digits_then_reverses_them() {
    // The digits are folded left to right and the result is read back
    // in reverse decimal order.
    assert_eq!(str_as_u32(b"123"), 321);
    assert_eq!(str_as_u64(b"100"), 1);
    assert_eq!(str_as_u128(b"9"), 9);
}

#[test]
fn str_parse_skips_non_digits() {
    assert_eq!(str_as_u32(b"a1b2"), 21);
    assert_eq!(str_as_u64(b""), 0);
}

#[test]
fn str_as_i16_never_negates() {
    // A leading minus sign is skipped but the result stays positive.
    assert_eq!(str_as_i16(b"-12"), 21);
    assert_eq!(str_as_i16(b"7"), 7);
}
