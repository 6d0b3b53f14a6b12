use chip8_core::loader::parse_hex_program;

#[test]
fn parse_decodes_digit_pairs() {
    assert_eq!(parse_hex_program(b"6a02"), Some(vec![0x6A, 0x02]));
    assert_eq!(parse_hex_program(b"FF00ab"), Some(vec![0xFF, 0x00, 0xAB]));
    assert_eq!(parse_hex_program(b"00"), Some(vec![0x00]));
}

#[test]
fn parse_skips_non_hex_bytes() {
    assert_eq!(
        parse_hex_program(b"6a 02\n80 14"),
        Some(vec![0x6A, 0x02, 0x80, 0x14])
    );
    assert_eq!(parse_hex_program(b"g1z2"), Some(vec![0x12]));
    assert_eq!(parse_hex_program(b"--"), Some(vec![]));
}

#[test]
fn parse_rejects_odd_digit_count() {
    assert_eq!(parse_hex_program(b"abc"), None);
    assert_eq!(parse_hex_program(b"1"), None);
    assert_eq!(parse_hex_program(b"12 3"), None);
}

#[test]
fn parse_empty_is_empty_program() {
    assert_eq!(parse_hex_program(b""), Some(vec![]));
}

#[test]
fn parse_mixed_case() {
    assert_eq!(parse_hex_program(b"aAbB"), Some(vec![0xAA, 0xBB]));
}
