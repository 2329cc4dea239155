use tape_machine::escape::{escape_byte, escape_output};

#[test]
fn escape_agrees_with_std_on_every_byte() {
    for b in 0..=255u8 {
        let expected: Vec<u8> = std::ascii::escape_default(b).collect();
        assert_eq!(escape_byte(b), expected, "byte {}", b);
    }
}

#[test]
fn escape_named_control_bytes() {
    assert_eq!(escape_byte(b'\t'), b"\\t".to_vec());
    assert_eq!(escape_byte(b'\r'), b"\\r".to_vec());
    assert_eq!(escape_byte(b'\n'), b"\\n".to_vec());
    assert_eq!(escape_byte(b'\''), b"\\'".to_vec());
    assert_eq!(escape_byte(b'"'), b"\\\"".to_vec());
    assert_eq!(escape_byte(b'\\'), b"\\\\".to_vec());
}

#[test]
fn escape_printable_bytes_stay() {
    assert_eq!(escape_byte(b' '), b" ".to_vec());
    assert_eq!(escape_byte(b'A'), b"A".to_vec());
    assert_eq!(escape_byte(b'~'), b"~".to_vec());
}

#[test]
fn escape_other_bytes_as_lower_case_hex() {
    assert_eq!(escape_byte(0), b"\\x00".to_vec());
    assert_eq!(escape_byte(0x1f), b"\\x1f".to_vec());
    assert_eq!(escape_byte(0x7f), b"\\x7f".to_vec());
    assert_eq!(escape_byte(0x9d), b"\\x9d".to_vec());
    assert_eq!(escape_byte(0xff), b"\\xff".to_vec());
}

#[test]
fn escape_output_concatenates() {
    assert_eq!(escape_output(&Vec::new()), Vec::<u8>::new());
    assert_eq!(escape_output(&b"Hi\n\x01!".to_vec()), b"Hi\\n\\x01!".to_vec());
}
