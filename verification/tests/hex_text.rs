use rust_nostr_wasm::hex::{decode, encode, parse, parse_exact, to_hex_string, write_digits};

#[test]
fn encodes_bytes_as_lowercase_digits() {
    assert_eq!(encode(b"foobar"), b"666f6f626172".to_vec());
    assert_eq!(encode(&[0x00, 0x0f, 0xf0, 0xff, 0xa9]), b"000ff0ffa9".to_vec());
    assert_eq!(encode(&[]), Vec::<u8>::new());
}

#[test]
fn write_appends_to_what_is_there() {
    let mut out = b"x=".to_vec();
    write_digits(&mut out, &[0xde, 0xad]);
    assert_eq!(out, b"x=dead".to_vec());
}

#[test]
fn decodes_lowercase_digits() {
    assert_eq!(decode(b"666f6f626172"), Some(b"foobar".to_vec()));
    assert_eq!(decode(b"000ff0ffa9"), Some(vec![0x00, 0x0f, 0xf0, 0xff, 0xa9]));
    assert_eq!(decode(b""), Some(vec![]));
}

#[test]
fn refuses_odd_length() {
    assert_eq!(decode(b"abc"), None);
    assert_eq!(decode(b"0"), None);
}

#[test]
fn refuses_uppercase_and_other_characters() {
    assert_eq!(decode(b"DEAD"), None);
    assert_eq!(decode(b"dEad"), None);
    assert_eq!(decode(b"0g"), None);
    assert_eq!(decode(b"g0"), None);
    assert_eq!(decode(b" 0"), None);
    assert_eq!(decode(b"0x"), None);
    assert_eq!(decode(&[0x2f, 0x30]), None);
    assert_eq!(decode(&[0x3a, 0x30]), None);
    assert_eq!(decode(&[0x60, 0x30]), None);
    assert_eq!(decode(&[0x67, 0x30]), None);
}

#[test]
fn every_byte_survives_the_round_trip() {
    let all: Vec<u8> = (0..=255u8).collect();
    let text = encode(&all);
    assert_eq!(text.len(), 512);
    assert_eq!(decode(&text), Some(all));
}

#[test]
fn every_pair_of_digits_survives_the_round_trip() {
    let digits = b"0123456789abcdef";
    for high in digits.iter() {
        for low in digits.iter() {
            let text = vec![*high, *low];
            let bytes = decode(&text).unwrap();
            assert_eq!(encode(&bytes), text);
        }
    }
}

#[test]
fn strings_carry_the_same_digits() {
    assert_eq!(to_hex_string(&[0x01, 0xab, 0xff]), "01abff");
    assert_eq!(to_hex_string(&[]), "");
    assert_eq!(parse("01abff"), Some(vec![0x01, 0xab, 0xff]));
    assert_eq!(parse(""), Some(vec![]));
    assert_eq!(parse("01ABFF"), None);
    assert_eq!(parse("01abf"), None);
    assert_eq!(parse("01ab\u{e9}f"), None);
}

#[test]
fn exact_length_is_enforced() {
    assert_eq!(parse_exact("01abff", 3), Some(vec![0x01, 0xab, 0xff]));
    assert_eq!(parse_exact("01abff", 2), None);
    assert_eq!(parse_exact("01abff", 4), None);
    assert_eq!(parse_exact("", 0), Some(vec![]));
    assert_eq!(parse_exact("zz", 1), None);
}
