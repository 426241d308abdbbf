use rust_nostr_wasm::json::{write_decimal, write_quoted};

fn quoted(s: &[u8]) -> Vec<u8> {
    let mut out = Vec::new();
    write_quoted(&mut out, s);
    out
}

fn decimal(n: u64) -> Vec<u8> {
    let mut out = Vec::new();
    write_decimal(&mut out, n);
    out
}

#[test]
fn plain_text_goes_between_quotes() {
    assert_eq!(quoted(b"hello"), b"\"hello\"".to_vec());
    assert_eq!(quoted(b""), b"\"\"".to_vec());
}

#[test]
fn quote_and_backslash_are_escaped() {
    assert_eq!(quoted(b"a\"b"), b"\"a\\\"b\"".to_vec());
    assert_eq!(quoted(b"a\\b"), b"\"a\\\\b\"".to_vec());
    assert_eq!(quoted(b"\\\""), b"\"\\\\\\\"\"".to_vec());
}

#[test]
fn control_characters_with_a_letter() {
    assert_eq!(quoted(&[0x08]), b"\"\\b\"".to_vec());
    assert_eq!(quoted(&[0x09]), b"\"\\t\"".to_vec());
    assert_eq!(quoted(&[0x0a]), b"\"\\n\"".to_vec());
    assert_eq!(quoted(&[0x0c]), b"\"\\f\"".to_vec());
    assert_eq!(quoted(&[0x0d]), b"\"\\r\"".to_vec());
}

#[test]
fn other_control_characters_as_four_digits() {
    assert_eq!(quoted(&[0x00]), b"\"\\u0000\"".to_vec());
    assert_eq!(quoted(&[0x01]), b"\"\\u0001\"".to_vec());
    assert_eq!(quoted(&[0x0b]), b"\"\\u000b\"".to_vec());
    assert_eq!(quoted(&[0x0e]), b"\"\\u000e\"".to_vec());
    assert_eq!(quoted(&[0x10]), b"\"\\u0010\"".to_vec());
    assert_eq!(quoted(&[0x1a]), b"\"\\u001a\"".to_vec());
    assert_eq!(quoted(&[0x1f]), b"\"\\u001f\"".to_vec());
}

#[test]
fn slash_delete_and_separators_stand_for_themselves() {
    assert_eq!(quoted(b"a/b"), b"\"a/b\"".to_vec());
    assert_eq!(quoted(&[0x7f]), vec![0x22, 0x7f, 0x22]);
    assert_eq!(quoted(&[0x20]), b"\" \"".to_vec());
    let separators = "\u{2028}\u{2029}";
    let mut expected = vec![0x22];
    expected.extend_from_slice(separators.as_bytes());
    expected.push(0x22);
    assert_eq!(quoted(separators.as_bytes()), expected);
}

#[test]
fn multi_byte_characters_are_copied() {
    let text = "h\u{e9}llo \u{1f600}";
    let mut expected = vec![0x22];
    expected.extend_from_slice(text.as_bytes());
    expected.push(0x22);
    assert_eq!(quoted(text.as_bytes()), expected);
}

#[test]
fn quoting_appends() {
    let mut out = b"[".to_vec();
    write_quoted(&mut out, b"a");
    write_quoted(&mut out, b"b");
    assert_eq!(out, b"[\"a\"\"b\"".to_vec());
}

#[test]
fn numbers_in_decimal() {
    assert_eq!(decimal(0), b"0".to_vec());
    assert_eq!(decimal(7), b"7".to_vec());
    assert_eq!(decimal(9), b"9".to_vec());
    assert_eq!(decimal(10), b"10".to_vec());
    assert_eq!(decimal(65535), b"65535".to_vec());
    assert_eq!(decimal(1700000000), b"1700000000".to_vec());
    assert_eq!(decimal(1000000007), b"1000000007".to_vec());
    assert_eq!(decimal(u64::MAX), b"18446744073709551615".to_vec());
}

#[test]
fn numbers_append() {
    let mut out = b"n=".to_vec();
    write_decimal(&mut out, 120);
    assert_eq!(out, b"n=120".to_vec());
}
