//! Lowercase hexadecimal text, two digits per byte.

use vstd::prelude::*;
use vstd::utf8::*;
use crate::text::{
    ascii_string, ascii_text, is_ascii_bytes, lemma_ascii_text_bytes, lemma_utf8_unique,
};

verus! {

/// The ASCII digit that stands for a value below sixteen.
pub open spec fn digit_of(nibble: int) -> u8 {
    if nibble < 10 {
        (48 + nibble) as u8
    } else {
        (87 + nibble) as u8
    }
}

/// Whether a byte is one of `0`..`9` or `a`..`f`.
pub open spec fn is_digit(c: u8) -> bool {
    (48 <= c && c <= 57) || (97 <= c && c <= 102)
}

/// The value of a digit.
pub open spec fn value_of(c: u8) -> int {
    if c <= 57 {
        c - 48
    } else {
        c - 87
    }
}

/// The text of a byte string: the high digit of each byte, then the low one.
pub open spec fn encoded(bytes: Seq<u8>) -> Seq<u8> {
    Seq::new(
        2 * bytes.len(),
        |i: int|
            if i % 2 == 0 {
                digit_of(bytes[i / 2] as int / 16)
            } else {
                digit_of(bytes[i / 2] as int % 16)
            },
    )
}

/// Whether a text is an even number of lowercase digits.
pub open spec fn well_formed(text: Seq<u8>) -> bool {
    &&& text.len() % 2 == 0
    &&& forall|i: int| 0 <= i < text.len() ==> is_digit(#[trigger] text[i])
}

/// The bytes that a well-formed text stands for.
pub open spec fn decoded(text: Seq<u8>) -> Seq<u8> {
    Seq::new(
        text.len() / 2,
        |i: int| (16 * value_of(text[2 * i]) + value_of(text[2 * i + 1])) as u8,
    )
}

/// Decoding inverts encoding, for every byte string.
pub proof fn lemma_decode_encode(bytes: Seq<u8>)
    ensures
        well_formed(encoded(bytes)),
        decoded(encoded(bytes)) == bytes,
{
    let text = encoded(bytes);
    assert(decoded(text) =~= bytes);
}

/// Encoding inverts decoding, for every well-formed text.
pub proof fn lemma_encode_decode(text: Seq<u8>)
    requires
        well_formed(text),
    ensures
        encoded(decoded(text)) == text,
{
    let bytes = decoded(text);
    assert forall|i: int| 0 <= i < text.len() implies encoded(bytes)[i] == text[i] by {
        let k = i / 2;
        assert(is_digit(text[2 * k]));
        assert(is_digit(text[2 * k + 1]));
    }
    assert(encoded(bytes) =~= text);
}

/// Two byte strings with the same text are the same.
pub proof fn lemma_encoded_injective(a: Seq<u8>, b: Seq<u8>)
    requires
        encoded(a) == encoded(b),
    ensures
        a == b,
{
    lemma_decode_encode(a);
    lemma_decode_encode(b);
}

fn digit(nibble: u8) -> (c: u8)
    requires
        nibble < 16,
    ensures
        c == digit_of(nibble as int),
        is_digit(c),
{
    if nibble < 10 {
        48 + nibble
    } else {
        87 + nibble
    }
}

fn value(c: u8) -> (v: Option<u8>)
    ensures
        v is Some <==> is_digit(c),
        v is Some ==> v->0 == value_of(c) && v->0 < 16,
{
    if 48 <= c && c <= 57 {
        Some(c - 48)
    } else if 97 <= c && c <= 102 {
        Some(c - 87)
    } else {
        None
    }
}

/// Appends the text of `bytes` to `out`.
pub fn write_digits(out: &mut Vec<u8>, bytes: &[u8])
    ensures
        final(out)@ == old(out)@ + encoded(bytes@),
{
    let ghost before = out@;
    let mut i: usize = 0;
    while i < bytes.len()
        invariant
            i <= bytes.len(),
            out@ == before + encoded(bytes@.take(i as int)),
        decreases bytes.len() - i,
    {
        let b: u8 = bytes[i];
        out.push(digit(b / 16));
        out.push(digit(b % 16));
        proof {
            let shorter = bytes@.take(i as int);
            let longer = bytes@.take(i + 1);
            assert(out@ =~= before + encoded(longer));
        }
        i += 1;
    }
    assert(bytes@.take(i as int) == bytes@);
}

/// The text of `bytes`.
pub fn encode(bytes: &[u8]) -> (text: Vec<u8>)
    ensures
        text@ == encoded(bytes@),
{
    let mut text: Vec<u8> = Vec::new();
    write_digits(&mut text, bytes);
    text
}

/// The bytes that `text` stands for, if it is well formed.
pub fn decode(text: &[u8]) -> (bytes: Option<Vec<u8>>)
    ensures
        bytes is Some <==> well_formed(text@),
        bytes is Some ==> bytes->0@ == decoded(text@),
{
    if text.len() % 2 != 0 {
        return None;
    }
    let mut bytes: Vec<u8> = Vec::new();
    let mut i: usize = 0;
    while i < text.len() / 2
        invariant
            text.len() % 2 == 0,
            i <= text.len() / 2,
            bytes@.len() == i,
            forall|j: int| 0 <= j < 2 * i ==> is_digit(#[trigger] text@[j]),
            forall|j: int| 0 <= j < i ==> #[trigger] bytes@[j] == decoded(text@)[j],
        decreases text.len() / 2 - i,
    {
        let high: Option<u8> = value(text[2 * i]);
        let low: Option<u8> = value(text[2 * i + 1]);
        match (high, low) {
            (Some(h), Some(l)) => {
                bytes.push(16 * h + l);
            },
            _ => {
                assert(!is_digit(text@[2 * i as int]) || !is_digit(text@[2 * i + 1]));
                return None;
            },
        }
        i += 1;
    }
    assert(bytes@ =~= decoded(text@));
    Some(bytes)
}

/// The hexadecimal text of a byte string, as characters.
pub open spec fn hex_text(bytes: Seq<u8>) -> Seq<char> {
    ascii_text(encoded(bytes))
}

/// The bytes that a text of lowercase hexadecimal digits, two for each byte,
/// stands for; `None` for every other text.
pub open spec fn text_bytes(text: Seq<char>) -> Option<Seq<u8>> {
    let digits = encode_utf8(text);
    if well_formed(digits) {
        Some(decoded(digits))
    } else {
        None
    }
}

/// The bytes that a text of exactly `2 * len` lowercase hexadecimal digits
/// stands for; `None` for every other text.
pub open spec fn bytes_from_hex(text: Seq<char>, len: nat) -> Option<Seq<u8>> {
    match text_bytes(text) {
        Some(bytes) => if bytes.len() == len {
            Some(bytes)
        } else {
            None
        },
        None => None,
    }
}

/// Reading the hexadecimal text of a byte string gives the bytes back.
pub proof fn lemma_hex_text_round_trip(bytes: Seq<u8>)
    ensures
        bytes_from_hex(hex_text(bytes), bytes.len()) == Some(bytes),
{
    lemma_decode_encode(bytes);
    lemma_hex_digits_ascii(bytes);
    lemma_ascii_text_bytes(encoded(bytes));
}

/// A text that stands for bytes is the hexadecimal text of those bytes: no
/// two texts stand for the same bytes.
pub proof fn lemma_hex_text_unique(text: Seq<char>, bytes: Seq<u8>)
    requires
        text_bytes(text) == Some(bytes),
    ensures
        hex_text(bytes) == text,
{
    let digits = encode_utf8(text);
    lemma_encode_decode(digits);
    lemma_hex_digits_ascii(bytes);
    lemma_ascii_text_bytes(digits);
    lemma_utf8_unique(hex_text(bytes), text);
}

/// Hexadecimal digits are ASCII.
pub proof fn lemma_hex_digits_ascii(bytes: Seq<u8>)
    ensures
        is_ascii_bytes(encoded(bytes)),
{
}

/// The lowercase hexadecimal text of `bytes`.
pub fn to_hex_string(bytes: &[u8]) -> (s: String)
    ensures
        s@ == hex_text(bytes@),
{
    let digits: Vec<u8> = encode(bytes);
    proof {
        lemma_hex_digits_ascii(bytes@);
    }
    ascii_string(digits.as_slice())
}

/// The bytes that `text` stands for, if it is lowercase hexadecimal digits,
/// two for each byte.
pub fn parse(text: &str) -> (r: Option<Vec<u8>>)
    ensures
        r is Some <==> text_bytes(text@) is Some,
        r is Some ==> Some(r->0@) == text_bytes(text@),
{
    decode(text.as_bytes())
}

/// The bytes that `text` stands for, if it is exactly `2 * len` lowercase
/// hexadecimal digits.
pub fn parse_exact(text: &str, len: usize) -> (r: Option<Vec<u8>>)
    ensures
        r is Some <==> bytes_from_hex(text@, len as nat) is Some,
        r is Some ==> Some(r->0@) == bytes_from_hex(text@, len as nat),
{
    match parse(text) {
        Some(bytes) => if bytes.len() == len {
            Some(bytes)
        } else {
            None
        },
        None => None,
    }
}

} // verus!
