//! Strings and their UTF-8 bytes.

use vstd::prelude::*;
use vstd::utf8::*;

verus! {

/// Whether every byte is below 128.
pub open spec fn is_ascii_bytes(bytes: Seq<u8>) -> bool {
    forall|i: int| 0 <= i < bytes.len() ==> #[trigger] bytes[i] < 128
}

/// The characters that ASCII bytes stand for.
pub open spec fn ascii_text(bytes: Seq<u8>) -> Seq<char> {
    Seq::new(bytes.len(), |i: int| bytes[i] as char)
}

/// The UTF-8 encoding of an ASCII text is the bytes it was made of.
pub proof fn lemma_ascii_text_bytes(bytes: Seq<u8>)
    requires
        is_ascii_bytes(bytes),
    ensures
        is_ascii_chars(ascii_text(bytes)),
        encode_utf8(ascii_text(bytes)) == bytes,
{
    let chars = ascii_text(bytes);
    assert forall|i: int| 0 <= i < chars.len() implies '\0' <= #[trigger] chars[i] <= '\u{7f}' by {
        assert(bytes[i] < 128);
    }
    is_ascii_chars_encode_utf8(chars);
    assert forall|i: int| 0 <= i < bytes.len() implies encode_utf8(chars)[i] == bytes[i] by {
        assert(chars[i] as u8 == encode_utf8(chars)[i]);
        assert(bytes[i] < 128);
    }
    assert(encode_utf8(chars) =~= bytes);
}

/// Texts are told apart by their UTF-8 bytes.
pub proof fn lemma_utf8_unique(a: Seq<char>, b: Seq<char>)
    requires
        encode_utf8(a) == encode_utf8(b),
    ensures
        a == b,
{
    encode_utf8_decode_utf8(a);
    encode_utf8_decode_utf8(b);
}

/// A text that begins with an ASCII character has that character as the
/// first byte of its UTF-8 encoding.
pub proof fn lemma_first_byte(text: Seq<char>)
    requires
        text.len() > 0,
        '\0' <= text[0] <= '\u{7f}',
    ensures
        encode_utf8(text).len() > 0,
        encode_utf8(text)[0] == text[0] as u8,
{
    let first = seq![text[0]];
    is_ascii_chars_encode_utf8(first);
    assert(first.drop_first() =~= Seq::<char>::empty());
    assert(encode_utf8(first) =~= encode_scalar(text[0] as u32));
}

/// The string whose characters are the given ASCII bytes.
pub(crate) fn ascii_string(bytes: &[u8]) -> (s: String)
    requires
        is_ascii_bytes(bytes@),
    ensures
        s@ == ascii_text(bytes@),
{
    let mut s: String = String::new();
    let mut i: usize = 0;
    while i < bytes.len()
        invariant
            i <= bytes.len(),
            s@ == ascii_text(bytes@.take(i as int)),
        decreases bytes.len() - i,
    {
        let b: u8 = bytes[i];
        s.push(b as char);
        assert(s@ =~= ascii_text(bytes@.take(i + 1)));
        i += 1;
    }
    assert(bytes@.take(i as int) == bytes@);
    s
}

} // verus!
