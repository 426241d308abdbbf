//! Public keys and their two text forms: 64 lowercase hexadecimal digits, and
//! bech32 with the prefix `npub`.

use vstd::prelude::*;
use vstd::utf8::*;
use crate::bytes::{array_of, same_bytes};
use crate::error::NostrError;
use crate::hex::{
    bytes_from_hex, hex_text, is_digit, lemma_hex_text_round_trip, lemma_hex_text_unique,
    parse_exact, text_bytes, to_hex_string,
};
use crate::outside::{
    decode_npub, derived_public_key, encode_npub, fresh_key_pair, has_npub_prefix, key_of_npub,
    npub_of, npub_shaped,
};
use crate::text::lemma_first_byte;

verus! {

/// The key that a text stands for as a bech32 string with the prefix
/// `npub`: what the decoder reads from a text that begins with that prefix.
pub open spec fn npub_key(text: Seq<char>) -> Option<Seq<u8>> {
    if has_npub_prefix(text) {
        key_of_npub(text)
    } else {
        None
    }
}

/// The bech32 form of a key: the text that the encoder gives, where it has
/// the shape of an encoded key and the decoder reads the key back from it.
pub open spec fn bech32_form(key: Seq<u8>) -> Option<Seq<char>> {
    let text = npub_of(key);
    if npub_shaped(text) && npub_key(text) == Some(key) {
        Some(text)
    } else {
        None
    }
}

/// The key that a text stands for: tried as hexadecimal first, then as
/// bech32.
pub open spec fn parsed_key(text: Seq<char>) -> Option<Seq<u8>> {
    if bytes_from_hex(text, 32) is Some {
        bytes_from_hex(text, 32)
    } else {
        npub_key(text)
    }
}

/// A public key: the 32 bytes of an x coordinate.
#[derive(Debug, Clone, Copy, PartialEq, Eq)]
pub struct PublicKey {
    pub bytes: [u8; 32],
}

impl View for PublicKey {
    type V = Seq<u8>;

    open spec fn view(&self) -> Seq<u8> {
        self.bytes@
    }
}

impl PublicKey {
    /// The key made of the given bytes.
    pub fn from_byte_array(bytes: [u8; 32]) -> (key: PublicKey)
        ensures
            key@ == bytes@,
    {
        PublicKey { bytes }
    }

    /// The key's bytes.
    pub fn to_bytes(&self) -> (bytes: [u8; 32])
        ensures
            bytes@ == self@,
    {
        self.bytes
    }

    /// The key that 64 lowercase hexadecimal digits stand for. Every other
    /// text is refused.
    pub fn from_hex(text: &str) -> (r: Result<PublicKey, NostrError>)
        ensures
            match r {
                Ok(key) => bytes_from_hex(text@, 32) == Some(key@),
                Err(e) => e == NostrError::InvalidKeyEncoding && bytes_from_hex(text@, 32) is None,
            },
    {
        match parse_exact(text, 32) {
            Some(bytes) => Ok(PublicKey { bytes: array_of(&bytes) }),
            None => Err(NostrError::InvalidKeyEncoding),
        }
    }

    /// The key as 64 lowercase hexadecimal digits.
    pub fn to_hex(&self) -> (s: String)
        ensures
            s@ == hex_text(self@),
    {
        to_hex_string(self.bytes.as_slice())
    }

    /// The key as a bech32 string with the prefix `npub`. The text is read
    /// back before it is handed out, and one that does not give the key is
    /// not handed out.
    pub fn to_bech32(&self) -> (r: Result<String, NostrError>)
        ensures
            match r {
                Ok(s) => bech32_form(self@) == Some(s@),
                Err(e) => e == NostrError::EncodingFailure && bech32_form(self@) is None,
            },
    {
        match encode_npub(&self.bytes) {
            Ok(s) => match decode_npub(s.as_str()) {
                Ok(back) => if same_bytes(back.as_slice(), self.bytes.as_slice()) {
                    Ok(s)
                } else {
                    Err(NostrError::EncodingFailure)
                },
                Err(_) => Err(NostrError::EncodingFailure),
            },
            Err(_) => Err(NostrError::EncodingFailure),
        }
    }

    /// The key that a bech32 string with the prefix `npub` stands for. A
    /// text without that prefix is refused.
    pub fn from_bech32(npub: &str) -> (r: Result<PublicKey, NostrError>)
        ensures
            match r {
                Ok(key) => npub_key(npub@) == Some(key@),
                Err(e) => e == NostrError::InvalidKeyEncoding && npub_key(npub@) is None,
            },
    {
        match decode_npub(npub) {
            Ok(bytes) => Ok(PublicKey { bytes }),
            Err(_) => Err(NostrError::InvalidKeyEncoding),
        }
    }
}

/// Reads a public key from its hexadecimal or its bech32 form.
pub fn parse_public_key(input: &str) -> (r: Result<PublicKey, NostrError>)
    ensures
        match r {
            Ok(key) => parsed_key(input@) == Some(key@),
            Err(e) => e == NostrError::InvalidKeyEncoding && parsed_key(input@) is None,
        },
{
    match PublicKey::from_hex(input) {
        Ok(key) => Ok(key),
        Err(_) => PublicKey::from_bech32(input),
    }
}

/// Reading the hexadecimal form of a key gives the key back: what `to_hex`
/// writes, `parse_public_key` and `PublicKey::from_hex` read as the same key.
pub proof fn lemma_hex_form_round_trip(key: PublicKey)
    ensures
        bytes_from_hex(hex_text(key@), 32) == Some(key@),
        parsed_key(hex_text(key@)) == Some(key@),
{
    lemma_hex_text_round_trip(key@);
}

/// A text in hexadecimal form is the form that `to_hex` writes of the key
/// it stands for: a key has one hexadecimal form.
pub proof fn lemma_hex_form_unique(text: Seq<char>, key: Seq<u8>)
    requires
        bytes_from_hex(text, 32) == Some(key),
    ensures
        hex_text(key) == text,
{
    lemma_hex_text_unique(text, key);
}

/// No text is a key in both forms: one that begins with the prefix `npub`
/// is no hexadecimal text, since `n` is no digit, and one that is
/// hexadecimal text is read as no bech32 string.
pub proof fn lemma_forms_disjoint(text: Seq<char>)
    ensures
        has_npub_prefix(text) ==> text_bytes(text) is None,
        text_bytes(text) is Some ==> npub_key(text) is None,
        forall|len: nat| bytes_from_hex(text, len) is Some ==> npub_key(text) is None,
{
    if has_npub_prefix(text) {
        assert(text.subrange(0, 5)[0] == text[0]);
        lemma_first_byte(text);
        assert(!is_digit(encode_utf8(text)[0]));
    }
}

/// Reading the bech32 form of a key gives the key back: what `to_bech32`
/// writes, `PublicKey::from_bech32` and `parse_public_key` read as the same
/// key.
pub proof fn lemma_bech32_form_round_trip(key: PublicKey, text: Seq<char>)
    requires
        bech32_form(key@) == Some(text),
    ensures
        npub_key(text) == Some(key@),
        parsed_key(text) == Some(key@),
{
    lemma_forms_disjoint(text);
}

/// The two text conversions undo each other: the `npub` form that
/// `public_key_to_npub` gives for a key in hexadecimal is read by
/// `npub_to_public_key` as that hexadecimal text, and that text is again a
/// form of the same key.
pub proof fn lemma_text_forms_round_trip(hex: Seq<char>, npub: Seq<char>)
    requires
        bytes_from_hex(hex, 32) is Some,
        bech32_form(parsed_key(hex)->0) == Some(npub),
    ensures
        npub_key(npub) is Some,
        hex_text(npub_key(npub)->0) == hex,
        parsed_key(hex) == npub_key(npub),
{
    lemma_hex_form_unique(hex, bytes_from_hex(hex, 32)->0);
}

/// A secret key: a 32-byte scalar.
pub struct SecretKey {
    pub bytes: [u8; 32],
}

impl View for SecretKey {
    type V = Seq<u8>;

    open spec fn view(&self) -> Seq<u8> {
        self.bytes@
    }
}

/// A freshly drawn secret key with its public key.
pub struct Keys {
    pub public_key: PublicKey,
    pub secret_key: SecretKey,
}

/// The two keys of a pair as hexadecimal text.
pub struct GeneratedKeys {
    pub public_key: String,
    pub secret_key: String,
}

/// Draws a secret key from the system's random source and derives its public
/// key.
pub fn generate() -> (keys: Keys)
    ensures
        keys.public_key@ == derived_public_key(keys.secret_key@),
{
    let (public, secret) = fresh_key_pair();
    Keys { public_key: PublicKey { bytes: public }, secret_key: SecretKey { bytes: secret } }
}

/// The hexadecimal forms of the two keys of a pair.
pub fn keys_to_hex(keys: &Keys) -> (r: GeneratedKeys)
    ensures
        r.public_key@ == hex_text(keys.public_key@),
        r.secret_key@ == hex_text(keys.secret_key@),
{
    GeneratedKeys {
        public_key: keys.public_key.to_hex(),
        secret_key: to_hex_string(keys.secret_key.bytes.as_slice()),
    }
}

/// Whether two texts are the hexadecimal forms of a secret key and of the
/// public key that belongs to it.
pub open spec fn is_key_pair(public: Seq<char>, secret: Seq<char>) -> bool {
    &&& bytes_from_hex(secret, 32) is Some
    &&& bytes_from_hex(public, 32) == Some(derived_public_key(bytes_from_hex(secret, 32)->0))
}

/// Generates a key pair and gives both keys as 64 lowercase hexadecimal
/// digits.
pub fn generate_keys() -> (r: GeneratedKeys)
    ensures
        is_key_pair(r.public_key@, r.secret_key@),
{
    let keys: Keys = generate();
    proof {
        lemma_hex_text_round_trip(keys.public_key@);
        lemma_hex_text_round_trip(keys.secret_key@);
    }
    keys_to_hex(&keys)
}

/// The `npub` form of a key given in its hexadecimal or its `npub` form.
pub fn public_key_to_npub(hex_pubkey: String) -> (r: Result<String, NostrError>)
    ensures
        match r {
            Ok(s) => parsed_key(hex_pubkey@) is Some && bech32_form(parsed_key(hex_pubkey@)->0)
                == Some(s@),
            Err(e) => match parsed_key(hex_pubkey@) {
                None => e == NostrError::InvalidKeyEncoding,
                Some(key) => e == NostrError::EncodingFailure && bech32_form(key) is None,
            },
        },
{
    match parse_public_key(hex_pubkey.as_str()) {
        Ok(key) => key.to_bech32(),
        Err(e) => Err(e),
    }
}

/// The hexadecimal form of a key given in its `npub` form. Every other
/// text is refused, a key in hexadecimal too.
pub fn npub_to_public_key(npub: String) -> (r: Result<String, NostrError>)
    ensures
        match r {
            Ok(s) => npub_key(npub@) is Some && s@ == hex_text(npub_key(npub@)->0) && s@.len()
                == 64,
            Err(e) => e == NostrError::InvalidKeyEncoding && npub_key(npub@) is None,
        },
{
    match PublicKey::from_bech32(npub.as_str()) {
        Ok(key) => Ok(key.to_hex()),
        Err(e) => Err(e),
    }
}

} // verus!
