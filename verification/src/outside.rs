//! What this library takes from the crates it builds on, and from std where
//! vstd says nothing of it. Nothing in this file is proved: each contract is
//! believed as it stands, and each names the function it speaks of.

use vstd::prelude::*;
use nostr::nips::nip19::{FromBech32, ToBech32};
use nostr::secp256k1::schnorr::Signature;
use nostr::secp256k1::{Message, XOnlyPublicKey};

verus! {

/// `String::push` of std: afterwards the string is what it was, with the
/// character behind it.
pub assume_specification[ String::push ](s: &mut String, c: char)
    ensures
        final(s)@ == old(s)@.push(c),
;

/// The error of `nostr`'s bech32 conversions. It is only carried through.
#[verifier::external_type_specification]
#[verifier::external_body]
pub struct ExNip19Error(nostr::nips::nip19::Error);

/// The SHA-256 digest of a byte string.
pub uninterp spec fn sha256(data: Seq<u8>) -> Seq<u8>;

/// Whether BIP-340 verification accepts the signature `sig` over the 32-byte
/// message `digest` under the x-only public key `key`.
pub uninterp spec fn schnorr_accepts(sig: Seq<u8>, digest: Seq<u8>, key: Seq<u8>) -> bool;

/// The x-only public key that belongs to a secret key: the x coordinate of
/// the point that the secret scalar makes of the curve's generator.
pub uninterp spec fn derived_public_key(secret: Seq<u8>) -> Seq<u8>;

/// The bech32 string with the prefix `npub` that the encoder gives for a
/// key.
pub uninterp spec fn npub_of(key: Seq<u8>) -> Seq<char>;

/// Whether a text begins with the prefix `npub` and the separator `1`, the
/// prefix all in lowercase or all in uppercase letters.
pub open spec fn has_npub_prefix(text: Seq<char>) -> bool {
    text.len() >= 5 && (text.subrange(0, 5) == seq!['n', 'p', 'u', 'b', '1'] || text.subrange(0, 5)
        == seq!['N', 'P', 'U', 'B', '1'])
}

/// Whether a text has the length and the beginning of an encoded key: 63
/// characters, of which the first five are `npub1`.
pub open spec fn npub_shaped(text: Seq<char>) -> bool {
    text.len() == 63 && text.subrange(0, 5) == seq!['n', 'p', 'u', 'b', '1']
}

/// The key that the decoder reads from a text as a bech32 string with the
/// prefix `npub`, where it reads one.
pub uninterp spec fn key_of_npub(text: Seq<char>) -> Option<Seq<u8>>;

/// Calls `bitcoin_hashes::sha256::Hash::hash`, which `nostr` re-exports, and
/// hands out the digest's bytes. The contract only gives the digest its
/// name: it is a function of the input bytes.
#[verifier::external_body]
pub(crate) fn sha256_digest(data: &[u8]) -> (digest: [u8; 32])
    ensures
        digest@ == sha256(data@),
{
    nostr::hashes::Hash::to_byte_array(
        <nostr::hashes::sha256::Hash as nostr::hashes::Hash>::hash(data),
    )
}

/// Calls `secp256k1::Secp256k1::verify_schnorr`, which `nostr` re-exports,
/// with the global context, after `schnorr::Signature::from_slice` and
/// `XOnlyPublicKey::from_slice` have read the signature and the key. Where
/// either of them refuses its bytes the answer is `false`. The contract only
/// gives the answer its name: it is a function of the three byte strings.
#[verifier::external_body]
pub(crate) fn schnorr_verify(sig: &[u8], digest: &[u8; 32], key: &[u8; 32]) -> (ok: bool)
    ensures
        ok == schnorr_accepts(sig@, digest@, key@),
{
    match (Signature::from_slice(sig), XOnlyPublicKey::from_slice(key)) {
        (Ok(s), Ok(k)) => nostr::SECP256K1.verify_schnorr(
            &s,
            &Message::from_digest(*digest),
            &k,
        ).is_ok(),
        _ => false,
    }
}

/// Calls `nostr::Keys::generate`, which draws a secret key from the operating
/// system's random source and derives its x-only public key, and hands out
/// the public key's bytes and then the secret key's. Nothing is promised of
/// the secret key; of the public key, that it is the one derived from that
/// secret key. The call does not return if the random source fails.
#[verifier::external_body]
pub(crate) fn fresh_key_pair() -> (pair: ([u8; 32], [u8; 32]))
    ensures
        pair.0@ == derived_public_key(pair.1@),
{
    let keys = nostr::Keys::generate();
    (keys.public_key().to_bytes(), keys.secret_key().to_secret_bytes())
}

/// Calls `nostr`'s `ToBech32::to_bech32` on the public key made of `key`,
/// which is `bech32::encode` with the prefix `npub` and the Bech32 checksum.
/// The contract names the text, which depends on the key alone, and says
/// what the encoder's source shows of 32 bytes: it succeeds, since it
/// refuses only texts of more than 1023 characters and a `String` takes every
/// write; and it writes the prefix, the separator `1`, 52 characters of data
/// and 6 of checksum.
#[verifier::external_body]
pub(crate) fn encode_npub(key: &[u8; 32]) -> (r: Result<String, nostr::nips::nip19::Error>)
    ensures
        r is Ok,
        r matches Ok(s) ==> s@ == npub_of(key@) && npub_shaped(s@),
{
    nostr::PublicKey::from_byte_array(*key).to_bech32()
}

/// Calls `nostr`'s `FromBech32::from_bech32` for public keys, which is
/// `bech32::decode` and a comparison of the prefix with `npub`, and hands out
/// the key's bytes. The contract names the outcome, which depends on the
/// text alone, and says what the source shows of every text that is read:
/// the prefix is what stands before the last `1`, it is compared without
/// regard to case, and a text of mixed case is refused.
#[verifier::external_body]
pub(crate) fn decode_npub(text: &str) -> (r: Result<[u8; 32], nostr::nips::nip19::Error>)
    ensures
        match r {
            Ok(k) => key_of_npub(text@) == Some(k@) && has_npub_prefix(text@),
            Err(_) => key_of_npub(text@) is None,
        },
{
    nostr::PublicKey::from_bech32(text).map(|k| k.to_bytes())
}

/// The current time in seconds since the Unix epoch, as
/// `nostr::Timestamp::now` reads it from the system clock. Nothing is promised
/// of the value: two calls may differ, and the clock may go backwards.
#[verifier::external_body]
pub fn now() -> (seconds: u64) {
    nostr::Timestamp::now().as_u64()
}

} // verus!
