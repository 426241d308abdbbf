//! The failures that parsing and encoding report.

use vstd::prelude::*;

verus! {

/// Why an operation on keys, tags or event records did not produce a value.
///
/// A failed identifier or signature check is not among them: those checks
/// answer `false`.
#[derive(Debug, Clone, Copy, PartialEq, Eq, Structural)]
pub enum NostrError {
    /// A tag without any element.
    Validation,
    /// A public key that is neither 64 lowercase hexadecimal digits nor a
    /// valid `npub` bech32 string.
    InvalidKeyEncoding,
    /// An event identifier that is not 64 lowercase hexadecimal digits.
    InvalidEventId,
    /// A signature that is not lowercase hexadecimal text.
    InvalidSignature,
    /// The bech32 encoder refused a public key.
    EncodingFailure,
}

} // verus!
