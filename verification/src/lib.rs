//! Core data model and verification rules of Nostr events: canonical
//! serialisation, identifier derivation, signature checks and key encodings.

pub mod builder;
pub mod bytes;
pub mod error;
pub mod event;
pub mod hex;
pub mod json;
pub mod key;
pub mod outside;
pub mod record;
pub mod tag;
pub mod text;
pub mod unique;

pub use crate::builder::NostrEventBuilder;
pub use crate::error::NostrError;
pub use crate::event::{Event, UnsignedEvent, Verdict};
pub use crate::key::{
    generate_keys, npub_to_public_key, parse_public_key, public_key_to_npub, GeneratedKeys,
    PublicKey,
};
pub use crate::record::{verify_event_id, verify_event_signature, NostrEvent};
pub use crate::tag::Tag;
pub use crate::outside::now;
