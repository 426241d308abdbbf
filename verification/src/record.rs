//! Events as they cross the library's boundary: every field a plain value,
//! with identifier, key and signature in their text forms.

use vstd::prelude::*;
use crate::error::NostrError;
use crate::event::{id_valid, signature_valid, tag_views, Event, EventData, SignedData, UnsignedEvent};
use crate::hex::{bytes_from_hex, parse, parse_exact, text_bytes};
use crate::bytes::array_of;
use crate::key::{parse_public_key, parsed_key, PublicKey};
use crate::tag::{texts, Tag};

verus! {

/// The character sequences of the rows of a table of strings.
pub open spec fn rows(tags: Seq<Vec<String>>) -> Seq<Seq<Seq<char>>> {
    Seq::new(tags.len(), |i: int| texts(tags[i]@))
}

/// What an event record holds.
pub struct RecordData {
    pub id: Seq<char>,
    pub pubkey: Seq<char>,
    pub created_at: u64,
    pub kind: u16,
    pub tags: Seq<Seq<Seq<char>>>,
    pub content: Seq<char>,
    pub sig: Seq<char>,
}

/// Whether every row has a first element.
pub open spec fn all_named(tags: Seq<Seq<Seq<char>>>) -> bool {
    forall|i: int| 0 <= i < tags.len() ==> (#[trigger] tags[i]).len() > 0
}

/// The event that a record stands for, or why it stands for none. The
/// identifier is looked at first, then the author's key, the tags and the
/// signature. Identifier and signature are read as NIP-01 writes them, in
/// lowercase hexadecimal digits, and in no other form. A signature of such
/// digits is taken whatever its length: the signature check refuses the
/// wrong ones.
pub open spec fn decoded_record(r: RecordData) -> Result<SignedData, NostrError> {
    if bytes_from_hex(r.id, 32) is None {
        Err(NostrError::InvalidEventId)
    } else if parsed_key(r.pubkey) is None {
        Err(NostrError::InvalidKeyEncoding)
    } else if !all_named(r.tags) {
        Err(NostrError::Validation)
    } else if text_bytes(r.sig) is None {
        Err(NostrError::InvalidSignature)
    } else {
        Ok(
            SignedData {
                unsigned: EventData {
                    pubkey: parsed_key(r.pubkey)->0,
                    created_at: r.created_at,
                    kind: r.kind,
                    tags: r.tags,
                    content: r.content,
                },
                id: bytes_from_hex(r.id, 32)->0,
                sig: text_bytes(r.sig)->0,
            },
        )
    }
}

/// An event with every field as a plain value.
#[derive(Debug, PartialEq, Eq)]
pub struct NostrEvent {
    pub id: String,
    pub pubkey: String,
    pub created_at: u64,
    pub kind: u16,
    pub tags: Vec<Vec<String>>,
    pub content: String,
    pub sig: String,
}

impl View for NostrEvent {
    type V = RecordData;

    open spec fn view(&self) -> RecordData {
        RecordData {
            id: self.id@,
            pubkey: self.pubkey@,
            created_at: self.created_at,
            kind: self.kind,
            tags: rows(self.tags@),
            content: self.content@,
            sig: self.sig@,
        }
    }
}

impl Clone for NostrEvent {
    fn clone(&self) -> (copy: Self)
        ensures
            copy@ == self@,
    {
        let tags: Vec<Vec<String>> = self.tags.clone();
        assert(rows(tags@) =~= rows(self.tags@)) by {
            assert forall|i: int| 0 <= i < tags@.len() implies texts(tags@[i]@) == texts(
                self.tags@[i]@,
            ) by {
                assert(texts(tags@[i]@) =~= texts(self.tags@[i]@));
            }
        }
        NostrEvent {
            id: self.id.clone(),
            pubkey: self.pubkey.clone(),
            created_at: self.created_at,
            kind: self.kind,
            tags,
            content: self.content.clone(),
            sig: self.sig.clone(),
        }
    }
}

fn parse_tags(tags: &Vec<Vec<String>>) -> (r: Option<Vec<Tag>>)
    ensures
        r is Some <==> all_named(rows(tags@)),
        r is Some ==> tag_views(r->0@) == rows(tags@),
{
    let mut parsed: Vec<Tag> = Vec::new();
    let mut i: usize = 0;
    while i < tags.len()
        invariant
            i <= tags.len(),
            parsed@.len() == i,
            forall|j: int| 0 <= j < i ==> parsed@[j]@ == #[trigger] rows(tags@)[j],
            forall|j: int| 0 <= j < i ==> (#[trigger] rows(tags@)[j]).len() > 0,
        decreases tags.len() - i,
    {
        let elements: Vec<String> = tags[i].clone();
        assert(texts(elements@) =~= rows(tags@)[i as int]);
        match Tag::parse(elements) {
            Ok(tag) => {
                parsed.push(tag);
            },
            Err(_) => {
                assert(rows(tags@)[i as int].len() == 0);
                return None;
            },
        }
        i += 1;
    }
    assert(tag_views(parsed@) =~= rows(tags@));
    Some(parsed)
}

impl NostrEvent {
    /// The record with every field empty or zero.
    pub fn new() -> (e: NostrEvent)
        ensures
            e@ == (RecordData {
                id: Seq::empty(),
                pubkey: Seq::empty(),
                created_at: 0,
                kind: 0,
                tags: Seq::empty(),
                content: Seq::empty(),
                sig: Seq::empty(),
            }),
    {
        let e = NostrEvent {
            id: String::new(),
            pubkey: String::new(),
            created_at: 0,
            kind: 0,
            tags: Vec::new(),
            content: String::new(),
            sig: String::new(),
        };
        assert(rows(e.tags@) =~= Seq::empty());
        e
    }

    /// The identifier, in hexadecimal.
    pub fn id(&self) -> (s: String)
        ensures
            s@ == self@.id,
    {
        self.id.clone()
    }

    /// The author's key, in hexadecimal.
    pub fn pubkey(&self) -> (s: String)
        ensures
            s@ == self@.pubkey,
    {
        self.pubkey.clone()
    }

    /// The time of creation, in seconds since the Unix epoch.
    pub fn created_at(&self) -> (t: u64)
        ensures
            t == self@.created_at,
    {
        self.created_at
    }

    /// The kind.
    pub fn kind(&self) -> (k: u16)
        ensures
            k == self@.kind,
    {
        self.kind
    }

    /// The content.
    pub fn content(&self) -> (s: String)
        ensures
            s@ == self@.content,
    {
        self.content.clone()
    }

    /// The signature, in hexadecimal.
    pub fn sig(&self) -> (s: String)
        ensures
            s@ == self@.sig,
    {
        self.sig.clone()
    }

    /// Reads the record's text fields.
    pub fn decode(&self) -> (r: Result<Event, NostrError>)
        ensures
            match r {
                Ok(e) => decoded_record(self@) == Ok::<SignedData, NostrError>(e@),
                Err(err) => decoded_record(self@) == Err::<SignedData, NostrError>(err),
            },
    {
        let id: [u8; 32] = match parse_exact(self.id.as_str(), 32) {
            Some(bytes) => array_of(&bytes),
            None => {
                return Err(NostrError::InvalidEventId);
            },
        };
        let pubkey: PublicKey = match parse_public_key(self.pubkey.as_str()) {
            Ok(key) => key,
            Err(err) => {
                return Err(err);
            },
        };
        let tags: Vec<Tag> = match parse_tags(&self.tags) {
            Some(tags) => tags,
            None => {
                return Err(NostrError::Validation);
            },
        };
        let sig: Vec<u8> = match parse(self.sig.as_str()) {
            Some(bytes) => bytes,
            None => {
                return Err(NostrError::InvalidSignature);
            },
        };
        Ok(
            Event {
                unsigned: UnsignedEvent {
                    pubkey,
                    created_at: self.created_at,
                    kind: self.kind,
                    tags,
                    content: self.content.clone(),
                },
                id,
                sig,
            },
        )
    }
}

/// Whether the identifier of the event in `event` is the one that its fields
/// determine; an error where the record stands for no event.
pub fn verify_event_id(event: &NostrEvent) -> (r: Result<bool, NostrError>)
    ensures
        r == match decoded_record(event@) {
            Ok(e) => Ok::<bool, NostrError>(id_valid(e)),
            Err(err) => Err::<bool, NostrError>(err),
        },
{
    match event.decode() {
        Ok(e) => Ok(e.verify_id()),
        Err(err) => Err(err),
    }
}

/// Whether the signature of the event in `event` is one over its identifier
/// by its author; an error where the record stands for no event.
pub fn verify_event_signature(event: &NostrEvent) -> (r: Result<bool, NostrError>)
    ensures
        r == match decoded_record(event@) {
            Ok(e) => Ok::<bool, NostrError>(signature_valid(e)),
            Err(err) => Err::<bool, NostrError>(err),
        },
{
    match event.decode() {
        Ok(e) => Ok(e.verify_signature()),
        Err(err) => Err(err),
    }
}

} // verus!
