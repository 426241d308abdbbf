//! The builder that assembles an unsigned event.

use vstd::prelude::*;
use crate::error::NostrError;
use crate::event::{clone_tags, tag_views, EventData, UnsignedEvent};
use crate::key::{parse_public_key, parsed_key, PublicKey};
use crate::tag::{parsed_tag, texts, Tag};
use crate::outside::now;

verus! {

/// What a builder holds.
pub struct BuilderData {
    pub kind: u16,
    pub content: Seq<char>,
    pub tags: Seq<Seq<Seq<char>>>,
}

/// The event that a builder's fields make with an author and a time.
pub open spec fn built(b: BuilderData, pubkey: Seq<u8>, created_at: u64) -> EventData {
    EventData { pubkey, created_at, kind: b.kind, tags: b.tags, content: b.content }
}

/// Kind, content and the tags added so far, in the order in which they came.
pub struct NostrEventBuilder {
    kind: u16,
    content: String,
    tags: Vec<Tag>,
}

impl View for NostrEventBuilder {
    type V = BuilderData;

    closed spec fn view(&self) -> BuilderData {
        BuilderData { kind: self.kind, content: self.content@, tags: tag_views(self.tags@) }
    }
}

impl NostrEventBuilder {
    /// A builder without tags.
    pub fn new(kind: u16, content: String) -> (b: NostrEventBuilder)
        ensures
            b@ == (BuilderData { kind, content: content@, tags: Seq::empty() }),
    {
        let b = NostrEventBuilder { kind, content, tags: Vec::new() };
        assert(tag_views(b.tags@) =~= Seq::empty());
        b
    }

    /// Adds the tag with the given name and values behind the tags that are
    /// there. Elements that make no tag are dropped without a word, and
    /// the builder stays as it was.
    pub fn add_tag(&mut self, tag_type: String, values: Vec<String>)
        ensures
            final(self)@.kind == old(self)@.kind,
            final(self)@.content == old(self)@.content,
            final(self)@.tags == match parsed_tag(seq![tag_type@] + texts(values@)) {
                Some(tag) => old(self)@.tags.push(tag),
                None => old(self)@.tags,
            },
    {
        let ghost given = texts(values@);
        let mut values = values;
        let mut elements: Vec<String> = Vec::new();
        elements.push(tag_type);
        elements.append(&mut values);
        assert(texts(elements@) =~= seq![tag_type@] + given);
        match Tag::parse(elements) {
            Ok(tag) => {
                self.tags.push(tag);
                assert(tag_views(self.tags@) =~= tag_views(old(self).tags@).push(tag@));
            },
            Err(_) => {},
        }
    }

    /// The unsigned event of the given author and time, with the builder's
    /// kind, content and tags.
    pub fn build_at(&self, pubkey: PublicKey, created_at: u64) -> (e: UnsignedEvent)
        ensures
            e@ == built(self@, pubkey@, created_at),
    {
        UnsignedEvent {
            pubkey,
            created_at,
            kind: self.kind,
            tags: clone_tags(&self.tags),
            content: self.content.clone(),
        }
    }

    /// The unsigned event of the given author, stamped with the current time.
    pub fn finalize(&self, pubkey: PublicKey) -> (e: UnsignedEvent)
        ensures
            e@ == built(self@, pubkey@, e.created_at),
    {
        let created_at: u64 = now();
        self.build_at(pubkey, created_at)
    }

    /// Reads the author's key from its hexadecimal or bech32 form and
    /// finalizes the event for that author.
    pub fn to_unsigned_event(&self, author_pubkey: String) -> (r: Result<
        UnsignedEvent,
        NostrError,
    >)
        ensures
            match r {
                Ok(e) => parsed_key(author_pubkey@) is Some && e@ == built(
                    self@,
                    parsed_key(author_pubkey@)->0,
                    e.created_at,
                ),
                Err(err) => err == NostrError::InvalidKeyEncoding && parsed_key(author_pubkey@)
                    is None,
            },
    {
        match parse_public_key(author_pubkey.as_str()) {
            Ok(pubkey) => Ok(self.finalize(pubkey)),
            Err(err) => Err(err),
        }
    }
}

} // verus!
