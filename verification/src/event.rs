//! Events: their canonical form, the identifier derived from it, and the two
//! checks that an inbound event has to pass.

use vstd::prelude::*;
use vstd::utf8::*;
use crate::outside::{schnorr_accepts, schnorr_verify, sha256, sha256_digest};
use crate::hex;
use crate::json::{
    array, array_rest, decimal, nested_array, quoted, string_array, write_decimal, write_quoted,
    CLOSE, COMMA, OPEN, ZERO,
};
use crate::bytes::same_bytes;
use crate::key::PublicKey;
use crate::tag::{texts, Tag};
use crate::text::lemma_utf8_unique;
use crate::unique::{
    lemma_decimal_unique, lemma_equal_split, lemma_nested_array_unique, lemma_quoted_unique,
};

verus! {

/// The views of a sequence of tags.
pub open spec fn tag_views(tags: Seq<Tag>) -> Seq<Seq<Seq<char>>> {
    Seq::new(tags.len(), |i: int| tags[i]@)
}

/// The UTF-8 bytes of each element of a tag.
pub open spec fn utf8_row(tag: Seq<Seq<char>>) -> Seq<Seq<u8>> {
    tag.map_values(|s: Seq<char>| encode_utf8(s))
}

/// The UTF-8 bytes of each element of each tag.
pub open spec fn utf8_rows(tags: Seq<Seq<Seq<char>>>) -> Seq<Seq<Seq<u8>>> {
    tags.map_values(|t: Seq<Seq<char>>| utf8_row(t))
}

/// What an unsigned event holds.
pub struct EventData {
    pub pubkey: Seq<u8>,
    pub created_at: u64,
    pub kind: u16,
    pub tags: Seq<Seq<Seq<char>>>,
    pub content: Seq<char>,
}

/// The canonical form of an event: the JSON array of the marker `0`, the
/// author's key in hexadecimal, the time, the kind, the tags and the content,
/// without any whitespace.
pub open spec fn canonical(e: EventData) -> Seq<u8> {
    seq![OPEN, ZERO, COMMA] + quoted(hex::encoded(e.pubkey)) + seq![COMMA] + decimal(
        e.created_at as nat,
    ) + seq![COMMA] + decimal(e.kind as nat) + seq![COMMA] + nested_array(utf8_rows(e.tags))
        + seq![COMMA] + quoted(encode_utf8(e.content)) + seq![CLOSE]
}

/// Whether two byte strings differ and have the same SHA-256 digest.
pub open spec fn sha256_collision(a: Seq<u8>, b: Seq<u8>) -> bool {
    a != b && sha256(a) == sha256(b)
}

/// The identifier of an event: the SHA-256 digest of its canonical form.
pub open spec fn event_id(e: EventData) -> Seq<u8> {
    sha256(canonical(e))
}

/// An event before it is signed.
#[derive(Debug)]
pub struct UnsignedEvent {
    pub pubkey: PublicKey,
    pub created_at: u64,
    pub kind: u16,
    pub tags: Vec<Tag>,
    pub content: String,
}

impl View for UnsignedEvent {
    type V = EventData;

    open spec fn view(&self) -> EventData {
        EventData {
            pubkey: self.pubkey@,
            created_at: self.created_at,
            kind: self.kind,
            tags: tag_views(self.tags@),
            content: self.content@,
        }
    }
}

/// A copy of a sequence of tags.
pub fn clone_tags(tags: &Vec<Tag>) -> (copy: Vec<Tag>)
    ensures
        tag_views(copy@) == tag_views(tags@),
{
    let mut copy: Vec<Tag> = Vec::new();
    let mut i: usize = 0;
    while i < tags.len()
        invariant
            i <= tags.len(),
            copy@.len() == i,
            forall|j: int| 0 <= j < i ==> copy@[j]@ == tags@[j]@,
        decreases tags.len() - i,
    {
        copy.push(tags[i].clone());
        i += 1;
    }
    assert(tag_views(copy@) =~= tag_views(tags@));
    copy
}

impl Clone for UnsignedEvent {
    fn clone(&self) -> (copy: Self)
        ensures
            copy@ == self@,
    {
        UnsignedEvent {
            pubkey: self.pubkey,
            created_at: self.created_at,
            kind: self.kind,
            tags: clone_tags(&self.tags),
            content: self.content.clone(),
        }
    }
}

fn write_tag(out: &mut Vec<u8>, tag: &Tag)
    ensures
        final(out)@ == old(out)@ + string_array(utf8_row(tag@)),
{
    let ghost before = out@;
    let ghost parts = utf8_row(tag@).map_values(|s: Seq<u8>| quoted(s));
    let items: &[String] = tag.as_slice();
    out.push(OPEN);
    write_quoted(out, items[0].as_str().as_bytes());
    assert(out@ =~= before + seq![OPEN] + parts[0]);
    assert(parts.drop_first() =~= parts.skip(1));
    let mut i: usize = 1;
    while i < items.len()
        invariant
            1 <= i <= items.len(),
            texts(items@) == tag@,
            parts == utf8_row(tag@).map_values(|s: Seq<u8>| quoted(s)),
            before + array(parts) == out@ + array_rest(parts.skip(i as int)),
        decreases items.len() - i,
    {
        let ghost written = out@;
        out.push(COMMA);
        write_quoted(out, items[i].as_str().as_bytes());
        proof {
            let rest = parts.skip(i as int);
            assert(rest.drop_first() =~= parts.skip(i + 1));
            assert(rest[0] == quoted(encode_utf8(items@[i as int]@)));
            assert(written + array_rest(rest) =~= out@ + array_rest(parts.skip(i + 1)));
        }
        i += 1;
    }
    out.push(CLOSE);
    assert(out@ =~= before + array(parts));
}

fn write_tags(out: &mut Vec<u8>, tags: &Vec<Tag>)
    ensures
        final(out)@ == old(out)@ + nested_array(utf8_rows(tag_views(tags@))),
{
    let ghost before = out@;
    let ghost rows = utf8_rows(tag_views(tags@));
    let ghost parts = rows.map_values(|r: Seq<Seq<u8>>| string_array(r));
    out.push(OPEN);
    if tags.len() == 0 {
        out.push(CLOSE);
        assert(out@ =~= before + array(parts));
        return ;
    }
    write_tag(out, &tags[0]);
    assert(out@ =~= before + seq![OPEN] + parts[0]);
    assert(parts.drop_first() =~= parts.skip(1));
    let mut i: usize = 1;
    while i < tags.len()
        invariant
            1 <= i <= tags.len(),
            parts == utf8_rows(tag_views(tags@)).map_values(|r: Seq<Seq<u8>>| string_array(r)),
            before + array(parts) == out@ + array_rest(parts.skip(i as int)),
        decreases tags.len() - i,
    {
        let ghost written = out@;
        out.push(COMMA);
        write_tag(out, &tags[i]);
        proof {
            let rest = parts.skip(i as int);
            assert(rest.drop_first() =~= parts.skip(i + 1));
            assert(rest[0] == string_array(utf8_row(tags@[i as int]@)));
            assert(written + array_rest(rest) =~= out@ + array_rest(parts.skip(i + 1)));
        }
        i += 1;
    }
    out.push(CLOSE);
    assert(out@ =~= before + array(parts));
}

impl UnsignedEvent {
    /// The canonical form of the event, byte for byte.
    pub fn canonical_bytes(&self) -> (bytes: Vec<u8>)
        ensures
            bytes@ == canonical(self@),
    {
        let mut out: Vec<u8> = Vec::new();
        out.push(OPEN);
        out.push(ZERO);
        out.push(COMMA);
        let digits: Vec<u8> = hex::encode(self.pubkey.bytes.as_slice());
        write_quoted(&mut out, digits.as_slice());
        out.push(COMMA);
        write_decimal(&mut out, self.created_at);
        out.push(COMMA);
        write_decimal(&mut out, self.kind as u64);
        out.push(COMMA);
        write_tags(&mut out, &self.tags);
        out.push(COMMA);
        write_quoted(&mut out, self.content.as_str().as_bytes());
        out.push(CLOSE);
        assert(out@ =~= canonical(self@));
        out
    }

    /// The identifier that the event's fields determine.
    pub fn compute_id(&self) -> (id: [u8; 32])
        ensures
            id@ == event_id(self@),
    {
        let bytes: Vec<u8> = self.canonical_bytes();
        sha256_digest(bytes.as_slice())
    }
}

/// What a signed event holds.
pub struct SignedData {
    pub unsigned: EventData,
    pub id: Seq<u8>,
    pub sig: Seq<u8>,
}

/// Whether an event's identifier is the one that its fields determine.
pub open spec fn id_valid(e: SignedData) -> bool {
    e.id == event_id(e.unsigned)
}

/// Whether an event's signature has 64 bytes and is a signature over the
/// event's identifier by the event's author.
pub open spec fn signature_valid(e: SignedData) -> bool {
    e.sig.len() == 64 && schnorr_accepts(e.sig, e.id, e.unsigned.pubkey)
}

/// What the two checks make of an inbound event. Only the first is
/// acceptance; the other three say which check failed.
#[derive(Debug, Clone, Copy, PartialEq, Eq, Structural)]
pub enum Verdict {
    /// Both checks passed.
    Trusted,
    /// The identifier is right, the signature is not.
    SignatureInvalid,
    /// The signature is right, the identifier is not.
    IdInvalid,
    /// Neither is right.
    BothInvalid,
}

/// The verdict that follows from the outcomes of the two checks.
pub open spec fn verdict_of(id_ok: bool, signature_ok: bool) -> Verdict {
    if id_ok && signature_ok {
        Verdict::Trusted
    } else if id_ok {
        Verdict::SignatureInvalid
    } else if signature_ok {
        Verdict::IdInvalid
    } else {
        Verdict::BothInvalid
    }
}

impl Verdict {
    /// Whether the identifier check passed.
    pub open spec fn id_passed(self) -> bool {
        self == Verdict::Trusted || self == Verdict::SignatureInvalid
    }

    /// Whether the signature check passed.
    pub open spec fn signature_passed(self) -> bool {
        self == Verdict::Trusted || self == Verdict::IdInvalid
    }

    /// Whether the event is to be trusted.
    pub fn is_trusted(&self) -> (trusted: bool)
        ensures
            trusted == (*self == Verdict::Trusted),
            trusted == (self.id_passed() && self.signature_passed()),
    {
        match self {
            Verdict::Trusted => true,
            _ => false,
        }
    }

    /// Whether the identifier check passed.
    pub fn id_valid(&self) -> (ok: bool)
        ensures
            ok == self.id_passed(),
    {
        match self {
            Verdict::Trusted => true,
            Verdict::SignatureInvalid => true,
            _ => false,
        }
    }

    /// Whether the signature check passed.
    pub fn signature_valid(&self) -> (ok: bool)
        ensures
            ok == self.signature_passed(),
    {
        match self {
            Verdict::Trusted => true,
            Verdict::IdInvalid => true,
            _ => false,
        }
    }
}

/// Combines the outcomes of the two checks.
pub fn judge(id_ok: bool, signature_ok: bool) -> (v: Verdict)
    ensures
        v == verdict_of(id_ok, signature_ok),
{
    if id_ok && signature_ok {
        Verdict::Trusted
    } else if id_ok {
        Verdict::SignatureInvalid
    } else if signature_ok {
        Verdict::IdInvalid
    } else {
        Verdict::BothInvalid
    }
}

/// A verdict is acceptance exactly when both checks passed, and it keeps the
/// outcome of each check.
pub proof fn lemma_verdict_keeps_outcomes(id_ok: bool, signature_ok: bool)
    ensures
        (verdict_of(id_ok, signature_ok) == Verdict::Trusted) == (id_ok && signature_ok),
        verdict_of(id_ok, signature_ok).id_passed() == id_ok,
        verdict_of(id_ok, signature_ok).signature_passed() == signature_ok,
{
}

/// A signed event as it arrives: the fields, the identifier that the signer
/// claims for them, and the signature.
#[derive(Debug)]
pub struct Event {
    pub unsigned: UnsignedEvent,
    pub id: [u8; 32],
    pub sig: Vec<u8>,
}

impl View for Event {
    type V = SignedData;

    open spec fn view(&self) -> SignedData {
        SignedData { unsigned: self.unsigned@, id: self.id@, sig: self.sig@ }
    }
}

impl Clone for Event {
    fn clone(&self) -> (copy: Self)
        ensures
            copy@ == self@,
    {
        Event { unsigned: self.unsigned.clone(), id: self.id, sig: self.sig.clone() }
    }
}

impl Event {
    /// Recomputes the identifier from the fields and compares it with the
    /// claimed one, byte for byte.
    pub fn verify_id(&self) -> (ok: bool)
        ensures
            ok == id_valid(self@),
    {
        let id: [u8; 32] = self.unsigned.compute_id();
        same_bytes(id.as_slice(), self.id.as_slice())
    }

    /// Checks the signature against the claimed identifier and the author's
    /// key. The fields that the identifier is derived from are not read.
    pub fn verify_signature(&self) -> (ok: bool)
        ensures
            ok == signature_valid(self@),
    {
        if self.sig.len() != 64 {
            return false;
        }
        schnorr_verify(self.sig.as_slice(), &self.id, &self.unsigned.pubkey.bytes)
    }

    /// Runs both checks and says whether the event is to be trusted.
    pub fn verdict(&self) -> (v: Verdict)
        ensures
            v == verdict_of(id_valid(self@), signature_valid(self@)),
    {
        let id_ok: bool = self.verify_id();
        let signature_ok: bool = self.verify_signature();
        judge(id_ok, signature_ok)
    }
}

/// Events with the same field values have the same identifier.
pub proof fn lemma_identifier_determined(a: UnsignedEvent, b: UnsignedEvent)
    requires
        a@ == b@,
    ensures
        canonical(a@) == canonical(b@),
        event_id(a@) == event_id(b@),
{
}

/// Tags are told apart by the UTF-8 bytes of their elements.
pub proof fn lemma_utf8_rows_unique(a: Seq<Seq<Seq<char>>>, b: Seq<Seq<Seq<char>>>)
    requires
        utf8_rows(a) == utf8_rows(b),
    ensures
        a == b,
{
    assert(a.len() == utf8_rows(a).len());
    assert(b.len() == utf8_rows(b).len());
    assert forall|i: int| 0 <= i < a.len() implies a[i] == b[i] by {
        assert(utf8_rows(a)[i] == utf8_row(a[i]));
        assert(utf8_rows(b)[i] == utf8_row(b[i]));
        assert(a[i].len() == utf8_row(a[i]).len());
        assert(b[i].len() == utf8_row(b[i]).len());
        assert forall|j: int| 0 <= j < a[i].len() implies a[i][j] == b[i][j] by {
            assert(utf8_row(a[i])[j] == encode_utf8(a[i][j]));
            assert(utf8_row(b[i])[j] == encode_utf8(b[i][j]));
            lemma_utf8_unique(a[i][j], b[i][j]);
        }
        assert(a[i] =~= b[i]);
    }
    assert(a =~= b);
}

/// What follows the author's key in the canonical form.
pub open spec fn after_key(e: EventData) -> Seq<u8> {
    seq![COMMA] + (decimal(e.created_at as nat) + after_time(e))
}

/// What follows the time in the canonical form.
pub open spec fn after_time(e: EventData) -> Seq<u8> {
    seq![COMMA] + (decimal(e.kind as nat) + after_kind(e))
}

/// What follows the kind in the canonical form.
pub open spec fn after_kind(e: EventData) -> Seq<u8> {
    seq![COMMA] + (nested_array(utf8_rows(e.tags)) + after_tags(e))
}

/// What follows the tags in the canonical form.
pub open spec fn after_tags(e: EventData) -> Seq<u8> {
    seq![COMMA] + (quoted(encode_utf8(e.content)) + seq![CLOSE])
}

proof fn lemma_regroup(a: Seq<u8>, b: Seq<u8>, c: Seq<u8>)
    ensures
        (a + b) + c == a + (b + c),
{
    assert((a + b) + c =~= a + (b + c));
}

/// The canonical form, grouped from the back: each piece before all that
/// follows it.
pub proof fn lemma_canonical_shape(e: EventData)
    ensures
        canonical(e) == seq![OPEN, ZERO, COMMA] + (quoted(hex::encoded(e.pubkey)) + after_key(e)),
{
    let head = seq![OPEN, ZERO, COMMA];
    let key = quoted(hex::encoded(e.pubkey));
    let comma = seq![COMMA];
    let time = decimal(e.created_at as nat);
    let kind = decimal(e.kind as nat);
    let tags = nested_array(utf8_rows(e.tags));
    let content = quoted(encode_utf8(e.content));
    let close = seq![CLOSE];
    let x1 = head + key;
    let x2 = x1 + comma;
    let x3 = x2 + time;
    let x4 = x3 + comma;
    let x5 = x4 + kind;
    let x6 = x5 + comma;
    let x7 = x6 + tags;
    let x8 = x7 + comma;
    lemma_regroup(x8, content, close);
    lemma_regroup(x7, comma, content + close);
    lemma_regroup(x6, tags, after_tags(e));
    lemma_regroup(x5, comma, tags + after_tags(e));
    lemma_regroup(x4, kind, after_kind(e));
    lemma_regroup(x3, comma, kind + after_kind(e));
    lemma_regroup(x2, time, after_time(e));
    lemma_regroup(x1, comma, time + after_time(e));
    lemma_regroup(head, key, after_key(e));
}

/// Events with the same canonical form have the same field values: the
/// canonical form can be read back.
pub proof fn lemma_canonical_unique(a: EventData, b: EventData)
    requires
        canonical(a) == canonical(b),
    ensures
        a == b,
{
    lemma_canonical_shape(a);
    lemma_canonical_shape(b);
    lemma_equal_split(
        seq![OPEN, ZERO, COMMA],
        quoted(hex::encoded(a.pubkey)) + after_key(a),
        seq![OPEN, ZERO, COMMA],
        quoted(hex::encoded(b.pubkey)) + after_key(b),
    );
    lemma_quoted_unique(
        hex::encoded(a.pubkey),
        after_key(a),
        hex::encoded(b.pubkey),
        after_key(b),
    );
    hex::lemma_encoded_injective(a.pubkey, b.pubkey);
    lemma_equal_split(
        seq![COMMA],
        decimal(a.created_at as nat) + after_time(a),
        seq![COMMA],
        decimal(b.created_at as nat) + after_time(b),
    );
    assert(after_time(a)[0] == COMMA && after_time(b)[0] == COMMA);
    lemma_decimal_unique(a.created_at as nat, after_time(a), b.created_at as nat, after_time(b));
    lemma_equal_split(
        seq![COMMA],
        decimal(a.kind as nat) + after_kind(a),
        seq![COMMA],
        decimal(b.kind as nat) + after_kind(b),
    );
    assert(after_kind(a)[0] == COMMA && after_kind(b)[0] == COMMA);
    lemma_decimal_unique(a.kind as nat, after_kind(a), b.kind as nat, after_kind(b));
    lemma_equal_split(
        seq![COMMA],
        nested_array(utf8_rows(a.tags)) + after_tags(a),
        seq![COMMA],
        nested_array(utf8_rows(b.tags)) + after_tags(b),
    );
    lemma_nested_array_unique(utf8_rows(a.tags), after_tags(a), utf8_rows(b.tags), after_tags(b));
    lemma_utf8_rows_unique(a.tags, b.tags);
    lemma_equal_split(
        seq![COMMA],
        quoted(encode_utf8(a.content)) + seq![CLOSE],
        seq![COMMA],
        quoted(encode_utf8(b.content)) + seq![CLOSE],
    );
    lemma_quoted_unique(
        encode_utf8(a.content),
        seq![CLOSE],
        encode_utf8(b.content),
        seq![CLOSE],
    );
    lemma_utf8_unique(a.content, b.content);
}

/// Altering any field of an event whose identifier is right, while the
/// identifier stays, is found out by the identifier check, unless SHA-256
/// gives the two canonical forms, which differ, the same digest.
pub proof fn lemma_tampering_detected(genuine: SignedData, altered: SignedData)
    requires
        id_valid(genuine),
        altered.id == genuine.id,
        altered.unsigned != genuine.unsigned,
    ensures
        canonical(altered.unsigned) != canonical(genuine.unsigned),
        !id_valid(altered) || sha256_collision(
            canonical(genuine.unsigned),
            canonical(altered.unsigned),
        ),
{
    if canonical(altered.unsigned) == canonical(genuine.unsigned) {
        lemma_canonical_unique(altered.unsigned, genuine.unsigned);
    }
}

/// The signature check reads the identifier, the author's key and the
/// signature, and nothing else: two events that agree in these three get the
/// same answer.
pub proof fn lemma_signature_check_reads_three_fields(a: SignedData, b: SignedData)
    requires
        a.id == b.id,
        a.sig == b.sig,
        a.unsigned.pubkey == b.unsigned.pubkey,
    ensures
        signature_valid(a) == signature_valid(b),
{
}

/// Another key and another signature in an event's place pass the signature
/// check only if that signature is one that BIP-340 verification accepts for
/// the event's identifier under that key. With any other pair the check
/// fails, whatever held of the event before.
pub proof fn lemma_signature_binding(genuine: SignedData, altered: SignedData)
    requires
        altered.id == genuine.id,
        !schnorr_accepts(altered.sig, genuine.id, altered.unsigned.pubkey),
    ensures
        !signature_valid(altered),
{
}

} // verus!
