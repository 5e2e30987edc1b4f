//! The identity change-event data model.
//!
//! An entity's identity is defined by an append-only log of change events.
//! Each event carries a change block (what happened to the key material and
//! which event precedes it), an identifier that must equal the digest of the
//! canonically encoded change block, and a list of signatures.
//!
//! The canonical encoding implemented here is the hash-and-sign input: a
//! deterministic, length-prefixed binary format (every length is a 64-bit
//! little-endian count of bytes; strings are encoded as UTF-8).

use vstd::prelude::*;

use crate::compare::{bytes_eq, string_eq};
use vstd::utf8::encode_utf8;

verus! {

/// The label that designates the identity's primary ("root") key slot.
pub open spec fn spec_root_label() -> Seq<char> {
    "OCKAM_RK"@
}

/// Executable counterpart of [`spec_root_label`].
pub fn root_label() -> (r: String)
    ensures
        r@ == spec_root_label(),
{
    "OCKAM_RK".to_owned()
}

/// A fixed-size cryptographic digest naming one change event.
///
/// The reserved "initial" identifier (an empty digest) stands for the absent
/// predecessor of the very first event in a history.
#[derive(Clone, Debug, PartialEq, Eq)]
pub struct EventIdentifier {
    digest: Vec<u8>,
}

impl View for EventIdentifier {
    type V = Seq<u8>;

    closed spec fn view(&self) -> Seq<u8> {
        self.digest@
    }
}

impl EventIdentifier {
    /// Wrap a digest produced by the vault.
    pub fn from_hash(digest: Vec<u8>) -> (r: Self)
        ensures
            r@ == digest@,
    {
        EventIdentifier { digest }
    }

    /// The identifier that precedes the first event of a history.
    pub fn initial() -> (r: Self)
        ensures
            r@ == Seq::<u8>::empty(),
    {
        EventIdentifier { digest: Vec::new() }
    }

    /// Whether this is the reserved predecessor of a first event.
    pub open spec fn spec_is_initial(&self) -> bool {
        self@.len() == 0
    }

    /// Executable counterpart of [`Self::spec_is_initial`].
    pub fn is_initial(&self) -> (r: bool)
        ensures
            r == self.spec_is_initial(),
    {
        self.digest.len() == 0
    }

    /// The digest bytes.
    pub fn as_ref(&self) -> (r: &[u8])
        ensures
            r@ == self@,
    {
        self.digest.as_slice()
    }

    /// An owned copy of this identifier.
    pub fn duplicate(&self) -> (r: Self)
        ensures
            r@ == self@,
    {
        EventIdentifier { digest: crate::compare::clone_bytes(&self.digest) }
    }

    /// Digest equality.
    pub fn equals(&self, other: &EventIdentifier) -> (r: bool)
        ensures
            r == (self@ == other@),
    {
        bytes_eq(self.digest.as_slice(), other.digest.as_slice())
    }
}

/// The key material moved by a change: a public key filed under a label.
#[derive(Clone, Debug, PartialEq, Eq)]
pub struct KeyChangeData {
    /// The slot this key lives under.
    pub label: String,
    /// The new public key, as the vault encodes it.
    pub public_key: Vec<u8>,
}

impl KeyChangeData {
    /// Pack a label and a public key.
    pub fn new(label: String, public_key: Vec<u8>) -> (r: Self)
        ensures
            r.label == label,
            r.public_key == public_key,
    {
        KeyChangeData { label, public_key }
    }

    /// The slot this key lives under.
    pub fn label(&self) -> (r: &String)
        ensures
            r == self.label,
    {
        &self.label
    }

    /// The new public key.
    pub fn public_key(&self) -> (r: &Vec<u8>)
        ensures
            r == self.public_key,
    {
        &self.public_key
    }
}

/// The closed set of changes an event can make to an identity's key material.
#[derive(Clone, Debug, PartialEq, Eq)]
pub enum ProfileChangeType {
    /// Introduce a new key under a label.
    CreateKey(KeyChangeData),
    /// Replace the currently active key for a label.
    RotateKey(KeyChangeData),
}

impl ProfileChangeType {
    /// The change's key data, whichever variant it is.
    pub open spec fn spec_data(&self) -> KeyChangeData {
        match self {
            ProfileChangeType::CreateKey(d) => *d,
            ProfileChangeType::RotateKey(d) => *d,
        }
    }

    /// The label the change is scoped to.
    pub open spec fn spec_label(&self) -> Seq<char> {
        self.spec_data().label@
    }

    /// The public key the change introduces.
    pub open spec fn spec_public_key(&self) -> Seq<u8> {
        self.spec_data().public_key@
    }

    /// The change's key data.
    pub fn data(&self) -> (r: &KeyChangeData)
        ensures
            *r == self.spec_data(),
    {
        match self {
            ProfileChangeType::CreateKey(d) => d,
            ProfileChangeType::RotateKey(d) => d,
        }
    }

    /// The label the change is scoped to.
    pub fn label(&self) -> (r: &String)
        ensures
            r@ == self.spec_label(),
    {
        &self.data().label
    }

    /// The public key the change introduces.
    pub fn public_key(&self) -> (r: &Vec<u8>)
        ensures
            r@ == self.spec_public_key(),
    {
        &self.data().public_key
    }

    /// Whether the change is scoped to `label`.
    pub fn has_label(&self, label: &String) -> (r: bool)
        ensures
            r == (self.spec_label() == label@),
    {
        string_eq(self.label(), label)
    }
}

/// What gets hashed and signed: a change plus the identifier of the event it
/// follows (the initial identifier for the very first block).
#[derive(Clone, Debug, PartialEq, Eq)]
pub struct ChangeBlock {
    /// The identifier of the immediately preceding event.
    pub previous_event_identifier: EventIdentifier,
    /// The change itself.
    pub change: ProfileChangeType,
}

impl ChangeBlock {
    /// Pack a predecessor identifier and a change.
    pub fn new(previous_event_identifier: EventIdentifier, change: ProfileChangeType) -> (r: Self)
        ensures
            r.previous_event_identifier == previous_event_identifier,
            r.change == change,
    {
        ChangeBlock { previous_event_identifier, change }
    }

    /// The change itself.
    pub fn change(&self) -> (r: &ProfileChangeType)
        ensures
            r == self.change,
    {
        &self.change
    }

    /// The identifier of the immediately preceding event.
    pub fn previous_event_identifier(&self) -> (r: &EventIdentifier)
        ensures
            r == self.previous_event_identifier,
    {
        &self.previous_event_identifier
    }
}

/// Which key must have produced a signature — a role, not a key value.
#[derive(Clone, Copy, Debug, PartialEq, Eq, Structural)]
pub enum SignatureType {
    /// Signed by the key the change itself introduces.
    SelfSign,
    /// Signed by the identity's current root key.
    RootSign,
    /// Signed by the key the change replaces (continuity proof).
    PrevSign,
}

/// A signature over an event identifier, tagged with the role of its key.
#[derive(Clone, Debug, PartialEq, Eq)]
pub struct Signature {
    /// Which key must have produced this signature.
    pub stype: SignatureType,
    /// The raw signature bytes.
    pub data: Vec<u8>,
}

impl Signature {
    /// Pack a role and signature bytes.
    pub fn new(stype: SignatureType, data: Vec<u8>) -> (r: Self)
        ensures
            r.stype == stype,
            r.data == data,
    {
        Signature { stype, data }
    }

    /// Which key must have produced this signature.
    pub fn stype(&self) -> (r: SignatureType)
        ensures
            r == self.stype,
    {
        self.stype
    }

    /// The raw signature bytes.
    pub fn data(&self) -> (r: &Vec<u8>)
        ensures
            r == self.data,
    {
        &self.data
    }
}

/// One atomic, signed modification of an identity's key material.
#[derive(Clone, Debug, PartialEq, Eq)]
pub struct ProfileChangeEvent {
    /// Digest of the canonically encoded change block.
    pub identifier: EventIdentifier,
    /// The change block itself.
    pub change_block: ChangeBlock,
    /// The signatures presented for this event.
    pub signatures: Vec<Signature>,
}

impl ProfileChangeEvent {
    /// Pack an identifier, a change block and signatures into an event.
    pub fn new(identifier: EventIdentifier, change_block: ChangeBlock, signatures: Vec<Signature>)
        -> (r: Self)
        ensures
            r.identifier == identifier,
            r.change_block == change_block,
            r.signatures == signatures,
    {
        ProfileChangeEvent { identifier, change_block, signatures }
    }

    /// The event's identifier.
    pub fn identifier(&self) -> (r: &EventIdentifier)
        ensures
            r == self.identifier,
    {
        &self.identifier
    }

    /// The event's change block.
    pub fn change_block(&self) -> (r: &ChangeBlock)
        ensures
            r == self.change_block,
    {
        &self.change_block
    }

    /// The signatures presented for this event.
    pub fn signatures(&self) -> (r: &Vec<Signature>)
        ensures
            r == self.signatures,
    {
        &self.signatures
    }
}

/// A 64-bit little-endian length prefix.
pub open spec fn spec_u64_le(n: u64) -> Seq<u8> {
    seq![
        (n & 0xff) as u8,
        ((n >> 8) & 0xff) as u8,
        ((n >> 16) & 0xff) as u8,
        ((n >> 24) & 0xff) as u8,
        ((n >> 32) & 0xff) as u8,
        ((n >> 40) & 0xff) as u8,
        ((n >> 48) & 0xff) as u8,
        ((n >> 56) & 0xff) as u8,
    ]
}

/// A byte string in the canonical encoding: its length, then its bytes.
pub open spec fn spec_encode_bytes(b: Seq<u8>) -> Seq<u8> {
    spec_u64_le(b.len() as u64) + b
}

/// The tag byte that opens a change in the canonical encoding.
pub open spec fn spec_change_tag(c: ProfileChangeType) -> u8 {
    match c {
        ProfileChangeType::CreateKey(_) => 0u8,
        ProfileChangeType::RotateKey(_) => 1u8,
    }
}

/// The canonical encoding of a change block: the predecessor digest, the
/// change tag, the label (as UTF-8) and the public key, each length-prefixed.
pub open spec fn spec_encode_change_block(cb: ChangeBlock) -> Seq<u8> {
    spec_encode_bytes(cb.previous_event_identifier@) + seq![spec_change_tag(cb.change)]
        + spec_encode_bytes(encode_utf8(cb.change.spec_label()))
        + spec_encode_bytes(cb.change.spec_public_key())
}

/// Append a 64-bit little-endian value.
pub fn push_u64_le(out: &mut Vec<u8>, n: u64)
    ensures
        final(out)@ == old(out)@ + spec_u64_le(n),
{
    out.push((n & 0xff) as u8);
    out.push(((n >> 8) & 0xff) as u8);
    out.push(((n >> 16) & 0xff) as u8);
    out.push(((n >> 24) & 0xff) as u8);
    out.push(((n >> 32) & 0xff) as u8);
    out.push(((n >> 40) & 0xff) as u8);
    out.push(((n >> 48) & 0xff) as u8);
    out.push(((n >> 56) & 0xff) as u8);
    proof {
        assert(final(out)@ =~= old(out)@ + spec_u64_le(n));
    }
}

/// Append a length-prefixed byte string.
pub fn push_bytes(out: &mut Vec<u8>, b: &[u8])
    ensures
        final(out)@ == old(out)@ + spec_encode_bytes(b@),
{
    push_u64_le(out, b.len() as u64);
    let ghost mid = out@;
    let n = b.len();
    let mut i: usize = 0;
    while i < n
        invariant
            n == b@.len(),
            0 <= i <= n,
            out@ == mid + b@.take(i as int),
        decreases n - i,
    {
        out.push(b[i]);
        proof {
            assert(out@ =~= mid + b@.take(i + 1));
        }
        i = i + 1;
    }
    proof {
        assert(b@.take(n as int) =~= b@);
        assert(out@ =~= old(out)@ + spec_encode_bytes(b@));
    }
}

/// Canonically encode a change block. This is the hash-and-sign input:
/// equal blocks always encode to equal bytes.
pub fn encode_change_block(cb: &ChangeBlock) -> (r: Vec<u8>)
    ensures
        r@ == spec_encode_change_block(*cb),
{
    let mut out: Vec<u8> = Vec::new();
    push_bytes(&mut out, cb.previous_event_identifier.as_ref());
    let tag: u8 = match &cb.change {
        ProfileChangeType::CreateKey(_) => 0u8,
        ProfileChangeType::RotateKey(_) => 1u8,
    };
    out.push(tag);
    push_bytes(&mut out, cb.change.label().as_str().as_bytes());
    push_bytes(&mut out, cb.change.public_key().as_slice());
    proof {
        assert(out@ =~= spec_encode_change_block(*cb));
    }
    out
}

/// Equal length prefixes name equal lengths.
pub proof fn lemma_u64_le_injective(a: u64, b: u64)
    requires
        spec_u64_le(a) == spec_u64_le(b),
    ensures
        a == b,
{
    assert(spec_u64_le(a)[0] == spec_u64_le(b)[0]);
    assert(spec_u64_le(a)[1] == spec_u64_le(b)[1]);
    assert(spec_u64_le(a)[2] == spec_u64_le(b)[2]);
    assert(spec_u64_le(a)[3] == spec_u64_le(b)[3]);
    assert(spec_u64_le(a)[4] == spec_u64_le(b)[4]);
    assert(spec_u64_le(a)[5] == spec_u64_le(b)[5]);
    assert(spec_u64_le(a)[6] == spec_u64_le(b)[6]);
    assert(spec_u64_le(a)[7] == spec_u64_le(b)[7]);
    assert(a == b) by (bit_vector)
        requires
            (a & 0xff) as u8 == (b & 0xff) as u8,
            ((a >> 8) & 0xff) as u8 == ((b >> 8) & 0xff) as u8,
            ((a >> 16) & 0xff) as u8 == ((b >> 16) & 0xff) as u8,
            ((a >> 24) & 0xff) as u8 == ((b >> 24) & 0xff) as u8,
            ((a >> 32) & 0xff) as u8 == ((b >> 32) & 0xff) as u8,
            ((a >> 40) & 0xff) as u8 == ((b >> 40) & 0xff) as u8,
            ((a >> 48) & 0xff) as u8 == ((b >> 48) & 0xff) as u8,
            ((a >> 56) & 0xff) as u8 == ((b >> 56) & 0xff) as u8,
    ;
}

/// A length-prefixed byte string can be peeled off unambiguously: when two
/// encodings agree, the byte strings agree and so does whatever follows.
pub proof fn lemma_encode_bytes_prefix(x: Seq<u8>, y: Seq<u8>, rest_x: Seq<u8>, rest_y: Seq<u8>)
    requires
        spec_encode_bytes(x) + rest_x == spec_encode_bytes(y) + rest_y,
        x.len() <= u64::MAX,
        y.len() <= u64::MAX,
    ensures
        x == y,
        rest_x == rest_y,
{
    let ex = spec_encode_bytes(x) + rest_x;
    let ey = spec_encode_bytes(y) + rest_y;
    assert(spec_u64_le(x.len() as u64) =~= ex.subrange(0, 8));
    assert(spec_u64_le(y.len() as u64) =~= ey.subrange(0, 8));
    lemma_u64_le_injective(x.len() as u64, y.len() as u64);
    assert(x.len() == y.len());
    let n = x.len() as int;
    assert(x =~= ex.subrange(8, 8 + n));
    assert(y =~= ey.subrange(8, 8 + n));
    assert(x == y);
    assert(rest_x =~= ex.subrange(8 + n, ex.len() as int));
    assert(rest_y =~= ey.subrange(8 + n, ey.len() as int));
}

/// Law (canonical encoding): the encoding of a change block is injective.
/// Two blocks that encode to the same bytes agree on the predecessor
/// identifier, the kind of change, the label text and the public key —
/// so a digest of the encoding binds all four.
///
/// The length bounds only rule out byte strings too long for their 64-bit
/// length prefixes; no value a machine can hold reaches them.
pub proof fn lemma_change_block_encoding_injective(a: ChangeBlock, b: ChangeBlock)
    requires
        spec_encode_change_block(a) == spec_encode_change_block(b),
        a.previous_event_identifier@.len() <= u64::MAX,
        b.previous_event_identifier@.len() <= u64::MAX,
        encode_utf8(a.change.spec_label()).len() <= u64::MAX,
        encode_utf8(b.change.spec_label()).len() <= u64::MAX,
        a.change.spec_public_key().len() <= u64::MAX,
        b.change.spec_public_key().len() <= u64::MAX,
    ensures
        a.previous_event_identifier@ == b.previous_event_identifier@,
        a.change is CreateKey <==> b.change is CreateKey,
        a.change.spec_label() == b.change.spec_label(),
        a.change.spec_public_key() == b.change.spec_public_key(),
{
    let tail_a = seq![spec_change_tag(a.change)] + spec_encode_bytes(
        encode_utf8(a.change.spec_label()),
    ) + spec_encode_bytes(a.change.spec_public_key());
    let tail_b = seq![spec_change_tag(b.change)] + spec_encode_bytes(
        encode_utf8(b.change.spec_label()),
    ) + spec_encode_bytes(b.change.spec_public_key());
    assert(spec_encode_bytes(a.previous_event_identifier@) + tail_a =~= spec_encode_change_block(
        a,
    ));
    assert(spec_encode_bytes(b.previous_event_identifier@) + tail_b =~= spec_encode_change_block(
        b,
    ));
    lemma_encode_bytes_prefix(
        a.previous_event_identifier@,
        b.previous_event_identifier@,
        tail_a,
        tail_b,
    );

    assert(tail_a[0] == spec_change_tag(a.change));
    assert(tail_b[0] == spec_change_tag(b.change));
    assert(spec_change_tag(a.change) == spec_change_tag(b.change));

    let mid_a = spec_encode_bytes(encode_utf8(a.change.spec_label())) + spec_encode_bytes(
        a.change.spec_public_key(),
    );
    let mid_b = spec_encode_bytes(encode_utf8(b.change.spec_label())) + spec_encode_bytes(
        b.change.spec_public_key(),
    );
    assert(mid_a =~= tail_a.subrange(1, tail_a.len() as int));
    assert(mid_b =~= tail_b.subrange(1, tail_b.len() as int));
    lemma_encode_bytes_prefix(
        encode_utf8(a.change.spec_label()),
        encode_utf8(b.change.spec_label()),
        spec_encode_bytes(a.change.spec_public_key()),
        spec_encode_bytes(b.change.spec_public_key()),
    );
    vstd::utf8::encode_utf8_decode_utf8(a.change.spec_label());
    vstd::utf8::encode_utf8_decode_utf8(b.change.spec_label());

    lemma_encode_bytes_prefix(
        a.change.spec_public_key(),
        b.change.spec_public_key(),
        Seq::empty(),
        Seq::empty(),
    );
}

} // verus!
