//! The identity change-history engine.
//!
//! A [`ProfileChangeHistory`] is the append-only log of change events that
//! defines an entity's identity. Before any event is trusted it passes
//! [`ProfileChangeHistory::verify_event`]: the event identifier must equal
//! the digest of the canonically encoded change block, the multiset of
//! presented signature roles must match the policy for the change type, and
//! every signature must check out against the key its role designates.
//!
//! Outcomes follow a strict taxonomy: a *deny* is the ordinary `Ok(false)`
//! (hash mismatch, wrong signature-role multiset, or a signature that fails
//! cryptographic verification), while an `Err` is a *structural* failure
//! (a key lookup against a history that cannot hold the key, or a crypto
//! provider that cannot answer). Callers must never conflate the two.
//!
//! The exact behaviour of the verifier is written down by the specification
//! functions [`event_outcome`] and [`chain_outcome`], and the laws proved at
//! the bottom of this module state the security properties the engine
//! guarantees.

use vstd::prelude::*;

use crate::change_events::{
    spec_encode_change_block, spec_root_label, encode_change_block, root_label, EventIdentifier,
    ProfileChangeEvent, ProfileChangeType, Signature, SignatureType,
};
use crate::compare::clone_bytes;
use crate::error::EntityError;
use crate::vault::ProfileVault;

verus! {

/// How many signatures of each role an event must carry.
///
/// This table is the single source of truth for the signature policy:
/// a `CreateKey` is self-signed and, unless it is the very first event of a
/// history, countersigned by the current root key; a `RotateKey` is
/// self-signed, countersigned by the root key, and proves continuity with a
/// signature by the key it replaces.
pub struct SignaturePolicy {
    /// Required signatures by the key the change introduces.
    pub self_sign: u8,
    /// Required signatures by the identity's current root key.
    pub root_sign: u8,
    /// Required signatures by the key the change replaces.
    pub prev_sign: u8,
}

/// The required counts (self, root, prev) for a change type.
pub open spec fn spec_required_counts(c: ProfileChangeType, is_first_event: bool) -> (nat, nat, nat) {
    match c {
        ProfileChangeType::CreateKey(_) => (1nat, if is_first_event { 0nat } else { 1nat }, 0nat),
        ProfileChangeType::RotateKey(_) => (1nat, 1nat, 1nat),
    }
}

/// Resolve the signature policy for a change type.
pub fn required_signatures(change_type: &ProfileChangeType, is_first_event: bool) -> (r:
    SignaturePolicy)
    ensures
        r.self_sign as nat == spec_required_counts(*change_type, is_first_event).0,
        r.root_sign as nat == spec_required_counts(*change_type, is_first_event).1,
        r.prev_sign as nat == spec_required_counts(*change_type, is_first_event).2,
{
    match change_type {
        ProfileChangeType::CreateKey(_) => SignaturePolicy {
            self_sign: 1,
            root_sign: if is_first_event {
                0
            } else {
                1
            },
            prev_sign: 0,
        },
        ProfileChangeType::RotateKey(_) => SignaturePolicy {
            self_sign: 1,
            root_sign: 1,
            prev_sign: 1,
        },
    }
}

/// The most recent event whose change is scoped to `label`.
pub open spec fn spec_find_last_with_label(
    events: Seq<ProfileChangeEvent>,
    label: Seq<char>,
) -> Option<ProfileChangeEvent>
    decreases events.len(),
{
    if events.len() == 0 {
        None
    } else if events.last().change_block.change.spec_label() == label {
        Some(events.last())
    } else {
        spec_find_last_with_label(events.drop_last(), label)
    }
}

/// The key that authenticates a signature of role `stype` on event `new`,
/// resolved against the already verified `existing` events — or the
/// structural error when the history cannot hold that key.
pub open spec fn spec_resolve_key(
    existing: Seq<ProfileChangeEvent>,
    new: ProfileChangeEvent,
    stype: SignatureType,
) -> Result<Seq<u8>, EntityError> {
    match stype {
        SignatureType::RootSign => if existing.len() == 0 {
            Err(EntityError::VerifyFailed)
        } else {
            match spec_find_last_with_label(existing, spec_root_label()) {
                Some(e) => Ok(e.change_block.change.spec_public_key()),
                None => Err(EntityError::NotFound),
            }
        },
        SignatureType::SelfSign => Ok(new.change_block.change.spec_public_key()),
        SignatureType::PrevSign => match spec_find_last_with_label(
            existing,
            new.change_block.change.spec_label(),
        ) {
            Some(e) => Ok(e.change_block.change.spec_public_key()),
            None => Err(EntityError::NotFound),
        },
    }
}

/// Process the signatures of `new` in order, with `remaining_*` uses left
/// for each role. Resolution failures are structural errors; an exhausted
/// role counter or a failed cryptographic check is a deny.
pub open spec fn spec_process_signatures<V: ProfileVault>(
    existing: Seq<ProfileChangeEvent>,
    new: ProfileChangeEvent,
    event_id: Seq<u8>,
    sigs: Seq<Signature>,
    remaining_self: nat,
    remaining_root: nat,
    remaining_prev: nat,
) -> Result<bool, EntityError>
    decreases sigs.len(),
{
    if sigs.len() == 0 {
        Ok(true)
    } else {
        let s = sigs.first();
        match spec_resolve_key(existing, new, s.stype) {
            Err(e) => Err(e),
            Ok(key) => {
                let remaining = match s.stype {
                    SignatureType::SelfSign => remaining_self,
                    SignatureType::RootSign => remaining_root,
                    SignatureType::PrevSign => remaining_prev,
                };
                if remaining == 0 {
                    Ok(false)
                } else if !V::verify_spec(s.data@, key, event_id) {
                    Ok(false)
                } else {
                    spec_process_signatures::<V>(
                        existing,
                        new,
                        event_id,
                        sigs.drop_first(),
                        if s.stype is SelfSign {
                            (remaining_self - 1) as nat
                        } else {
                            remaining_self
                        },
                        if s.stype is RootSign {
                            (remaining_root - 1) as nat
                        } else {
                            remaining_root
                        },
                        if s.stype is PrevSign {
                            (remaining_prev - 1) as nat
                        } else {
                            remaining_prev
                        },
                    )
                }
            },
        }
    }
}

/// Exactly what verifying `new` against the verified prefix `existing`
/// returns, for a crypto provider `V` whose calls all succeed.
pub open spec fn event_outcome<V: ProfileVault>(
    existing: Seq<ProfileChangeEvent>,
    new: ProfileChangeEvent,
) -> Result<bool, EntityError> {
    let id = V::hash_spec(spec_encode_change_block(new.change_block));
    let counts = spec_required_counts(new.change_block.change, existing.len() == 0);
    if new.identifier@ != id {
        Ok(false)
    } else if new.signatures@.len() != counts.0 + counts.1 + counts.2 {
        Ok(false)
    } else {
        spec_process_signatures::<V>(existing, new, id, new.signatures@, counts.0, counts.1, counts.2)
    }
}

/// Exactly what re-verifying the whole chain from event `i` on returns.
pub open spec fn chain_outcome_from<V: ProfileVault>(
    events: Seq<ProfileChangeEvent>,
    i: nat,
) -> Result<bool, EntityError>
    decreases events.len() - i when i <= events.len()
{
    if i >= events.len() {
        Ok(true)
    } else {
        match event_outcome::<V>(events.take(i as int), events[i as int]) {
            Ok(true) => chain_outcome_from::<V>(events, i + 1),
            Ok(false) => Ok(false),
            Err(e) => Err(e),
        }
    }
}

/// Exactly what re-verifying the whole chain from scratch returns.
pub open spec fn chain_outcome<V: ProfileVault>(events: Seq<ProfileChangeEvent>) -> Result<
    bool,
    EntityError,
> {
    chain_outcome_from::<V>(events, 0)
}

/// Whether `new_events`, appended after `prev` (the identifier of the event
/// they extend, if any), link up: each event names its immediate predecessor.
pub open spec fn spec_consistent_after(
    prev: Option<EventIdentifier>,
    new_events: Seq<ProfileChangeEvent>,
) -> bool
    decreases new_events.len(),
{
    if new_events.len() == 0 {
        true
    } else {
        let linked = match prev {
            Some(p) => p@ == new_events.first().change_block.previous_event_identifier@,
            None => true,
        };
        linked && spec_consistent_after(Some(new_events.first().identifier), new_events.drop_first())
    }
}

/// Whether `new_events` consistently extend `existing`.
pub open spec fn spec_check_consistency(
    existing: Seq<ProfileChangeEvent>,
    new_events: Seq<ProfileChangeEvent>,
) -> bool {
    spec_consistent_after(
        if existing.len() == 0 {
            None
        } else {
            Some(existing.last().identifier)
        },
        new_events,
    )
}

/// Full history of an entity's identity changes. The history and the
/// corresponding secret keys are enough to recreate the entity's profile.
///
/// The event list is private: it can only grow, through
/// [`ProfileChangeHistory::push_event`].
#[derive(Clone, Debug)]
pub struct ProfileChangeHistory {
    events: Vec<ProfileChangeEvent>,
}

impl View for ProfileChangeHistory {
    type V = Seq<ProfileChangeEvent>;

    closed spec fn view(&self) -> Seq<ProfileChangeEvent> {
        self.events@
    }
}

impl Default for ProfileChangeHistory {
    /// An empty history, for a brand-new identity.
    fn default() -> (r: Self)
        ensures
            r@ == Seq::<ProfileChangeEvent>::empty(),
    {
        ProfileChangeHistory { events: Vec::new() }
    }
}

impl ProfileChangeHistory {
    /// Wrap a list of already verified change events.
    pub fn new(change_events: Vec<ProfileChangeEvent>) -> (r: Self)
        ensures
            r@ == change_events@,
    {
        ProfileChangeHistory { events: change_events }
    }

    /// Append a verified event. Appending is the only mutation the history
    /// offers: events are never edited or removed.
    pub fn push_event(&mut self, event: ProfileChangeEvent)
        ensures
            final(self)@ == old(self)@.push(event),
    {
        self.events.push(event)
    }

    /// The events, oldest first.
    pub fn as_ref(&self) -> (r: &[ProfileChangeEvent])
        ensures
            r@ == self@,
    {
        self.events.as_slice()
    }

    /// The identifier of the most recent event.
    pub fn get_last_event_id(&self) -> (r: Result<EventIdentifier, EntityError>)
        ensures
            self@.len() == 0 ==> r == Err::<EventIdentifier, EntityError>(EntityError::EmptyHistory),
            self@.len() > 0 ==> (r matches Ok(id) && id@ == self@.last().identifier@),
    {
        if self.events.len() == 0 {
            Err(EntityError::EmptyHistory)
        } else {
            Ok(self.events[self.events.len() - 1].identifier().duplicate())
        }
    }

    /// The first event of the history.
    pub fn first_event(&self) -> (r: Result<&ProfileChangeEvent, EntityError>)
        ensures
            self@.len() == 0 ==> r == Err::<&ProfileChangeEvent, EntityError>(
                EntityError::EmptyHistory,
            ),
            self@.len() > 0 ==> (r matches Ok(e) && *e == self@.first()),
    {
        if self.events.len() == 0 {
            Err(EntityError::EmptyHistory)
        } else {
            Ok(&self.events[0])
        }
    }

    /// The most recent event among `existing_events` scoped to `label`.
    pub fn find_last_key_event<'a>(
        existing_events: &'a [ProfileChangeEvent],
        label: &String,
    ) -> (r: Result<&'a ProfileChangeEvent, EntityError>)
        ensures
            match r {
                Ok(e) => spec_find_last_with_label(existing_events@, label@) == Some(*e),
                Err(er) => spec_find_last_with_label(existing_events@, label@) is None && er
                    == EntityError::NotFound,
            },
    {
        let mut i: usize = existing_events.len();
        proof {
            assert(existing_events@.take(i as int) =~= existing_events@);
        }
        while i > 0
            invariant
                0 <= i <= existing_events@.len(),
                spec_find_last_with_label(existing_events@, label@) == spec_find_last_with_label(
                    existing_events@.take(i as int),
                    label@,
                ),
            decreases i,
        {
            let e = &existing_events[i - 1];
            proof {
                assert(existing_events@.take(i as int).last() == existing_events@[i - 1]);
                assert(existing_events@.take(i as int).drop_last() =~= existing_events@.take(
                    i - 1,
                ));
            }
            if e.change_block().change().has_label(label) {
                return Ok(e);
            }
            i = i - 1;
        }
        proof {
            assert(existing_events@.take(0) =~= Seq::<ProfileChangeEvent>::empty());
        }
        Err(EntityError::NotFound)
    }

    /// The public key of the most recent event scoped to `label`.
    pub fn find_last_key_event_public_key(
        existing_events: &[ProfileChangeEvent],
        label: &String,
    ) -> (r: Result<Vec<u8>, EntityError>)
        ensures
            match r {
                Ok(k) => (spec_find_last_with_label(existing_events@, label@) matches Some(e)
                    && k@ == e.change_block.change.spec_public_key()),
                Err(er) => spec_find_last_with_label(existing_events@, label@) is None && er
                    == EntityError::NotFound,
            },
    {
        match Self::find_last_key_event(existing_events, label) {
            Ok(e) => Ok(clone_bytes(e.change_block().change().public_key())),
            Err(er) => Err(er),
        }
    }

    /// The public key that currently authenticates `RootSign` signatures:
    /// the key of the most recent event scoped to the root label.
    pub fn get_current_root_public_key(existing_events: &[ProfileChangeEvent]) -> (r: Result<
        Vec<u8>,
        EntityError,
    >)
        ensures
            match r {
                Ok(k) => (spec_find_last_with_label(existing_events@, spec_root_label())
                    matches Some(e) && k@ == e.change_block.change.spec_public_key()),
                Err(er) => spec_find_last_with_label(existing_events@, spec_root_label()) is None
                    && er == EntityError::NotFound,
            },
    {
        let root = root_label();
        Self::find_last_key_event_public_key(existing_events, &root)
    }

    /// The public key of the most recent event scoped to `label`.
    pub fn get_public_key_static(
        events: &[ProfileChangeEvent],
        label: &String,
    ) -> (r: Result<Vec<u8>, EntityError>)
        ensures
            match r {
                Ok(k) => (spec_find_last_with_label(events@, label@) matches Some(e) && k@
                    == e.change_block.change.spec_public_key()),
                Err(er) => spec_find_last_with_label(events@, label@) is None && er
                    == EntityError::NotFound,
            },
    {
        Self::find_last_key_event_public_key(events, label)
    }

    /// The public key of this history's most recent event scoped to `label`.
    pub fn get_public_key(&self, label: &String) -> (r: Result<Vec<u8>, EntityError>)
        ensures
            match r {
                Ok(k) => (spec_find_last_with_label(self@, label@) matches Some(e) && k@
                    == e.change_block.change.spec_public_key()),
                Err(er) => spec_find_last_with_label(self@, label@) is None && er
                    == EntityError::NotFound,
            },
    {
        Self::get_public_key_static(self.as_ref(), label)
    }

    /// The public key created by the history's first event, which must be a
    /// `CreateKey`.
    pub fn get_first_root_public_key(&self) -> (r: Result<Vec<u8>, EntityError>)
        ensures
            self@.len() == 0 ==> r == Err::<Vec<u8>, EntityError>(EntityError::EmptyHistory),
            self@.len() > 0 && !(self@.first().change_block.change is CreateKey) ==> r == Err::<
                Vec<u8>,
                EntityError,
            >(EntityError::VerifyFailed),
            self@.len() > 0 && self@.first().change_block.change is CreateKey ==> (r matches Ok(k)
                && k@ == self@.first().change_block.change.spec_public_key()),
    {
        if self.events.len() == 0 {
            return Err(EntityError::EmptyHistory);
        }
        let root_event = &self.events[0];
        match root_event.change_block().change() {
            ProfileChangeType::CreateKey(c) => Ok(clone_bytes(c.public_key())),
            ProfileChangeType::RotateKey(_) => Err(EntityError::VerifyFailed),
        }
    }

    /// Verify one new event against the already verified prefix
    /// `existing_events`.
    ///
    /// The prefix is trusted, never re-verified: verification is
    /// incremental, and the order of events is checked separately by
    /// [`ProfileChangeHistory::check_consistency`].
    ///
    /// When every crypto-provider call succeeds the result is exactly
    /// [`event_outcome`]; a provider failure surfaces as an `Err`, never as
    /// a deny or an accept.
    #[verifier::loop_isolation(false)]
    pub fn verify_event<V: ProfileVault>(
        existing_events: &[ProfileChangeEvent],
        new_change_event: &ProfileChangeEvent,
        vault: &mut V,
    ) -> (r: Result<bool, EntityError>)
        ensures
            r matches Ok(b) ==> Ok::<bool, EntityError>(b) == event_outcome::<V>(
                existing_events@,
                *new_change_event,
            ),
            event_outcome::<V>(existing_events@, *new_change_event) is Err ==> r is Err,
    {
        let change_block = new_change_event.change_block();
        let change_block_binary = encode_change_block(change_block);

        let event_id_bytes = match vault.sha256(change_block_binary.as_slice()) {
            Ok(d) => d,
            Err(e) => {
                return Err(e);
            },
        };
        let event_id = EventIdentifier::from_hash(event_id_bytes);

        if !event_id.equals(new_change_event.identifier()) {
            return Ok(false);
        }

        let policy = required_signatures(
            new_change_event.change_block().change(),
            existing_events.len() == 0,
        );
        let mut remaining_self = policy.self_sign;
        let mut remaining_root = policy.root_sign;
        let mut remaining_prev = policy.prev_sign;

        let total: usize = remaining_self as usize + remaining_root as usize
            + remaining_prev as usize;
        if new_change_event.signatures().len() != total {
            return Ok(false);
        }

        let sigs = new_change_event.signatures();
        let n = sigs.len();
        let mut i: usize = 0;
        proof {
            assert(sigs@.skip(0) =~= sigs@);
        }
        while i < n
            invariant
                0 <= i <= n,
                event_outcome::<V>(existing_events@, *new_change_event)
                    == spec_process_signatures::<V>(
                    existing_events@,
                    *new_change_event,
                    new_change_event.identifier@,
                    sigs@.skip(i as int),
                    remaining_self as nat,
                    remaining_root as nat,
                    remaining_prev as nat,
                ),
            decreases n - i,
        {
            let signature = &sigs[i];
            proof {
                assert(sigs@.skip(i as int).first() == sigs@[i as int]);
            }
            let public_key: Vec<u8> = match signature.stype() {
                SignatureType::RootSign => {
                    if existing_events.len() == 0 {
                        return Err(EntityError::VerifyFailed);
                    }
                    match Self::get_current_root_public_key(existing_events) {
                        Ok(k) => k,
                        Err(e) => {
                            return Err(e);
                        },
                    }
                },
                SignatureType::SelfSign => clone_bytes(
                    new_change_event.change_block().change().public_key(),
                ),
                SignatureType::PrevSign => {
                    match Self::find_last_key_event_public_key(
                        existing_events,
                        new_change_event.change_block().change().label(),
                    ) {
                        Ok(k) => k,
                        Err(e) => {
                            return Err(e);
                        },
                    }
                },
            };

            let remaining: u8 = match signature.stype() {
                SignatureType::SelfSign => remaining_self,
                SignatureType::RootSign => remaining_root,
                SignatureType::PrevSign => remaining_prev,
            };
            if remaining == 0 {
                return Ok(false);
            }

            match vault.verify(
                signature.data().as_slice(),
                public_key.as_slice(),
                event_id.as_ref(),
            ) {
                Ok(true) => {},
                Ok(false) => {
                    return Ok(false);
                },
                Err(e) => {
                    return Err(e);
                },
            }

            match signature.stype() {
                SignatureType::SelfSign => {
                    remaining_self = remaining_self - 1;
                },
                SignatureType::RootSign => {
                    remaining_root = remaining_root - 1;
                },
                SignatureType::PrevSign => {
                    remaining_prev = remaining_prev - 1;
                },
            }
            proof {
                assert(sigs@.skip(i as int).drop_first() =~= sigs@.skip(i + 1));
            }
            i = i + 1;
        }
        Ok(true)
    }

    /// Re-verify a whole history from scratch, oldest event first, each
    /// event against the growing prefix before it. This is the operation
    /// run before a history received from an untrusted source is accepted.
    ///
    /// When every crypto-provider call succeeds the result is exactly
    /// [`chain_outcome`]; an empty history needs no provider call at all
    /// and always verifies vacuously.
    #[verifier::loop_isolation(false)]
    pub fn verify_all_existing_events<V: ProfileVault>(&self, vault: &mut V) -> (r: Result<
        bool,
        EntityError,
    >)
        ensures
            r matches Ok(b) ==> Ok::<bool, EntityError>(b) == chain_outcome::<V>(self@),
            chain_outcome::<V>(self@) is Err ==> r is Err,
            self@.len() == 0 ==> r == Ok::<bool, EntityError>(true),
    {
        let n = self.events.len();
        let mut i: usize = 0;
        while i < n
            invariant
                0 <= i <= n,
                chain_outcome::<V>(self@) == chain_outcome_from::<V>(self@, i as nat),
            decreases n - i,
        {
            let existing_events = vstd::slice::slice_subrange(self.events.as_slice(), 0, i);
            let new_event = &self.events[i];
            proof {
                assert(existing_events@ =~= self@.take(i as int));
            }
            match Self::verify_event(existing_events, new_event, vault) {
                Ok(true) => {},
                Ok(false) => {
                    return Ok(false);
                },
                Err(e) => {
                    return Err(e);
                },
            }
            i = i + 1;
        }
        Ok(true)
    }

    /// Check that `new_events` extend `existing_events` in order: every
    /// event names the identifier of its immediate predecessor — the last
    /// of `existing_events` for the first new event, the previous new event
    /// after that. Any reordering, fork or truncated replay returns false.
    #[verifier::loop_isolation(false)]
    pub fn check_consistency(
        existing_events: &[ProfileChangeEvent],
        new_events: &[ProfileChangeEvent],
    ) -> (r: bool)
        ensures
            r == spec_check_consistency(existing_events@, new_events@),
    {
        let mut prev_event: Option<&ProfileChangeEvent> = if existing_events.len() > 0 {
            Some(&existing_events[existing_events.len() - 1])
        } else {
            None
        };
        let n = new_events.len();
        let mut i: usize = 0;
        proof {
            assert(new_events@.skip(0) =~= new_events@);
        }
        while i < n
            invariant
                0 <= i <= n,
                spec_check_consistency(existing_events@, new_events@) == spec_consistent_after(
                    match prev_event {
                        Some(p) => Some(p.identifier),
                        None => None,
                    },
                    new_events@.skip(i as int),
                ),
            decreases n - i,
        {
            let event = &new_events[i];
            proof {
                assert(new_events@.skip(i as int).first() == new_events@[i as int]);
                assert(new_events@.skip(i as int).drop_first() =~= new_events@.skip(i + 1));
            }
            match prev_event {
                Some(prev) => {
                    if !prev.identifier().equals(event.change_block().previous_event_identifier()) {
                        return false;
                    }
                },
                None => {},
            }
            prev_event = Some(event);
            i = i + 1;
        }
        true
    }
}

/// Law (hash binding): an event whose identifier is not the digest of its
/// canonically encoded change block is denied, whatever signatures it
/// carries. In particular, altering the change block of an accepted event
/// while keeping its identifier is denied as soon as the digests differ.
pub proof fn lemma_hash_mismatch_denies<V: ProfileVault>(
    existing: Seq<ProfileChangeEvent>,
    e: ProfileChangeEvent,
)
    requires
        e.identifier@ != V::hash_spec(spec_encode_change_block(e.change_block)),
    ensures
        event_outcome::<V>(existing, e) == Ok::<bool, EntityError>(false),
{
}

/// Law (genesis exception): the first event of a history is accepted with a
/// single self-signature — a `CreateKey` with a correct identifier and one
/// valid `SelfSign`, verified against an empty history, is accepted with no
/// root signature.
pub proof fn lemma_genesis_create_key_accepts<V: ProfileVault>(e: ProfileChangeEvent)
    requires
        e.change_block.change is CreateKey,
        e.identifier@ == V::hash_spec(spec_encode_change_block(e.change_block)),
        e.signatures@.len() == 1,
        e.signatures@[0].stype == SignatureType::SelfSign,
        V::verify_spec(
            e.signatures@[0].data@,
            e.change_block.change.spec_public_key(),
            e.identifier@,
        ),
    ensures
        event_outcome::<V>(Seq::empty(), e) == Ok::<bool, EntityError>(true),
{
    let id = V::hash_spec(spec_encode_change_block(e.change_block));
    let sigs = e.signatures@;
    assert(sigs.first() == sigs[0]);
    assert(sigs.drop_first().len() == 0);
    assert(spec_process_signatures::<V>(Seq::empty(), e, id, sigs.drop_first(), 0, 0, 0) == Ok::<
        bool,
        EntityError,
    >(true));
}

/// Law (genesis exception, second half): once a history has events, the same
/// genesis-shaped event — a `CreateKey` carrying a single `SelfSign` and no
/// root signature — is denied, however valid its one signature is.
pub proof fn lemma_missing_root_sign_denies<V: ProfileVault>(
    existing: Seq<ProfileChangeEvent>,
    e: ProfileChangeEvent,
)
    requires
        existing.len() > 0,
        e.change_block.change is CreateKey,
        e.signatures@.len() == 1,
        e.signatures@[0].stype == SignatureType::SelfSign,
    ensures
        event_outcome::<V>(existing, e) == Ok::<bool, EntityError>(false),
{
}

/// Law (genesis exception, strengthened): once a history has events, a
/// `CreateKey` whose signatures are all self-signatures — however many, and
/// however individually valid — is denied: the policy demands exactly one
/// self-signature and one root signature.
pub proof fn lemma_create_key_all_self_signs_denied<V: ProfileVault>(
    existing: Seq<ProfileChangeEvent>,
    e: ProfileChangeEvent,
)
    requires
        existing.len() > 0,
        e.change_block.change is CreateKey,
        forall|i: int|
            0 <= i < e.signatures@.len() ==> e.signatures@[i].stype == SignatureType::SelfSign,
    ensures
        event_outcome::<V>(existing, e) == Ok::<bool, EntityError>(false),
{
    let id = V::hash_spec(spec_encode_change_block(e.change_block));
    if e.identifier@ == id && e.signatures@.len() == 2 {
        let sigs = e.signatures@;
        let s1 = sigs.drop_first();
        assert(sigs.first() == sigs[0]);
        assert(s1.first() == sigs[1]);
        if V::verify_spec(sigs[0].data@, e.change_block.change.spec_public_key(), id) {
            assert(spec_process_signatures::<V>(existing, e, id, sigs, 1, 1, 0)
                == spec_process_signatures::<V>(existing, e, id, s1, 0, 1, 0));
            assert(spec_process_signatures::<V>(existing, e, id, s1, 0, 1, 0) == Ok::<
                bool,
                EntityError,
            >(false));
        }
    }
}

/// Law (rotation requires continuity): a `RotateKey` whose `PrevSign` does
/// not verify against the public key of the most recent event for the same
/// label is denied — whether or not its other signatures hold up.
pub proof fn lemma_rotation_without_continuity_denies<V: ProfileVault>(
    existing: Seq<ProfileChangeEvent>,
    e: ProfileChangeEvent,
)
    requires
        e.change_block.change is RotateKey,
        e.signatures@.len() == 3,
        e.signatures@[0].stype == SignatureType::SelfSign,
        e.signatures@[1].stype == SignatureType::RootSign,
        e.signatures@[2].stype == SignatureType::PrevSign,
        existing.len() > 0,
        spec_find_last_with_label(existing, spec_root_label()) is Some,
        spec_find_last_with_label(existing, e.change_block.change.spec_label()) matches Some(prev)
            && !V::verify_spec(
            e.signatures@[2].data@,
            prev.change_block.change.spec_public_key(),
            V::hash_spec(spec_encode_change_block(e.change_block)),
        ),
    ensures
        event_outcome::<V>(existing, e) == Ok::<bool, EntityError>(false),
{
    let id = V::hash_spec(spec_encode_change_block(e.change_block));
    if e.identifier@ == id {
        let sigs = e.signatures@;
        let s1 = sigs.drop_first();
        let s2 = s1.drop_first();
        assert(sigs.first() == sigs[0]);
        assert(s1.first() == sigs[1]);
        assert(s2.first() == sigs[2]);
        let self_key = e.change_block.change.spec_public_key();
        let root_key = match spec_find_last_with_label(existing, spec_root_label()) {
            Some(ev) => ev.change_block.change.spec_public_key(),
            None => Seq::empty(),
        };
        if !V::verify_spec(sigs[0].data@, self_key, id) {
            assert(spec_process_signatures::<V>(existing, e, id, sigs, 1, 1, 1) == Ok::<
                bool,
                EntityError,
            >(false));
        } else {
            assert(spec_process_signatures::<V>(existing, e, id, sigs, 1, 1, 1)
                == spec_process_signatures::<V>(existing, e, id, s1, 0, 1, 1));
            if !V::verify_spec(sigs[1].data@, root_key, id) {
                assert(spec_process_signatures::<V>(existing, e, id, s1, 0, 1, 1) == Ok::<
                    bool,
                    EntityError,
                >(false));
            } else {
                assert(spec_process_signatures::<V>(existing, e, id, s1, 0, 1, 1)
                    == spec_process_signatures::<V>(existing, e, id, s2, 0, 0, 1));
                assert(spec_process_signatures::<V>(existing, e, id, s2, 0, 0, 1) == Ok::<
                    bool,
                    EntityError,
                >(false));
            }
        }
    }
}

/// The key a signature role resolves to, where it resolves at all.
pub open spec fn spec_resolved_key(
    existing: Seq<ProfileChangeEvent>,
    new: ProfileChangeEvent,
    stype: SignatureType,
) -> Seq<u8> {
    match spec_resolve_key(existing, new, stype) {
        Ok(k) => k,
        Err(_) => Seq::empty(),
    }
}

/// Processing denies whenever every presented role resolves and some
/// signature fails its cryptographic check: the walk reaches the failing
/// signature, or is cut short by a role counter — a deny either way.
proof fn lemma_failing_signature_denies<V: ProfileVault>(
    existing: Seq<ProfileChangeEvent>,
    e: ProfileChangeEvent,
    event_id: Seq<u8>,
    sigs: Seq<Signature>,
    remaining_self: nat,
    remaining_root: nat,
    remaining_prev: nat,
    fi: int,
)
    requires
        forall|i: int|
            0 <= i < sigs.len() ==> spec_resolve_key(existing, e, #[trigger] sigs[i].stype) is Ok,
        0 <= fi < sigs.len(),
        !V::verify_spec(
            sigs[fi].data@,
            spec_resolved_key(existing, e, sigs[fi].stype),
            event_id,
        ),
    ensures
        spec_process_signatures::<V>(
            existing,
            e,
            event_id,
            sigs,
            remaining_self,
            remaining_root,
            remaining_prev,
        ) == Ok::<bool, EntityError>(false),
    decreases sigs.len(),
{
    let s = sigs.first();
    assert(sigs[0] == s);
    assert(spec_resolve_key(existing, e, sigs[0].stype) is Ok);
    let key = spec_resolved_key(existing, e, s.stype);
    let remaining = match s.stype {
        SignatureType::SelfSign => remaining_self,
        SignatureType::RootSign => remaining_root,
        SignatureType::PrevSign => remaining_prev,
    };
    if remaining == 0 {
        // An exhausted role counter is itself a deny.
    } else if !V::verify_spec(s.data@, key, event_id) {
        // The walk denies right here.
    } else {
        assert(fi != 0);
        let rest = sigs.drop_first();
        assert forall|i: int|
            0 <= i < rest.len() implies spec_resolve_key(
            existing,
            e,
            #[trigger] rest[i].stype,
        ) is Ok by {
            assert(rest[i] == sigs[i + 1]);
        }
        assert(rest[fi - 1] == sigs[fi]);
        lemma_failing_signature_denies::<V>(
            existing,
            e,
            event_id,
            rest,
            if s.stype is SelfSign {
                (remaining_self - 1) as nat
            } else {
                remaining_self
            },
            if s.stype is RootSign {
                (remaining_root - 1) as nat
            } else {
                remaining_root
            },
            if s.stype is PrevSign {
                (remaining_prev - 1) as nat
            } else {
                remaining_prev
            },
            fi - 1,
        );
    }
}

/// Law (rotation requires continuity, any signature order): a `RotateKey`
/// presenting each signature role exactly once — in whatever order — over a
/// history whose root key resolves, is denied whenever its `PrevSign` does
/// not verify against the public key of the most recent event for its
/// label.
pub proof fn lemma_rotation_denied_in_any_order<V: ProfileVault>(
    existing: Seq<ProfileChangeEvent>,
    e: ProfileChangeEvent,
)
    requires
        e.change_block.change is RotateKey,
        e.signatures@.len() == 3,
        e.signatures@[0].stype != e.signatures@[1].stype,
        e.signatures@[0].stype != e.signatures@[2].stype,
        e.signatures@[1].stype != e.signatures@[2].stype,
        existing.len() > 0,
        spec_find_last_with_label(existing, spec_root_label()) is Some,
        spec_find_last_with_label(existing, e.change_block.change.spec_label()) is Some,
        forall|i: int|
            0 <= i < 3 && #[trigger] e.signatures@[i].stype == SignatureType::PrevSign
                ==> !V::verify_spec(
                e.signatures@[i].data@,
                spec_resolved_key(existing, e, SignatureType::PrevSign),
                V::hash_spec(spec_encode_change_block(e.change_block)),
            ),
    ensures
        event_outcome::<V>(existing, e) == Ok::<bool, EntityError>(false),
{
    let id = V::hash_spec(spec_encode_change_block(e.change_block));
    if e.identifier@ == id {
        let sigs = e.signatures@;
        assert forall|i: int|
            0 <= i < sigs.len() implies spec_resolve_key(
            existing,
            e,
            #[trigger] sigs[i].stype,
        ) is Ok by {}
        let fi: int = if sigs[0].stype == SignatureType::PrevSign {
            0
        } else if sigs[1].stype == SignatureType::PrevSign {
            1
        } else {
            2
        };
        assert(sigs[fi].stype == SignatureType::PrevSign);
        lemma_failing_signature_denies::<V>(existing, e, id, sigs, 1, 1, 1, fi);
    }
}

/// Law (no signature reuse across roles): a non-genesis `CreateKey` that
/// presents two `SelfSign` signatures and no `RootSign` is denied, even when
/// both signatures are individually valid — the second self-signature finds
/// its role already satisfied.
pub proof fn lemma_duplicate_self_sign_denies<V: ProfileVault>(
    existing: Seq<ProfileChangeEvent>,
    e: ProfileChangeEvent,
)
    requires
        existing.len() > 0,
        e.change_block.change is CreateKey,
        e.signatures@.len() == 2,
        e.signatures@[0].stype == SignatureType::SelfSign,
        e.signatures@[1].stype == SignatureType::SelfSign,
    ensures
        event_outcome::<V>(existing, e) == Ok::<bool, EntityError>(false),
{
    let id = V::hash_spec(spec_encode_change_block(e.change_block));
    if e.identifier@ == id {
        let sigs = e.signatures@;
        let s1 = sigs.drop_first();
        assert(sigs.first() == sigs[0]);
        assert(s1.first() == sigs[1]);
        if V::verify_spec(sigs[0].data@, e.change_block.change.spec_public_key(), id) {
            assert(spec_process_signatures::<V>(existing, e, id, s1, 0, 1, 0) == Ok::<
                bool,
                EntityError,
            >(false));
        }
    }
}

/// Law (sequencing): swapping the second and third events of a consistent
/// three-event chain breaks consistency, as long as the first two events
/// have distinct identifiers.
pub proof fn lemma_reordered_chain_is_inconsistent(
    e1: ProfileChangeEvent,
    e2: ProfileChangeEvent,
    e3: ProfileChangeEvent,
)
    requires
        spec_check_consistency(Seq::empty(), seq![e1, e2, e3]),
        e1.identifier@ != e2.identifier@,
    ensures
        !spec_check_consistency(Seq::empty(), seq![e1, e3, e2]),
{
    let chain = seq![e1, e2, e3];
    assert(chain.first() == e1);
    assert(chain.drop_first() =~= seq![e2, e3]);
    assert(seq![e2, e3].first() == e2);
    assert(seq![e2, e3].drop_first() =~= seq![e3]);
    assert(seq![e3].first() == e3);
    assert(spec_consistent_after(Some(e1.identifier), seq![e2, e3]));
    assert(e2.change_block.previous_event_identifier@ == e1.identifier@);
    assert(spec_consistent_after(Some(e2.identifier), seq![e3]));
    assert(e3.change_block.previous_event_identifier@ == e2.identifier@);

    let swapped = seq![e1, e3, e2];
    assert(swapped.first() == e1);
    assert(swapped.drop_first() =~= seq![e3, e2]);
    assert(seq![e3, e2].first() == e3);
    assert(e3.change_block.previous_event_identifier@ != e1.identifier@);
    assert(!spec_consistent_after(Some(e1.identifier), seq![e3, e2]));
}

/// Law (idempotent replay): a chain whose every event verifies against the
/// prefix before it re-verifies as a whole, from scratch.
pub proof fn lemma_verified_chain_replays<V: ProfileVault>(events: Seq<ProfileChangeEvent>)
    requires
        forall|i: int|
            0 <= i < events.len() ==> event_outcome::<V>(events.take(i), events[i]) == Ok::<
                bool,
                EntityError,
            >(true),
    ensures
        chain_outcome::<V>(events) == Ok::<bool, EntityError>(true),
{
    lemma_verified_chain_replays_from::<V>(events, 0);
}

/// Helper for [`lemma_verified_chain_replays`]: the claim from position `i`.
proof fn lemma_verified_chain_replays_from<V: ProfileVault>(
    events: Seq<ProfileChangeEvent>,
    i: nat,
)
    requires
        i <= events.len(),
        forall|j: int|
            0 <= j < events.len() ==> event_outcome::<V>(events.take(j), events[j]) == Ok::<
                bool,
                EntityError,
            >(true),
    ensures
        chain_outcome_from::<V>(events, i) == Ok::<bool, EntityError>(true),
    decreases events.len() - i,
{
    if i < events.len() {
        lemma_verified_chain_replays_from::<V>(events, i + 1);
    }
}

/// Whether every event of `events` after the first names its immediate
/// predecessor in `events`.
pub open spec fn spec_linked_inside(events: Seq<ProfileChangeEvent>) -> bool {
    forall|j: int|
        1 <= j < events.len() ==> events[j].change_block.previous_event_identifier@ == events[j
            - 1].identifier@
}

/// The point-wise reading of [`spec_check_consistency`]: a batch of new
/// events is consistent exactly when its first event names the tail of the
/// existing chain (if both exist) and every later event names its immediate
/// predecessor in the batch.
pub proof fn lemma_consistency_characterization(
    existing: Seq<ProfileChangeEvent>,
    new_events: Seq<ProfileChangeEvent>,
)
    ensures
        spec_check_consistency(existing, new_events) <==> {
            &&& (existing.len() > 0 && new_events.len() > 0
                ==> new_events[0].change_block.previous_event_identifier@
                == existing.last().identifier@)
            &&& spec_linked_inside(new_events)
        },
{
    let prev: Option<ProfileChangeEvent> = if existing.len() == 0 {
        None
    } else {
        Some(existing.last())
    };
    lemma_consistent_after_characterization(prev, new_events);
}

/// Helper for [`lemma_consistency_characterization`], generalized over the
/// predecessor.
proof fn lemma_consistent_after_characterization(
    prev: Option<ProfileChangeEvent>,
    new_events: Seq<ProfileChangeEvent>,
)
    ensures
        spec_consistent_after(
            match prev {
                Some(p) => Some(p.identifier),
                None => None,
            },
            new_events,
        ) <==> {
            &&& (prev matches Some(p) ==> (new_events.len() > 0
                ==> new_events[0].change_block.previous_event_identifier@ == p.identifier@))
            &&& spec_linked_inside(new_events)
        },
    decreases new_events.len(),
{
    if new_events.len() > 0 {
        let first = new_events.first();
        let rest = new_events.drop_first();
        lemma_consistent_after_characterization(Some(first), rest);
        assert(new_events[0] == first);
        assert(forall|j: int| 0 <= j < rest.len() ==> rest[j] == new_events[j + 1]);

        let rest_linked_to_first = rest.len() > 0
            ==> rest[0].change_block.previous_event_identifier@ == first.identifier@;

        assert((spec_linked_inside(rest) && rest_linked_to_first) ==> spec_linked_inside(
            new_events,
        )) by {
            if spec_linked_inside(rest) && rest_linked_to_first {
                assert forall|j: int| 1 <= j < new_events.len() implies new_events[j].change_block
                    .previous_event_identifier@ == new_events[j - 1].identifier@ by {
                    if j == 1 {
                        assert(new_events[1] == rest[0]);
                    } else {
                        assert(new_events[j] == rest[j - 1]);
                        assert(new_events[j - 1] == rest[j - 2]);
                        assert(rest[j - 1].change_block.previous_event_identifier@ == rest[j
                            - 2].identifier@);
                    }
                }
            }
        };
        assert(spec_linked_inside(new_events) ==> (spec_linked_inside(rest)
            && rest_linked_to_first)) by {
            if spec_linked_inside(new_events) {
                assert forall|j: int| 1 <= j < rest.len() implies rest[j].change_block
                    .previous_event_identifier@ == rest[j - 1].identifier@ by {
                    assert(rest[j] == new_events[j + 1]);
                    assert(rest[j - 1] == new_events[j]);
                }
                if rest.len() > 0 {
                    assert(rest[0] == new_events[1]);
                }
            }
        };
    }
}

} // verus!
