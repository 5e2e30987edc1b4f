//! Tests of the identity change-history engine, driven through the
//! deterministic stub vault.

use ockam::change_events::{
    encode_change_block, ChangeBlock, EventIdentifier, KeyChangeData, ProfileChangeEvent,
    ProfileChangeType, Signature, SignatureType,
};
use ockam::change_history::{required_signatures, ProfileChangeHistory};
use ockam::error::EntityError;
use ockam::vault::{ProfileVault, StubVault, UnavailableVault};

const ROOT: &str = "OCKAM_RK";

fn sign(key: &[u8], message: &[u8]) -> Vec<u8> {
    let mut vault = StubVault::new();
    vault.sign(key, message).unwrap()
}

fn identifier_of(block: &ChangeBlock) -> EventIdentifier {
    let mut vault = StubVault::new();
    let encoded = encode_change_block(block);
    EventIdentifier::from_hash(vault.sha256(encoded.as_slice()).unwrap())
}

/// A key-creation event for `label`, introducing `key`, linked after `prev`,
/// self-signed, plus a root signature by `root_key` when one is supplied.
fn create_key_event(
    label: &str,
    key: &[u8],
    prev: EventIdentifier,
    root_key: Option<&[u8]>,
) -> ProfileChangeEvent {
    let change = ProfileChangeType::CreateKey(KeyChangeData::new(label.to_string(), key.to_vec()));
    let block = ChangeBlock::new(prev, change);
    let id = identifier_of(&block);
    let mut signatures = vec![Signature::new(SignatureType::SelfSign, sign(key, id.as_ref()))];
    if let Some(rk) = root_key {
        signatures.push(Signature::new(SignatureType::RootSign, sign(rk, id.as_ref())));
    }
    ProfileChangeEvent::new(id, block, signatures)
}

/// A key-rotation event for `label`, rotating to `key`, with the three
/// required signatures: self, root and previous-key.
fn rotate_key_event(
    label: &str,
    key: &[u8],
    prev: EventIdentifier,
    root_key: &[u8],
    prev_key: &[u8],
) -> ProfileChangeEvent {
    let change = ProfileChangeType::RotateKey(KeyChangeData::new(label.to_string(), key.to_vec()));
    let block = ChangeBlock::new(prev, change);
    let id = identifier_of(&block);
    let signatures = vec![
        Signature::new(SignatureType::SelfSign, sign(key, id.as_ref())),
        Signature::new(SignatureType::RootSign, sign(root_key, id.as_ref())),
        Signature::new(SignatureType::PrevSign, sign(prev_key, id.as_ref())),
    ];
    ProfileChangeEvent::new(id, block, signatures)
}

#[test]
fn hash_binding_mutating_a_byte_denies() {
    let mut vault = StubVault::new();
    let e = create_key_event(ROOT, b"key-zero", EventIdentifier::initial(), None);
    assert_eq!(
        ProfileChangeHistory::verify_event(&[], &e, &mut vault),
        Ok(true)
    );

    // Flip one byte of the public key inside the change block; keep the
    // identifier and the signatures unchanged.
    let mut key = b"key-zero".to_vec();
    key[0] ^= 0x01;
    let mutated_change = ProfileChangeType::CreateKey(KeyChangeData::new(
        ROOT.to_string(),
        key,
    ));
    let mutated_block = ChangeBlock::new(EventIdentifier::initial(), mutated_change);
    let mutated = ProfileChangeEvent::new(
        e.identifier().duplicate(),
        mutated_block,
        e.signatures().clone(),
    );
    assert_eq!(
        ProfileChangeHistory::verify_event(&[], &mutated, &mut vault),
        Ok(false)
    );
}

#[test]
fn genesis_exception() {
    let mut vault = StubVault::new();
    // With no existing events, one self-signature and no root signature is
    // exactly right.
    let e = create_key_event(ROOT, b"key-zero", EventIdentifier::initial(), None);
    assert_eq!(e.signatures().len(), 1);
    assert_eq!(
        ProfileChangeHistory::verify_event(&[], &e, &mut vault),
        Ok(true)
    );

    // The same genesis-shaped event is denied once the history has events.
    let existing = vec![e.clone()];
    let follow = create_key_event("app", b"key-app", e.identifier().duplicate(), None);
    assert_eq!(follow.signatures().len(), 1);
    assert_eq!(
        ProfileChangeHistory::verify_event(&existing, &follow, &mut vault),
        Ok(false)
    );
}

#[test]
fn rotation_requires_continuity() {
    let mut vault = StubVault::new();
    let e0 = create_key_event(ROOT, b"key-zero", EventIdentifier::initial(), None);
    let existing = vec![e0.clone()];

    // A rotation whose previous-key signature was made with a key other
    // than the current root-label key is denied.
    let forged = rotate_key_event(
        ROOT,
        b"key-two",
        e0.identifier().duplicate(),
        b"key-zero",
        b"key-one",
    );
    assert_eq!(
        ProfileChangeHistory::verify_event(&existing, &forged, &mut vault),
        Ok(false)
    );

    // The same rotation with the continuity proof by the current key is
    // accepted.
    let honest = rotate_key_event(
        ROOT,
        b"key-two",
        e0.identifier().duplicate(),
        b"key-zero",
        b"key-zero",
    );
    assert_eq!(
        ProfileChangeHistory::verify_event(&existing, &honest, &mut vault),
        Ok(true)
    );
}

#[test]
fn no_signature_reuse_across_types() {
    let mut vault = StubVault::new();
    let e0 = create_key_event(ROOT, b"key-zero", EventIdentifier::initial(), None);
    let existing = vec![e0.clone()];

    // A non-genesis key creation carrying two individually valid
    // self-signatures and no root signature is denied.
    let change = ProfileChangeType::CreateKey(KeyChangeData::new(
        "app".to_string(),
        b"key-app".to_vec(),
    ));
    let block = ChangeBlock::new(e0.identifier().duplicate(), change);
    let id = identifier_of(&block);
    let self_sig = sign(b"key-app", id.as_ref());
    let e = ProfileChangeEvent::new(
        id,
        block,
        vec![
            Signature::new(SignatureType::SelfSign, self_sig.clone()),
            Signature::new(SignatureType::SelfSign, self_sig),
        ],
    );
    assert_eq!(
        ProfileChangeHistory::verify_event(&existing, &e, &mut vault),
        Ok(false)
    );
}

#[test]
fn sequencing_reorder_fails_consistency() {
    let e1 = create_key_event(ROOT, b"key-zero", EventIdentifier::initial(), None);
    let e2 = create_key_event("app", b"key-app", e1.identifier().duplicate(), Some(b"key-zero"));
    let e3 = rotate_key_event(
        ROOT,
        b"key-one",
        e2.identifier().duplicate(),
        b"key-zero",
        b"key-zero",
    );

    let ordered = vec![e1.clone(), e2.clone(), e3.clone()];
    assert!(ProfileChangeHistory::check_consistency(&[], &ordered));

    let swapped = vec![e1, e3, e2];
    assert!(!ProfileChangeHistory::check_consistency(&[], &swapped));
}

#[test]
fn idempotent_replay() {
    let mut vault = StubVault::new();
    let e1 = create_key_event(ROOT, b"key-zero", EventIdentifier::initial(), None);
    let e2 = create_key_event("app", b"key-app", e1.identifier().duplicate(), Some(b"key-zero"));
    let e3 = rotate_key_event(
        ROOT,
        b"key-one",
        e2.identifier().duplicate(),
        b"key-zero",
        b"key-zero",
    );
    let history = ProfileChangeHistory::new(vec![e1, e2, e3]);
    assert_eq!(history.verify_all_existing_events(&mut vault), Ok(true));
    // Re-verifying an already accepted chain accepts it again.
    assert_eq!(history.verify_all_existing_events(&mut vault), Ok(true));
}

#[test]
fn lifecycle_scenario() {
    let mut vault = StubVault::new();
    let mut history = ProfileChangeHistory::default();
    assert_eq!(
        history.get_last_event_id(),
        Err(EntityError::EmptyHistory)
    );

    // The identity creates root key K0: accepted, history = [E0].
    let e0 = create_key_event(ROOT, b"K0", EventIdentifier::initial(), None);
    assert!(ProfileChangeHistory::check_consistency(history.as_ref(), &[e0.clone()]));
    assert_eq!(
        ProfileChangeHistory::verify_event(history.as_ref(), &e0, &mut vault),
        Ok(true)
    );
    history.push_event(e0.clone());
    assert_eq!(history.as_ref().len(), 1);
    assert_eq!(history.get_first_root_public_key(), Ok(b"K0".to_vec()));

    // The identity rotates to K1 under the root label: accepted.
    let e1 = rotate_key_event(ROOT, b"K1", e0.identifier().duplicate(), b"K0", b"K0");
    assert!(ProfileChangeHistory::check_consistency(history.as_ref(), &[e1.clone()]));
    assert_eq!(
        ProfileChangeHistory::verify_event(history.as_ref(), &e1, &mut vault),
        Ok(true)
    );
    history.push_event(e1.clone());
    assert_eq!(history.as_ref().len(), 2);

    // The current root key is now K1.
    assert_eq!(
        ProfileChangeHistory::get_current_root_public_key(history.as_ref()),
        Ok(b"K1".to_vec())
    );
    assert_eq!(
        history.get_public_key(&ROOT.to_string()),
        Ok(b"K1".to_vec())
    );

    // A forged rotation to K2 whose continuity proof was made with K0 — no
    // longer the active root-label key — is denied.
    let forged = rotate_key_event(ROOT, b"K2", e1.identifier().duplicate(), b"K1", b"K0");
    assert_eq!(
        ProfileChangeHistory::verify_event(history.as_ref(), &forged, &mut vault),
        Ok(false)
    );

    // The whole accepted history still replays.
    assert_eq!(history.verify_all_existing_events(&mut vault), Ok(true));
}

#[test]
fn root_sign_on_genesis_is_a_structural_error() {
    let mut vault = StubVault::new();
    let change = ProfileChangeType::CreateKey(KeyChangeData::new(
        ROOT.to_string(),
        b"key-zero".to_vec(),
    ));
    let block = ChangeBlock::new(EventIdentifier::initial(), change);
    let id = identifier_of(&block);
    let e = ProfileChangeEvent::new(
        id.duplicate(),
        block,
        vec![Signature::new(
            SignatureType::RootSign,
            sign(b"key-zero", id.as_ref()),
        )],
    );
    assert_eq!(
        ProfileChangeHistory::verify_event(&[], &e, &mut vault),
        Err(EntityError::VerifyFailed)
    );
}

#[test]
fn prev_sign_without_label_history_is_a_structural_error() {
    let mut vault = StubVault::new();
    let e0 = create_key_event(ROOT, b"key-zero", EventIdentifier::initial(), None);
    let existing = vec![e0.clone()];

    // A rotation scoped to a label the history has never seen: resolving
    // the previous key fails.
    let rotation = rotate_key_event(
        "never-created",
        b"key-new",
        e0.identifier().duplicate(),
        b"key-zero",
        b"key-zero",
    );
    assert_eq!(
        ProfileChangeHistory::verify_event(&existing, &rotation, &mut vault),
        Err(EntityError::NotFound)
    );
}

#[test]
fn empty_history_verifies_without_a_vault_call() {
    // Re-verifying an empty history is vacuous: it succeeds even through a
    // provider that fails every call, because no call is made.
    let history = ProfileChangeHistory::default();
    let mut unavailable = UnavailableVault::new();
    assert_eq!(history.verify_all_existing_events(&mut unavailable), Ok(true));
}

#[test]
fn extra_self_signs_never_replace_a_root_sign() {
    let mut vault = StubVault::new();
    let e0 = create_key_event(ROOT, b"key-zero", EventIdentifier::initial(), None);
    let existing = vec![e0.clone()];

    // Three individually valid self-signatures and no root signature: denied.
    let change = ProfileChangeType::CreateKey(KeyChangeData::new(
        "app".to_string(),
        b"key-app".to_vec(),
    ));
    let block = ChangeBlock::new(e0.identifier().duplicate(), change);
    let id = identifier_of(&block);
    let self_sig = sign(b"key-app", id.as_ref());
    let e = ProfileChangeEvent::new(
        id,
        block,
        vec![
            Signature::new(SignatureType::SelfSign, self_sig.clone()),
            Signature::new(SignatureType::SelfSign, self_sig.clone()),
            Signature::new(SignatureType::SelfSign, self_sig),
        ],
    );
    assert_eq!(
        ProfileChangeHistory::verify_event(&existing, &e, &mut vault),
        Ok(false)
    );
}

#[test]
fn rotation_without_continuity_denied_in_any_signature_order() {
    let mut vault = StubVault::new();
    let e0 = create_key_event(ROOT, b"key-zero", EventIdentifier::initial(), None);
    let existing = vec![e0.clone()];

    // A forged rotation whose continuity proof is wrong is denied however
    // its three signatures are ordered.
    let change = ProfileChangeType::RotateKey(KeyChangeData::new(
        ROOT.to_string(),
        b"key-two".to_vec(),
    ));
    let block = ChangeBlock::new(e0.identifier().duplicate(), change);
    let id = identifier_of(&block);
    let self_sig = Signature::new(SignatureType::SelfSign, sign(b"key-two", id.as_ref()));
    let root_sig = Signature::new(SignatureType::RootSign, sign(b"key-zero", id.as_ref()));
    let bad_prev = Signature::new(SignatureType::PrevSign, sign(b"key-one", id.as_ref()));

    let orders = vec![
        vec![self_sig.clone(), root_sig.clone(), bad_prev.clone()],
        vec![bad_prev.clone(), self_sig.clone(), root_sig.clone()],
        vec![root_sig.clone(), bad_prev.clone(), self_sig.clone()],
    ];
    for signatures in orders {
        let e = ProfileChangeEvent::new(id.duplicate(), block.clone(), signatures);
        assert_eq!(
            ProfileChangeHistory::verify_event(&existing, &e, &mut vault),
            Ok(false)
        );
    }
}

#[test]
fn unavailable_vault_is_a_structural_error() {
    let mut stub = StubVault::new();
    let e = create_key_event(ROOT, b"key-zero", EventIdentifier::initial(), None);
    assert_eq!(
        ProfileChangeHistory::verify_event(&[], &e, &mut stub),
        Ok(true)
    );
    let mut unavailable = UnavailableVault::new();
    assert_eq!(
        ProfileChangeHistory::verify_event(&[], &e, &mut unavailable),
        Err(EntityError::VaultFailed)
    );
}

#[test]
fn signature_policy_table() {
    let create = ProfileChangeType::CreateKey(KeyChangeData::new(
        ROOT.to_string(),
        b"k".to_vec(),
    ));
    let rotate = ProfileChangeType::RotateKey(KeyChangeData::new(
        ROOT.to_string(),
        b"k".to_vec(),
    ));

    let p = required_signatures(&create, true);
    assert_eq!((p.self_sign, p.root_sign, p.prev_sign), (1, 0, 0));
    let p = required_signatures(&create, false);
    assert_eq!((p.self_sign, p.root_sign, p.prev_sign), (1, 1, 0));
    let p = required_signatures(&rotate, false);
    assert_eq!((p.self_sign, p.root_sign, p.prev_sign), (1, 1, 1));
}

#[test]
fn history_lookups() {
    let e0 = create_key_event(ROOT, b"K0", EventIdentifier::initial(), None);
    let e1 = create_key_event("app", b"A0", e0.identifier().duplicate(), Some(b"K0"));
    let history = ProfileChangeHistory::new(vec![e0.clone(), e1.clone()]);

    let found = ProfileChangeHistory::find_last_key_event(history.as_ref(), &"app".to_string())
        .unwrap();
    assert_eq!(found.identifier(), e1.identifier());

    assert_eq!(
        ProfileChangeHistory::find_last_key_event(history.as_ref(), &"missing".to_string()),
        Err(EntityError::NotFound)
    );

    assert_eq!(
        ProfileChangeHistory::get_public_key_static(history.as_ref(), &"app".to_string()),
        Ok(b"A0".to_vec())
    );
    assert_eq!(
        ProfileChangeHistory::find_last_key_event_public_key(history.as_ref(), &ROOT.to_string()),
        Ok(b"K0".to_vec())
    );

    assert_eq!(history.first_event().unwrap().identifier(), e0.identifier());
    assert_eq!(
        history.get_last_event_id().unwrap(),
        e1.identifier().duplicate()
    );
}

#[test]
fn canonical_encoding_is_deterministic_and_sensitive() {
    let block_a = ChangeBlock::new(
        EventIdentifier::initial(),
        ProfileChangeType::CreateKey(KeyChangeData::new(ROOT.to_string(), b"K0".to_vec())),
    );
    let block_b = ChangeBlock::new(
        EventIdentifier::initial(),
        ProfileChangeType::CreateKey(KeyChangeData::new(ROOT.to_string(), b"K0".to_vec())),
    );
    assert_eq!(encode_change_block(&block_a), encode_change_block(&block_b));

    let block_c = ChangeBlock::new(
        EventIdentifier::initial(),
        ProfileChangeType::RotateKey(KeyChangeData::new(ROOT.to_string(), b"K0".to_vec())),
    );
    assert_ne!(encode_change_block(&block_a), encode_change_block(&block_c));

    let block_d = ChangeBlock::new(
        EventIdentifier::initial(),
        ProfileChangeType::CreateKey(KeyChangeData::new(ROOT.to_string(), b"K1".to_vec())),
    );
    assert_ne!(encode_change_block(&block_a), encode_change_block(&block_d));
}

#[test]
fn stub_vault_signatures() {
    let mut vault = StubVault::new();
    let sig = vault.sign(b"secret", b"message").unwrap();
    assert_eq!(vault.verify(&sig, b"secret", b"message"), Ok(true));
    assert_eq!(vault.verify(&sig, b"other", b"message"), Ok(false));
    assert_eq!(vault.verify(&sig, b"secret", b"other message"), Ok(false));

    let d1 = vault.sha256(b"some bytes").unwrap();
    let d2 = vault.sha256(b"some bytes").unwrap();
    assert_eq!(d1, d2);
    assert_eq!(d1.len(), 32);
    let d3 = vault.sha256(b"some bytez").unwrap();
    assert_ne!(d1, d3);
}
