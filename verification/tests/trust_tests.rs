use elowen_api::crypto::{decode_base64, encode_base64, PrivateKey, PublicKey};
use elowen_api::device_models::RegistrationTrustIntent;
use elowen_api::error::{AppError, ErrorStatus};
use elowen_api::registration::{
    challenge_from, challenge_payload_at, edge_payload_at, edge_registration_payload,
    edge_registration_payload_with_edge_key, find_challenge_signer, judge_registration,
    needs_verification, new_registration_challenge, orchestrator_challenge_payload,
    verify_registration_trust, DeviceRegistrationTrustProof, KeyVerdict, TrustRuntime, Verdicts,
};
use elowen_api::signers::{
    active_signer_index, configured_orchestrator_signers, decode_base64_bytes, decode_signature,
    decode_signing_key, decode_verifying_key, exported_orchestrator_signers,
    load_orchestrator_signers, orchestrator_key_id, set_orchestrator_signer_status, status_for,
    sync_configured_signers, ConfiguredSigner, SignerState, SignerUpdate,
};
use elowen_api::time::Timestamp;

fn instant(secs: i64) -> Timestamp {
    Timestamp::from_parts(secs, 0).expect("the calendar holds the instant")
}

fn encoded_key(byte: u8) -> String {
    encode_base64(&[byte; 32])
}

fn private_key(byte: u8) -> PrivateKey {
    PrivateKey::from_bytes(&[byte; 32]).expect("32 bytes")
}

fn public_text(byte: u8) -> String {
    private_key(byte).public().encoded()
}

fn signers(bytes: &[u8]) -> Vec<ConfiguredSigner> {
    let keys: Vec<String> = bytes.iter().map(|byte| encoded_key(*byte)).collect();
    configured_orchestrator_signers(&keys).expect("valid keys")
}

fn state(byte: u8, index: usize, status: &str) -> SignerState {
    let public_key = public_text(byte);
    SignerState {
        key_id: orchestrator_key_id(&public_key, index),
        public_key,
        status: status.to_string(),
    }
}

fn plain(updates: Vec<SignerUpdate>) -> Vec<(String, String, Option<String>)> {
    updates
        .into_iter()
        .map(|update| (update.public_key, update.status, update.reason))
        .collect()
}

fn runtime(keys: &[u8], required: bool, revoked: &[&str]) -> TrustRuntime {
    TrustRuntime {
        orchestrator_signing_keys: keys.iter().map(|byte| encoded_key(*byte)).collect(),
        require_trusted_edge_registration: required,
        revoked_edge_public_keys: revoked.iter().map(|key| key.to_string()).collect(),
    }
}

/// A device with the key made of `edge` answers a challenge of the signer made
/// of `orchestrator`.
fn honest_proof(orchestrator: u8, edge: u8, issued_at: Timestamp) -> DeviceRegistrationTrustProof {
    let list = signers(&[orchestrator]);
    let states = [state(orchestrator, 0, "active")];
    let challenge = challenge_from(&list, &states, "challenge-1".to_string(), &[7, 8], issued_at)
        .expect("an active signer");
    let mut evidence = DeviceRegistrationTrustProof {
        orchestrator_challenge_id: challenge.challenge_id,
        orchestrator_challenge: challenge.challenge,
        orchestrator_challenge_issued_at: challenge.issued_at,
        orchestrator_key_id: challenge.orchestrator_key_id,
        orchestrator_public_key: challenge.orchestrator_public_key,
        orchestrator_signature: challenge.signature,
        edge_public_key: public_text(edge),
        edge_signature: String::new(),
        previous_edge_public_key: None,
        previous_edge_signature: None,
        registration_intent: RegistrationTrustIntent::Enroll,
    };
    sign(&mut evidence, edge);
    evidence
}

fn sign(evidence: &mut DeviceRegistrationTrustProof, edge: u8) {
    let message = edge_registration_payload("edge-1", "Laptop", true, evidence);
    evidence.edge_signature = private_key(edge).sign(&message);
}

fn outcome(
    runtime: &TrustRuntime,
    states: &[SignerState],
    now: Timestamp,
    evidence: &DeviceRegistrationTrustProof,
) -> Result<(), AppError> {
    verify_registration_trust(runtime, states, "edge-1", "Laptop", true, now, Some(evidence))
        .map(|registration| assert!(registration.is_some()))
}

fn assert_refused(result: Result<(), AppError>, status: ErrorStatus, message: &str, code: Option<&str>) {
    let error = result.expect_err(message);
    assert_eq!(error.status, status);
    assert_eq!(error.error, message);
    assert_eq!(error.code.as_deref(), code);
}

#[test]
fn base64_comes_back() {
    assert_eq!(encode_base64(&[]), "");
    assert_eq!(encode_base64(&[0xfb]), "-w");
    assert_eq!(encode_base64(&[0xfb, 0xff]), "-_8");
    assert_eq!(encode_base64(b"Man"), "TWFu");
    for length in 0..70usize {
        let bytes: Vec<u8> = (0..length).map(|i| (i * 37 + 11) as u8).collect();
        let text = encode_base64(&bytes);
        assert_eq!(text.trim(), text);
        assert_eq!(decode_base64(&text), Some(bytes));
    }
    for text in ["A", "TWFu=", "TWF+", "TWF/", "-x", " TWFu", "TW\n"] {
        assert_eq!(decode_base64(text), None, "{text:?}");
    }
}

#[test]
fn keys_sign_and_verify() {
    let key = private_key(3);
    let other = private_key(4);
    let signature = decode_base64(&key.sign("message")).expect("encoded signature");
    assert_eq!(signature.len(), 64);
    assert!(key.public().verify("message", &signature));
    assert!(!key.public().verify("massage", &signature));
    assert!(!other.public().verify("message", &signature));
    assert_eq!(key.sign("message"), key.sign("message"));
    assert_ne!(key.public().encoded(), other.public().encoded());
    let bytes = decode_base64(&key.public().encoded()).expect("encoded key");
    assert!(PublicKey::from_bytes(&bytes).is_some());
    let mut not_a_point = [0u8; 32];
    not_a_point[0] = 2;
    assert!(PublicKey::from_bytes(&not_a_point).is_none());
    assert!(PublicKey::from_bytes(&[0; 31]).is_none());
    assert!(PrivateKey::from_bytes(&[0; 33]).is_none());
}

#[test]
fn known_key_has_its_known_public_key() {
    let private = [
        0x9d, 0x61, 0xb1, 0x9d, 0xef, 0xfd, 0x5a, 0x60, 0xba, 0x84, 0x4a, 0xf4, 0x92, 0xec, 0x2c,
        0xc4, 0x44, 0x49, 0xc5, 0x69, 0x7b, 0x32, 0x69, 0x19, 0x70, 0x3b, 0xac, 0x03, 0x1c, 0xae,
        0x7f, 0x60,
    ];
    let public = [
        0xd7, 0x5a, 0x98, 0x01, 0x82, 0xb1, 0x0a, 0xb7, 0xd5, 0x4b, 0xfe, 0xd3, 0xc9, 0x64, 0x07,
        0x3a, 0x0e, 0xe1, 0x72, 0xf3, 0xda, 0xa6, 0x23, 0x25, 0xaf, 0x02, 0x1a, 0x68, 0xf7, 0x07,
        0x51, 0x1a,
    ];
    let key = PrivateKey::from_bytes(&private).expect("32 bytes");
    assert_eq!(decode_base64(&key.public().encoded()), Some(public.to_vec()));
}

#[test]
fn encoded_keys_and_signatures_are_checked() {
    assert_eq!(decode_base64_bytes(" TWFu ", "text").ok(), Some(b"Man".to_vec()));
    let error = decode_base64_bytes("*", "text").expect_err("no base64");
    assert_eq!(error.error, "text is not valid base64url");
    let error = decode_signing_key("TWFu", "the key").err().expect("too short");
    assert_eq!(error.error, "the key must decode to a 32-byte Ed25519 private key");
    assert!(decode_signing_key(&encoded_key(1), "the key").is_ok());
    let error = decode_verifying_key("TWFu", "the key").err().expect("too short");
    assert_eq!(error.error, "the key must decode to a 32-byte Ed25519 public key");
    let mut not_a_point = [0u8; 32];
    not_a_point[0] = 2;
    let error = decode_verifying_key(&encode_base64(&not_a_point), "the key").err().expect("no point");
    assert_eq!(error.error, "the key is not a valid Ed25519 key");
    assert_eq!(error.status, ErrorStatus::BadRequest);
    assert!(decode_verifying_key(&public_text(1), "the key").is_ok());
    let error = decode_signature("TWFu", "the signature").expect_err("too short");
    assert_eq!(error.error, "the signature must decode to a 64-byte Ed25519 signature");
    assert_eq!(decode_signature(&encode_base64(&[5; 64]), "the signature").ok(), Some(vec![5; 64]));
}

#[test]
fn signers_are_read_from_the_configuration() {
    assert_eq!(orchestrator_key_id("abcdefghijklmnop", 0), "orchestrator-1-abcdefghijkl");
    assert_eq!(orchestrator_key_id("abc", 11), "orchestrator-12-abc");
    let list = signers(&[1, 2]);
    assert_eq!(list.len(), 2);
    assert_eq!(list[0].public_key, public_text(1));
    assert_eq!(list[1].key_id, orchestrator_key_id(&public_text(2), 1));
    let keys = vec![encoded_key(1), "bad key".to_string(), "worse".to_string()];
    let error = configured_orchestrator_signers(&keys).err().expect("a bad key");
    assert_eq!(error.error, "orchestrator signing key is not valid base64url");
    let error = load_orchestrator_signers(&[]).err().expect("no key");
    assert_eq!(error.status, ErrorStatus::Conflict);
    assert_eq!(error.error, "orchestrator signing key is not configured");
    assert_eq!(load_orchestrator_signers(&keys[..1]).expect("one key").len(), 1);
}

#[test]
fn stored_states_decide_on_the_signers() {
    let list = signers(&[1, 2, 3]);
    let states = [state(2, 1, "active"), state(3, 2, "retired"), state(2, 1, "retired")];
    assert_eq!(status_for(&states, &public_text(1)), "staged");
    assert_eq!(status_for(&states, &public_text(2)), "active");
    assert_eq!(active_signer_index(&list, &states).ok(), Some(1));
    let error = active_signer_index(&list, &[]).expect_err("none is active");
    assert_eq!(error.error, "orchestrator signing key is not configured");
    let exported: Vec<(String, bool)> = exported_orchestrator_signers(&list, &states)
        .into_iter()
        .map(|signer| (signer.public_key, signer.active))
        .collect();
    assert_eq!(exported, vec![(public_text(1), false), (public_text(2), true)]);
}

#[test]
fn configured_keys_are_stored_once() {
    let list = signers(&[1, 2]);
    let rows = sync_configured_signers(&list, &[]);
    assert_eq!(rows[1].key_id, list[1].key_id);
    assert_eq!(
        plain(sync_configured_signers(&list, &[])),
        vec![
            (public_text(1), "active".to_string(), None),
            (public_text(2), "staged".to_string(), None),
        ]
    );
    assert_eq!(
        plain(sync_configured_signers(&list, &[state(1, 0, "retired")])),
        vec![(public_text(2), "staged".to_string(), None)]
    );
    assert_eq!(
        plain(sync_configured_signers(&list, &[state(9, 0, "active")])),
        vec![
            (public_text(1), "staged".to_string(), None),
            (public_text(2), "staged".to_string(), None),
        ]
    );
}

#[test]
fn activation_leaves_one_signer_active() {
    let list = signers(&[1, 2, 3]);
    let states = [state(1, 0, "active"), state(2, 1, "staged"), state(3, 2, "retired")];
    let id = list[1].key_id.clone();
    let updates = set_orchestrator_signer_status(&list, &states, &id, "active", Some("swap"))
        .expect("a configured key");
    assert_eq!(
        plain(updates),
        vec![
            (
                public_text(1),
                "staged".to_string(),
                Some("deactivated by signer activation".to_string())
            ),
            (public_text(2), "active".to_string(), Some("swap".to_string())),
        ]
    );
    let updates = set_orchestrator_signer_status(&list, &states, &id, "retired", None)
        .expect("a configured key");
    assert_eq!(plain(updates), vec![(public_text(2), "retired".to_string(), None)]);
    let error = set_orchestrator_signer_status(&list, &states, "other", "active", None)
        .expect_err("no such key");
    assert_eq!(error.status, ErrorStatus::NotFound);
    assert_eq!(error.error, "orchestrator signer not found");
    assert_eq!(error.code.as_deref(), Some("orchestrator_signer_not_configured"));
}

#[test]
fn signed_messages_have_their_form() {
    assert_eq!(
        orchestrator_challenge_payload("id", "challenge", instant(0)),
        "elowen-orchestrator-registration-challenge\nid\nchallenge\n1970-01-01T00:00:00+00:00"
    );
    let evidence = honest_proof(1, 2, instant(0));
    assert_eq!(
        edge_registration_payload_with_edge_key("edge-1", "Laptop", false, &evidence, "old-key"),
        format!(
            "elowen-edge-registration\nedge-1\nLaptop\nfalse\nchallenge-1\nBwg\n1970-01-01T00:00:00+00:00\n{}\n{}\nold-key",
            evidence.orchestrator_key_id, evidence.orchestrator_public_key
        )
    );
    assert_eq!(
        edge_registration_payload("e", "n", true, &evidence),
        edge_registration_payload_with_edge_key("e", "n", true, &evidence, &public_text(2))
    );
}

#[test]
fn signed_messages_hold_the_text_of_the_instant() {
    assert_eq!(
        challenge_payload_at("id", "challenge", "noon"),
        "elowen-orchestrator-registration-challenge\nid\nchallenge\nnoon"
    );
    let evidence = honest_proof(1, 2, instant(0));
    assert_eq!(
        edge_payload_at("e", "n", true, &evidence, "key", "noon"),
        format!(
            "elowen-edge-registration\ne\nn\ntrue\nchallenge-1\nBwg\nnoon\n{}\n{}\nkey",
            evidence.orchestrator_key_id, evidence.orchestrator_public_key
        )
    );
}

#[test]
fn challenges_are_new_and_signed() {
    let list = signers(&[1, 2]);
    let states = [state(2, 1, "active")];
    let first = new_registration_challenge(&list, &states, instant(5)).expect("an active signer");
    let second = new_registration_challenge(&list, &states, instant(5)).expect("an active signer");
    assert_ne!(first.challenge_id, second.challenge_id);
    assert_ne!(first.challenge, second.challenge);
    assert_eq!(decode_base64(&first.challenge).map(|bytes| bytes.len()), Some(32));
    assert_eq!(first.orchestrator_public_key, public_text(2));
    assert_eq!(first.orchestrator_key_id, list[1].key_id);
    assert_eq!(first.issued_at, instant(5));
    assert_eq!(first.trusted_signers.len(), 2);
    let message = orchestrator_challenge_payload(&first.challenge_id, &first.challenge, instant(5));
    let signature = decode_base64(&first.signature).expect("encoded signature");
    assert!(private_key(2).public().verify(&message, &signature));
    let error = new_registration_challenge(&list, &[], instant(5)).expect_err("none is active");
    assert_eq!(error.error, "orchestrator signing key is not configured");
}

#[test]
fn honest_registration_is_trusted() {
    let evidence = honest_proof(1, 2, instant(1_000));
    let runtime = runtime(&[1], true, &[]);
    let registration = verify_registration_trust(
        &runtime,
        &[],
        "edge-1",
        "Laptop",
        true,
        instant(1_600),
        Some(&evidence),
    )
    .expect("a valid proof")
    .expect("a proof was given");
    assert_eq!(registration.edge_public_key, public_text(2));
    assert_eq!(registration.registered_at, instant(1_600));
    assert_eq!(registration.orchestrator_public_key, public_text(1));
    assert_eq!(registration.orchestrator_key_id, evidence.orchestrator_key_id);
    assert_eq!(registration.registration_intent, RegistrationTrustIntent::Enroll);
    assert_eq!(registration.previous_edge_public_key, None);
}

#[test]
fn registrations_without_proof() {
    let open = runtime(&[1], false, &[]);
    let answer = verify_registration_trust(&open, &[], "e", "n", true, instant(0), None);
    assert!(answer.expect("no proof is needed").is_none());
    assert_eq!(needs_verification(&open, None).ok(), Some(false));
    let strict = runtime(&[1], true, &[]);
    let error = verify_registration_trust(&strict, &[], "e", "n", true, instant(0), None)
        .err()
        .expect("a proof is needed");
    assert_eq!(error.status, ErrorStatus::Unauthorized);
    assert_eq!(error.error, "trusted edge registration proof is required");
    assert_eq!(error.code.as_deref(), Some("trusted_registration_required"));
}

#[test]
fn proofs_are_refused_for_their_keys() {
    let evidence = honest_proof(1, 2, instant(1_000));
    let key = public_text(2);
    assert_refused(
        outcome(&runtime(&[1], true, &[&key]), &[], instant(1_000), &evidence),
        ErrorStatus::Unauthorized,
        "edge public key has been revoked",
        Some("edge_key_revoked"),
    );
    assert_refused(
        outcome(&runtime(&[], true, &[]), &[], instant(1_000), &evidence),
        ErrorStatus::Conflict,
        "orchestrator signing key is not configured",
        None,
    );
    assert_refused(
        outcome(&runtime(&[5], true, &[]), &[], instant(1_000), &evidence),
        ErrorStatus::Unauthorized,
        "orchestrator signer is not trusted for registration",
        Some("orchestrator_signer_untrusted"),
    );
    assert_refused(
        outcome(&runtime(&[5, 1], true, &[]), &[], instant(1_000), &evidence),
        ErrorStatus::Unauthorized,
        "orchestrator signer identity did not match configured trust anchors",
        Some("orchestrator_signer_mismatch"),
    );
    assert_refused(
        outcome(&runtime(&[1], true, &[]), &[state(1, 0, "retired")], instant(1_000), &evidence),
        ErrorStatus::Unauthorized,
        "orchestrator signer is retired",
        Some("orchestrator_signer_retired"),
    );
}

#[test]
fn proofs_are_refused_for_their_challenge() {
    let trust = runtime(&[1], true, &[]);
    let evidence = honest_proof(1, 2, instant(1_000));
    for now in [939, 1_601] {
        assert_refused(
            outcome(&trust, &[], instant(now), &evidence),
            ErrorStatus::Unauthorized,
            "orchestrator registration challenge is outside the allowed time window",
            Some("orchestrator_challenge_expired"),
        );
    }
    for now in [940, 1_600] {
        assert!(outcome(&trust, &[], instant(now), &evidence).is_ok());
    }
    let mut forged = honest_proof(1, 2, instant(1_000));
    forged.orchestrator_challenge = "AAAA".to_string();
    sign(&mut forged, 2);
    assert_refused(
        outcome(&trust, &[], instant(1_000), &forged),
        ErrorStatus::Unauthorized,
        "orchestrator registration challenge signature is invalid",
        Some("orchestrator_challenge_signature_invalid"),
    );
    forged.orchestrator_signature = "AAAA".to_string();
    assert_refused(
        outcome(&trust, &[], instant(1_000), &forged),
        ErrorStatus::BadRequest,
        "orchestrator challenge signature must decode to a 64-byte Ed25519 signature",
        None,
    );
}

#[test]
fn proofs_are_refused_for_their_signatures() {
    let trust = runtime(&[1], true, &[]);
    let mut evidence = honest_proof(1, 2, instant(1_000));
    sign(&mut evidence, 3);
    assert_refused(
        outcome(&trust, &[], instant(1_000), &evidence),
        ErrorStatus::Unauthorized,
        "edge registration signature is invalid",
        Some("edge_registration_signature_invalid"),
    );
    let other_name = verify_registration_trust(
        &trust,
        &[],
        "edge-1",
        "Other",
        true,
        instant(1_000),
        Some(&honest_proof(1, 2, instant(1_000))),
    );
    assert_eq!(
        other_name.err().and_then(|error| error.code).as_deref(),
        Some("edge_registration_signature_invalid")
    );
    evidence.edge_signature = "*".to_string();
    assert_refused(
        outcome(&trust, &[], instant(1_000), &evidence),
        ErrorStatus::BadRequest,
        "edge registration signature is not valid base64url",
        None,
    );
    evidence.edge_public_key = "TWFu".to_string();
    assert_refused(
        outcome(&trust, &[], instant(1_000), &evidence),
        ErrorStatus::BadRequest,
        "edge public key must decode to a 32-byte Ed25519 public key",
        None,
    );
}

#[test]
fn rotations_are_signed_with_both_keys() {
    let trust = runtime(&[1], true, &[]);
    let mut evidence = honest_proof(1, 2, instant(1_000));
    evidence.registration_intent = RegistrationTrustIntent::Rotate;
    evidence.previous_edge_public_key = Some(public_text(4));
    assert_refused(
        outcome(&trust, &[], instant(1_000), &evidence),
        ErrorStatus::BadRequest,
        "previous edge public key and signature must be supplied together",
        Some("rotation_previous_key_incomplete"),
    );
    let message =
        edge_registration_payload_with_edge_key("edge-1", "Laptop", true, &evidence, &public_text(4));
    evidence.previous_edge_signature = Some(private_key(4).sign(&message));
    let registration = verify_registration_trust(
        &trust,
        &[],
        "edge-1",
        "Laptop",
        true,
        instant(1_000),
        Some(&evidence),
    )
    .expect("a valid proof")
    .expect("a proof was given");
    assert_eq!(registration.previous_edge_public_key, Some(public_text(4)));
    assert_eq!(registration.registration_intent, RegistrationTrustIntent::Rotate);
    evidence.previous_edge_signature = Some(private_key(5).sign(&message));
    assert_refused(
        outcome(&trust, &[], instant(1_000), &evidence),
        ErrorStatus::Unauthorized,
        "previous edge registration signature is invalid",
        Some("rotation_previous_signature_invalid"),
    );
}

fn judged(evidence: &DeviceRegistrationTrustProof, said: Verdicts) -> Result<(), AppError> {
    let list = signers(&[1]);
    judge_registration(&list[0], instant(1_000), evidence, &said).map(|registration| {
        assert_eq!(registration.edge_public_key, evidence.edge_public_key);
        assert_eq!(registration.orchestrator_key_id, list[0].key_id);
    })
}

fn said(challenge: bool, present: KeyVerdict, previous: KeyVerdict) -> Verdicts {
    Verdicts { challenge, present, previous }
}

#[test]
fn verdicts_decide_on_a_proof() {
    let mut evidence = honest_proof(1, 2, instant(1_000));
    assert!(judged(&evidence, said(true, KeyVerdict::Accepted, KeyVerdict::Refused)).is_ok());
    assert_refused(
        judged(&evidence, said(false, KeyVerdict::Accepted, KeyVerdict::Accepted)),
        ErrorStatus::Unauthorized,
        "orchestrator registration challenge signature is invalid",
        Some("orchestrator_challenge_signature_invalid"),
    );
    assert_refused(
        judged(&evidence, said(true, KeyVerdict::NoKey, KeyVerdict::Accepted)),
        ErrorStatus::BadRequest,
        "edge public key is not a valid Ed25519 key",
        None,
    );
    assert_refused(
        judged(&evidence, said(true, KeyVerdict::Refused, KeyVerdict::Accepted)),
        ErrorStatus::Unauthorized,
        "edge registration signature is invalid",
        Some("edge_registration_signature_invalid"),
    );
    evidence.previous_edge_public_key = Some(public_text(4));
    evidence.previous_edge_signature = Some(evidence.edge_signature.clone());
    assert!(judged(&evidence, said(true, KeyVerdict::Accepted, KeyVerdict::Accepted)).is_ok());
    assert_refused(
        judged(&evidence, said(true, KeyVerdict::Accepted, KeyVerdict::NoKey)),
        ErrorStatus::BadRequest,
        "previous edge public key is not a valid Ed25519 key",
        None,
    );
    assert_refused(
        judged(&evidence, said(true, KeyVerdict::Accepted, KeyVerdict::Refused)),
        ErrorStatus::Unauthorized,
        "previous edge registration signature is invalid",
        Some("rotation_previous_signature_invalid"),
    );
}

#[test]
fn signers_of_challenges_are_found() {
    let list = signers(&[3, 1]);
    let mut evidence = honest_proof(1, 2, instant(1_000));
    evidence.orchestrator_key_id = list[1].key_id.clone();
    assert_eq!(find_challenge_signer(&list, &[], &evidence).ok(), Some(1));
    let retired = [state(1, 1, "retired")];
    assert_eq!(
        find_challenge_signer(&list, &retired, &evidence).err().and_then(|error| error.code),
        Some("orchestrator_signer_retired".to_string())
    );
    evidence.orchestrator_key_id = list[0].key_id.clone();
    assert_eq!(
        find_challenge_signer(&list, &[], &evidence).err().and_then(|error| error.code),
        Some("orchestrator_signer_mismatch".to_string())
    );
    assert_eq!(
        find_challenge_signer(&[], &[], &evidence).err().and_then(|error| error.code),
        Some("orchestrator_signer_untrusted".to_string())
    );
}

#[test]
fn issued_challenges_are_honoured_while_they_last() {
    let list = signers(&[1, 2]);
    assert_ne!(list[0].key_id, list[1].key_id);
    let issued = [state(1, 0, "staged"), state(2, 1, "active")];
    let challenge =
        new_registration_challenge(&list, &issued, instant(1_000)).expect("an active signer");
    let mut evidence = honest_proof(1, 3, instant(0));
    evidence.orchestrator_challenge_id = challenge.challenge_id;
    evidence.orchestrator_challenge = challenge.challenge;
    evidence.orchestrator_challenge_issued_at = challenge.issued_at;
    evidence.orchestrator_key_id = challenge.orchestrator_key_id;
    evidence.orchestrator_public_key = challenge.orchestrator_public_key;
    evidence.orchestrator_signature = challenge.signature;
    sign(&mut evidence, 3);
    let trust = runtime(&[1, 2], true, &[]);
    let rotated = [state(1, 0, "active"), state(2, 1, "staged")];
    for states in [&issued, &rotated] {
        assert!(outcome(&trust, states, instant(1_600), &evidence).is_ok());
        assert_refused(
            outcome(&trust, states, instant(1_601), &evidence),
            ErrorStatus::Unauthorized,
            "orchestrator registration challenge is outside the allowed time window",
            Some("orchestrator_challenge_expired"),
        );
    }
}
