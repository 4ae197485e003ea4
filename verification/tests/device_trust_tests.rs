use elowen_api::device_models::{
    trust_status_label, AvailabilitySnapshot, DeviceMetadata, DeviceRecord, DeviceRow,
    DeviceTrustMetadata, DeviceTrustStatus, RegistrationTrustIntent,
};
use elowen_api::device_trust::{
    accept_probe_response, device_probe, enrollment_kind, finalize_trust_metadata,
    next_device_trust_state, probe_subject, probed_metadata, registered_metadata,
    registration_identity, revoked_metadata, RegisterDeviceRequest, RevokeDeviceTrustRequest,
    TrustedRegistration,
};
use elowen_api::dispatch::ensure_device_trusted_for_dispatch;
use elowen_api::error::ErrorStatus;
use elowen_api::models::DeviceRepository;
use elowen_api::time::{now, Timestamp};

fn trusted_registration(
    edge_public_key: &str,
    registration_intent: RegistrationTrustIntent,
) -> TrustedRegistration {
    TrustedRegistration {
        edge_public_key: edge_public_key.to_string(),
        registered_at: now(),
        orchestrator_key_id: "orchestrator-1-testkey".to_string(),
        orchestrator_public_key: "test-public-key".to_string(),
        registration_intent,
        previous_edge_public_key: None,
    }
}

#[test]
fn trusted_registration_without_existing_key_becomes_trusted() {
    let next = next_device_trust_state(
        DeviceTrustMetadata::default(),
        Some(&trusted_registration(
            "edge-key-a",
            RegistrationTrustIntent::Enroll,
        )),
    )
    .expect("trusted registration should succeed");

    assert_eq!(next.status, DeviceTrustStatus::Trusted);
    assert_eq!(next.current_edge_public_key.as_deref(), Some("edge-key-a"));
    assert!(next.last_trusted_registration_at.is_some());
}

#[test]
fn different_key_requires_explicit_rotation_or_reenrollment() {
    let existing = DeviceTrustMetadata {
        status: DeviceTrustStatus::Trusted,
        current_edge_public_key: Some("edge-key-a".to_string()),
        ..Default::default()
    };

    let error = next_device_trust_state(
        existing,
        Some(&trusted_registration(
            "edge-key-b",
            RegistrationTrustIntent::Enroll,
        )),
    )
    .expect_err("ambiguous key replacement should fail");

    assert_eq!(error.status, ErrorStatus::Conflict);
}

#[test]
fn explicit_rotation_marks_device_rotated() {
    let existing = DeviceTrustMetadata {
        status: DeviceTrustStatus::Trusted,
        current_edge_public_key: Some("edge-key-a".to_string()),
        ..Default::default()
    };

    let next = next_device_trust_state(
        existing,
        Some(&trusted_registration(
            "edge-key-b",
            RegistrationTrustIntent::Rotate,
        )),
    )
    .expect("explicit rotation should succeed");

    assert_eq!(next.status, DeviceTrustStatus::Rotated);
    assert_eq!(next.current_edge_public_key.as_deref(), Some("edge-key-b"));
    assert_eq!(
        next.previous_edge_public_keys,
        vec!["edge-key-a".to_string()]
    );
    assert!(next.rotated_at.is_some());
}

#[test]
fn unsigned_reregistration_from_trusted_device_needs_attention() {
    let existing = DeviceTrustMetadata {
        status: DeviceTrustStatus::Trusted,
        current_edge_public_key: Some("edge-key-a".to_string()),
        ..Default::default()
    };

    let next =
        next_device_trust_state(existing, None).expect("unsigned refresh should succeed");

    assert_eq!(next.status, DeviceTrustStatus::AttentionRequired);
    assert!(next.status_reason.is_some());
}

fn instant(secs: i64) -> Timestamp {
    Timestamp::from_parts(secs, 0).expect("the calendar holds the instant")
}

fn strings(values: &[&str]) -> Vec<String> {
    values.iter().map(|value| value.to_string()).collect()
}

fn metadata(trust: DeviceTrustMetadata) -> DeviceMetadata {
    DeviceMetadata {
        allowed_repos: Vec::new(),
        allowed_repo_roots: Vec::new(),
        hidden_repos: Vec::new(),
        excluded_repo_paths: Vec::new(),
        discovered_repos: Vec::new(),
        repositories: Vec::new(),
        capabilities: Vec::new(),
        registered_at: None,
        last_seen_at: None,
        last_probe: None,
        trust,
        edge_public_key: None,
        last_trusted_registration_at: None,
    }
}

fn device(metadata: DeviceMetadata) -> DeviceRecord {
    DeviceRecord::from_row(DeviceRow {
        id: "edge-1".to_string(),
        name: "Laptop".to_string(),
        primary_flag: true,
        metadata,
        created_at: instant(100),
        updated_at: instant(200),
    })
}

fn request() -> RegisterDeviceRequest {
    RegisterDeviceRequest {
        name: "Laptop".to_string(),
        primary_flag: true,
        allowed_repos: strings(&[" a ", "a", ""]),
        allowed_repo_roots: strings(&["/r "]),
        hidden_repos: strings(&["h", " h"]),
        excluded_repo_paths: strings(&["p"]),
        discovered_repos: strings(&["d"]),
        repositories: vec![DeviceRepository {
            name: " repo ".to_string(),
            branches: strings(&["main", "dev", " main"]),
        }],
        capabilities: strings(&["codex", " codex "]),
    }
}

fn enrolled_with(key: &str) -> DeviceTrustMetadata {
    DeviceTrustMetadata {
        status: DeviceTrustStatus::Trusted,
        current_edge_public_key: Some(key.to_string()),
        ..Default::default()
    }
}

#[test]
fn verified_registration_fills_in_the_trust() {
    let registration = trusted_registration("edge-key-a", RegistrationTrustIntent::Enroll);
    let at = registration.registered_at;
    let next = next_device_trust_state(
        DeviceTrustMetadata {
            status_reason: Some("old".to_string()),
            reason: Some("old".to_string()),
            ..Default::default()
        },
        Some(&registration),
    )
    .expect("enrollment");
    assert_eq!(next.last_trusted_registration_at, Some(at));
    assert_eq!(next.updated_at, Some(at));
    assert_eq!(next.last_orchestrator_key_id.as_deref(), Some("orchestrator-1-testkey"));
    assert_eq!(next.last_orchestrator_public_key.as_deref(), Some("test-public-key"));
    assert_eq!(next.last_registration_intent, Some(RegistrationTrustIntent::Enroll));
    assert_eq!(next.status_reason, None);
    assert_eq!(next.reason, None);
    assert_eq!(next.rotated_at, None);
}

#[test]
fn same_key_refreshes_the_enrollment() {
    let next = next_device_trust_state(
        enrolled_with("edge-key-a"),
        Some(&trusted_registration("edge-key-a", RegistrationTrustIntent::Rotate)),
    )
    .expect("refresh");
    assert_eq!(next.status, DeviceTrustStatus::Trusted);
    assert_eq!(next.previous_edge_public_keys, Vec::<String>::new());
}

#[test]
fn rotation_keeps_former_keys_in_order() {
    let existing = DeviceTrustMetadata {
        previous_edge_public_keys: strings(&["z", "b"]),
        ..enrolled_with("m")
    };
    let next = next_device_trust_state(
        existing,
        Some(&trusted_registration("n", RegistrationTrustIntent::Reenroll)),
    )
    .expect("re-enrollment");
    assert_eq!(next.previous_edge_public_keys, strings(&["b", "m", "z"]));
    let device = device(metadata(finalize_trust_metadata(next)));
    assert_eq!(device.trust.status, DeviceTrustStatus::Rotated);
    assert!(ensure_device_trusted_for_dispatch(&device).is_err());
}

#[test]
fn refusals_of_verified_registrations() {
    let revoked = DeviceTrustMetadata { revoked_at: Some(instant(5)), ..Default::default() };
    let registration = trusted_registration("edge-key-a", RegistrationTrustIntent::Reenroll);
    let error = next_device_trust_state(revoked, Some(&registration)).expect_err("revoked");
    assert_eq!(error.status, ErrorStatus::Unauthorized);
    assert_eq!(
        error.error,
        "device trust has been revoked and cannot be re-enrolled without clearing revocation"
    );
    let barred = DeviceTrustMetadata {
        revoked_edge_public_keys: strings(&["edge-key-a"]),
        ..Default::default()
    };
    let error = next_device_trust_state(barred, Some(&registration)).expect_err("revoked key");
    assert_eq!(error.status, ErrorStatus::Unauthorized);
    assert_eq!(error.error, "edge public key has been revoked for this device");
    let error = next_device_trust_state(
        enrolled_with("other"),
        Some(&trusted_registration("edge-key-a", RegistrationTrustIntent::Enroll)),
    )
    .expect_err("other key");
    assert_eq!(
        error.error,
        "trusted device is already enrolled with a different key; use an explicit rotation or re-enrollment intent"
    );
}

#[test]
fn registration_without_proof() {
    let fresh = next_device_trust_state(DeviceTrustMetadata::default(), None).expect("no proof");
    assert_eq!(fresh.status, DeviceTrustStatus::Untrusted);
    let revoked = DeviceTrustMetadata {
        status: DeviceTrustStatus::Revoked,
        revoked_at: Some(instant(5)),
        status_reason: Some("kept".to_string()),
        ..Default::default()
    };
    let still = next_device_trust_state(revoked, None).expect("no proof");
    assert_eq!(still.status, DeviceTrustStatus::Revoked);
    assert_eq!(still.status_reason.as_deref(), Some("kept"));
    let known = next_device_trust_state(enrolled_with("k"), None).expect("no proof");
    assert_eq!(
        known.status_reason.as_deref(),
        Some("trusted device re-registered without a trust proof; verify the edge trust configuration")
    );
    for trust in [fresh, still, known] {
        let device = device(metadata(finalize_trust_metadata(trust)));
        assert!(ensure_device_trusted_for_dispatch(&device).is_err());
    }
}

#[test]
fn statuses_are_explained() {
    let cases = [
        (DeviceTrustStatus::Trusted, "Trusted", "Trusted enrollment is active for this edge.", false),
        (
            DeviceTrustStatus::Rotated,
            "Rotated",
            "Trust material was rotated and should be verified before dispatch.",
            false,
        ),
        (DeviceTrustStatus::Revoked, "Revoked", "Trust for this edge has been revoked.", true),
        (
            DeviceTrustStatus::Untrusted,
            "Untrusted",
            "This edge has not completed trusted enrollment yet.",
            true,
        ),
        (
            DeviceTrustStatus::AttentionRequired,
            "Needs Attention",
            "This edge needs trust review before it should be used for sensitive work.",
            true,
        ),
    ];
    for (status, label, summary, attention) in cases {
        let trust = finalize_trust_metadata(DeviceTrustMetadata { status, ..Default::default() });
        assert_eq!(trust_status_label(status), label);
        assert_eq!(trust.label.as_deref(), Some(label));
        assert_eq!(trust.summary.as_deref(), Some(summary));
        assert_eq!(trust.requires_attention, attention);
        assert_eq!(trust.can_dispatch, Some(!attention));
        assert_eq!(trust.detail.is_some(), status == DeviceTrustStatus::Rotated);
        let record = device(metadata(trust));
        assert_eq!(
            ensure_device_trusted_for_dispatch(&record).is_ok(),
            status == DeviceTrustStatus::Trusted
        );
    }
}

#[test]
fn final_trust_keeps_what_was_said() {
    let trust = finalize_trust_metadata(DeviceTrustMetadata {
        label: Some("L".to_string()),
        summary: Some("S".to_string()),
        detail: Some("D".to_string()),
        status_reason: Some("R".to_string()),
        rotated_at: Some(instant(7)),
        last_trusted_registration_at: Some(instant(3)),
        ..Default::default()
    });
    assert_eq!(trust.label.as_deref(), Some("L"));
    assert_eq!(trust.summary.as_deref(), Some("S"));
    assert_eq!(trust.detail.as_deref(), Some("D"));
    assert_eq!(trust.reason.as_deref(), Some("R"));
    assert_eq!(trust.updated_at, Some(instant(7)));
}

#[test]
fn stored_trust_has_a_normal_form() {
    let stored = DeviceTrustMetadata {
        previous_edge_public_keys: strings(&["b", "a", "b"]),
        revoked_edge_public_keys: strings(&["y", "x"]),
        ..Default::default()
    };
    let once = stored.copy().normalized(Some("old-key".to_string()), Some(instant(9)));
    assert_eq!(once.status, DeviceTrustStatus::Trusted);
    assert_eq!(once.label.as_deref(), Some("Trusted"));
    assert_eq!(once.current_edge_public_key.as_deref(), Some("old-key"));
    assert_eq!(once.last_trusted_registration_at, Some(instant(9)));
    assert_eq!(once.previous_edge_public_keys, strings(&["a", "b"]));
    assert_eq!(once.revoked_edge_public_keys, strings(&["x", "y"]));
    let twice = once.copy().normalized(None, None);
    assert_eq!(once, twice);
    let revoked = DeviceTrustMetadata { revoked_at: Some(instant(1)), ..enrolled_with("k") };
    assert_eq!(revoked.normalized(None, None).status, DeviceTrustStatus::Revoked);
    let bare = DeviceTrustMetadata::default().normalized(None, None);
    assert_eq!(bare.status, DeviceTrustStatus::Untrusted);
}

#[test]
fn kinds_of_enrollment() {
    assert_eq!(enrollment_kind(true, Some(&RegistrationTrustIntent::Rotate), true), "rotation");
    assert_eq!(enrollment_kind(true, Some(&RegistrationTrustIntent::Reenroll), false), "re_enrollment");
    assert_eq!(enrollment_kind(true, Some(&RegistrationTrustIntent::Enroll), false), "primary");
    assert_eq!(enrollment_kind(false, None, true), "additional_edge");
}

#[test]
fn devices_register_with_an_id_and_a_name() {
    assert_eq!(
        registration_identity(" edge-1 ", " Laptop ").expect("both are there"),
        ("edge-1".to_string(), "Laptop".to_string())
    );
    let error = registration_identity("  ", "").expect_err("no id");
    assert_eq!((error.status, error.error.as_str()), (ErrorStatus::BadRequest, "device id is required"));
    let error = registration_identity("x", "  ").expect_err("no name");
    assert_eq!((error.status, error.error.as_str()), (ErrorStatus::BadRequest, "device name is required"));
}

#[test]
fn first_registration_is_stored() {
    let registration = trusted_registration("edge-key-a", RegistrationTrustIntent::Enroll);
    let stored = registered_metadata(None, request(), Some(&registration), instant(50))
        .expect("first registration");
    assert_eq!(stored.allowed_repos, strings(&["a"]));
    assert_eq!(stored.allowed_repo_roots, strings(&["/r"]));
    assert_eq!(stored.hidden_repos, strings(&["h"]));
    assert_eq!(stored.excluded_repo_paths, strings(&["p"]));
    assert_eq!(stored.discovered_repos, strings(&["d"]));
    assert_eq!(stored.capabilities, strings(&["codex"]));
    assert_eq!(stored.repositories.len(), 1);
    assert_eq!(stored.repositories[0].name, "repo");
    assert_eq!(stored.repositories[0].branches, strings(&["dev", "main"]));
    assert_eq!(stored.registered_at, Some(instant(50)));
    assert_eq!(stored.last_seen_at, Some(instant(50)));
    assert_eq!(stored.trust.enrollment_kind.as_deref(), Some("primary"));
    assert_eq!(stored.trust.can_dispatch, Some(true));
    let record = device(stored);
    assert!(ensure_device_trusted_for_dispatch(&record).is_ok());
    assert_eq!(record.registered_at, instant(50));
}

#[test]
fn later_registration_keeps_what_is_known() {
    let mut known = metadata(DeviceTrustMetadata::default());
    known.registered_at = Some(instant(1));
    known.edge_public_key = Some("edge-key-a".to_string());
    known.last_probe = Some(AvailabilitySnapshot {
        probe_id: "p".to_string(),
        job_id: None,
        device_id: "edge-1".to_string(),
        available: true,
        reason: "idle".to_string(),
        responded_at: instant(2),
    });
    let stored = registered_metadata(Some(&known), request(), None, instant(50)).expect("no proof");
    assert_eq!(stored.registered_at, Some(instant(1)));
    assert_eq!(stored.trust.status, DeviceTrustStatus::AttentionRequired);
    assert_eq!(stored.trust.current_edge_public_key.as_deref(), Some("edge-key-a"));
    assert_eq!(stored.edge_public_key, None);
    assert_eq!(stored.last_probe.map(|probe| probe.probe_id), Some("p".to_string()));
    let other = trusted_registration("edge-key-b", RegistrationTrustIntent::Enroll);
    let error = registered_metadata(Some(&known), request(), Some(&other), instant(50))
        .expect_err("other key");
    assert_eq!(error.status, ErrorStatus::Conflict);
}

#[test]
fn revocation_holds() {
    let ask = |key: Option<&str>, reason: Option<&str>| RevokeDeviceTrustRequest {
        edge_public_key: key.map(|value| value.to_string()),
        reason: reason.map(|value| value.to_string()),
    };
    let revoked = revoked_metadata(metadata(enrolled_with("k1")), false, ask(None, None), instant(9))
        .expect("a key is there");
    assert_eq!(revoked.trust.status, DeviceTrustStatus::Revoked);
    assert_eq!(revoked.trust.revoked_at, Some(instant(9)));
    assert_eq!(revoked.trust.reason.as_deref(), Some("revoked key k1"));
    assert_eq!(revoked.trust.enrollment_kind.as_deref(), Some("additional_edge"));
    assert_eq!(revoked.trust.revoked_edge_public_keys, strings(&["k1"]));
    let again = revoked_metadata(revoked, true, ask(Some(" k0 "), Some(" lost ")), instant(10))
        .expect("a key is named");
    assert_eq!(again.trust.revoked_edge_public_keys, strings(&["k0", "k1"]));
    assert_eq!(again.trust.reason.as_deref(), Some("lost"));
    let record = device(again);
    assert_eq!(record.trust.status, DeviceTrustStatus::Revoked);
    let error = ensure_device_trusted_for_dispatch(&record).expect_err("no work");
    assert_eq!(error.error, "device `edge-1` is not trusted for dispatch; trust status is revoked");
    assert_eq!(error.code.as_deref(), Some("dispatch_device_not_trusted"));
    assert!(next_device_trust_state(
        record.trust,
        Some(&trusted_registration("k2", RegistrationTrustIntent::Reenroll))
    )
    .is_err());
    let error = revoked_metadata(
        metadata(DeviceTrustMetadata::default()),
        true,
        ask(Some("  "), None),
        instant(9),
    )
    .expect_err("no key");
    assert_eq!(error.status, ErrorStatus::Conflict);
    assert_eq!(error.error, "device does not have trusted key material to revoke");
}

#[test]
fn probes_are_answered_by_the_probed_device() {
    let probe = device_probe("edge-1", Some("job-1".to_string()), instant(4));
    assert_eq!(probe.probe_id.len(), 26);
    assert_eq!(probe.job_id.as_deref(), Some("job-1"));
    assert_eq!(probe.sent_at, instant(4));
    assert_eq!(probe_subject("edge-1"), "elowen.devices.availability.probe.edge-1");
    let answer = |device_id: &str, probe_id: &str| AvailabilitySnapshot {
        probe_id: probe_id.to_string(),
        job_id: None,
        device_id: device_id.to_string(),
        available: true,
        reason: "idle".to_string(),
        responded_at: instant(6),
    };
    let accepted = accept_probe_response(&probe, answer("edge-1", &probe.probe_id)).expect("match");
    let stored = probed_metadata(metadata(DeviceTrustMetadata::default()), &accepted);
    assert_eq!(stored.last_seen_at, Some(instant(6)));
    assert_eq!(stored.last_probe.map(|probe| probe.reason), Some("idle".to_string()));
    for response in [answer("edge-2", &probe.probe_id), answer("edge-1", "other")] {
        let error = accept_probe_response(&probe, response).expect_err("no match");
        assert_eq!(error.status, ErrorStatus::Internal);
        assert_eq!(error.error, "device probe response did not match request");
    }
}
