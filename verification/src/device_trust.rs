//! How the trust in a device changes when it registers, is revoked or is
//! probed.

use crate::device_models;
use crate::device_models::{
    trust_status_label, AvailabilitySnapshot, DeviceMetadata, DeviceTrustMetadata,
    DeviceTrustStatus, MetadataView, RegistrationTrustIntent, TrustView,
};
use crate::devices;
use crate::devices::sanitize_device_repositories;
use crate::error;
use crate::error::{AppError, ErrorStatus, ErrorView};
use crate::formatting;
use crate::formatting::{holds_text, sanitize_optional_string, sanitize_string_list};
use crate::ids;
use crate::ids::new_id;
use crate::models::DeviceRepository;
use crate::order;
use crate::order::text_set;
use crate::scan::{chars_of, copy_opt, push_line, same_text, trim_text};
use crate::text;
use crate::time::Timestamp;
use vstd::prelude::*;

verus! {

/// A registration whose signatures were verified.
#[derive(Debug)]
pub struct TrustedRegistration {
    pub edge_public_key: String,
    pub registered_at: Timestamp,
    pub orchestrator_key_id: String,
    pub orchestrator_public_key: String,
    pub registration_intent: RegistrationTrustIntent,
    pub previous_edge_public_key: Option<String>,
}

/// The model of a verified registration.
pub struct RegistrationView {
    pub edge_public_key: Seq<char>,
    pub registered_at: Timestamp,
    pub orchestrator_key_id: Seq<char>,
    pub orchestrator_public_key: Seq<char>,
    pub registration_intent: RegistrationTrustIntent,
    pub previous_edge_public_key: Option<Seq<char>>,
}

impl View for TrustedRegistration {
    type V = RegistrationView;

    open spec fn view(&self) -> RegistrationView {
        RegistrationView {
            edge_public_key: self.edge_public_key@,
            registered_at: self.registered_at,
            orchestrator_key_id: self.orchestrator_key_id@,
            orchestrator_public_key: self.orchestrator_public_key@,
            registration_intent: self.registration_intent,
            previous_edge_public_key: text::opt(self.previous_edge_public_key),
        }
    }
}

/// The model of a borrowed registration that may be absent.
pub open spec fn opt_registration(r: Option<&TrustedRegistration>) -> Option<RegistrationView> {
    match r {
        Some(x) => Some(x@),
        None => None,
    }
}

/// What a function answers, by its model.
pub open spec fn trust_result(r: Result<DeviceTrustMetadata, AppError>) -> Result<
    TrustView,
    ErrorView,
> {
    match r {
        Ok(t) => Ok(t@),
        Err(e) => Err(e@),
    }
}

// ---------------------------------------------------------------------------
// Registration
// ---------------------------------------------------------------------------

/// The trust after a verified registration that nothing speaks against.
pub open spec fn enrolled(t: TrustView, r: RegistrationView) -> TrustView {
    let kept = TrustView {
        current_edge_public_key: Some(r.edge_public_key),
        last_trusted_registration_at: Some(r.registered_at),
        last_orchestrator_key_id: Some(r.orchestrator_key_id),
        last_orchestrator_public_key: Some(r.orchestrator_public_key),
        last_registration_intent: Some(r.registration_intent),
        status_reason: None,
        reason: None,
        revoked_at: None,
        updated_at: Some(r.registered_at),
        ..t
    };
    match t.current_edge_public_key {
        Some(key) => if key == r.edge_public_key {
            TrustView { status: DeviceTrustStatus::Trusted, ..kept }
        } else {
            TrustView {
                status: DeviceTrustStatus::Rotated,
                rotated_at: Some(r.registered_at),
                previous_edge_public_keys: order::as_set(
                    t.previous_edge_public_keys.push(key),
                    order::by_text(),
                ),
                ..kept
            }
        },
        None => TrustView { status: DeviceTrustStatus::Trusted, ..kept },
    }
}

/// Why a verified registration is refused.
pub open spec fn refusal(t: TrustView, r: RegistrationView) -> Option<ErrorView> {
    if t.revoked_at is Some {
        Some(
            error::plain(
                ErrorStatus::Unauthorized,
                "device trust has been revoked and cannot be re-enrolled without clearing revocation"@,
            ),
        )
    } else if t.revoked_edge_public_keys.contains(r.edge_public_key) {
        Some(
            error::plain(
                ErrorStatus::Unauthorized,
                "edge public key has been revoked for this device"@,
            ),
        )
    } else if t.current_edge_public_key is Some && t.current_edge_public_key
        != Some(r.edge_public_key) && r.registration_intent is Enroll {
        Some(
            error::plain(
                ErrorStatus::Conflict,
                "trusted device is already enrolled with a different key; use an explicit rotation or re-enrollment intent"@,
            ),
        )
    } else {
        None
    }
}

/// The trust after a registration without proof.
pub open spec fn unproven(t: TrustView) -> TrustView {
    if t.current_edge_public_key is Some {
        TrustView {
            status: DeviceTrustStatus::AttentionRequired,
            status_reason: Some(
                "trusted device re-registered without a trust proof; verify the edge trust configuration"@,
            ),
            ..t
        }
    } else if t.revoked_at is None {
        TrustView { status: DeviceTrustStatus::Untrusted, status_reason: None, ..t }
    } else {
        t
    }
}

/// The trust after a registration.
pub open spec fn next_trust(t: TrustView, r: Option<RegistrationView>) -> Result<
    TrustView,
    ErrorView,
> {
    match r {
        Some(r) => match refusal(t, r) {
            Some(e) => Err(e),
            None => Ok(enrolled(t, r)),
        },
        None => Ok(unproven(t)),
    }
}

/// The trust after a registration.
pub fn next_device_trust_state(
    existing: DeviceTrustMetadata,
    trusted_registration: Option<&TrustedRegistration>,
) -> (r: Result<DeviceTrustMetadata, AppError>)
    ensures
        trust_result(r) == next_trust(existing@, opt_registration(trusted_registration)),
{
    let registered = match trusted_registration {
        Some(registered) => registered,
        None => {
            if existing.current_edge_public_key.is_some() {
                return Ok(
                    DeviceTrustMetadata {
                        status: DeviceTrustStatus::AttentionRequired,
                        status_reason: Some(
                            "trusted device re-registered without a trust proof; verify the edge trust configuration".to_string(),
                        ),
                        ..existing
                    },
                );
            }
            if existing.revoked_at.is_none() {
                return Ok(
                    DeviceTrustMetadata {
                        status: DeviceTrustStatus::Untrusted,
                        status_reason: None,
                        ..existing
                    },
                );
            }
            return Ok(existing);
        },
    };
    if existing.revoked_at.is_some() {
        return Err(
            AppError::unauthorized(
                "device trust has been revoked and cannot be re-enrolled without clearing revocation",
            ),
        );
    }
    if holds_text(
        existing.revoked_edge_public_keys.as_slice(),
        registered.edge_public_key.as_str(),
    ) {
        return Err(AppError::unauthorized("edge public key has been revoked for this device"));
    }
    let mut previous_edge_public_keys = existing.previous_edge_public_keys;
    let mut rotated_at = existing.rotated_at;
    let mut status = DeviceTrustStatus::Trusted;
    if let Some(current_key) = existing.current_edge_public_key {
        if !same_text(current_key.as_str(), registered.edge_public_key.as_str()) {
            match registered.registration_intent {
                RegistrationTrustIntent::Enroll => {
                    return Err(
                        AppError::conflict(
                            "trusted device is already enrolled with a different key; use an explicit rotation or re-enrollment intent",
                        ),
                    );
                },
                _ => {},
            }
            push_line(&mut previous_edge_public_keys, current_key);
            previous_edge_public_keys = text_set(previous_edge_public_keys.as_slice());
            rotated_at = Some(registered.registered_at);
            status = DeviceTrustStatus::Rotated;
        }
    }
    Ok(
        DeviceTrustMetadata {
            status,
            current_edge_public_key: Some(registered.edge_public_key.clone()),
            previous_edge_public_keys,
            rotated_at,
            last_trusted_registration_at: Some(registered.registered_at),
            last_orchestrator_key_id: Some(registered.orchestrator_key_id.clone()),
            last_orchestrator_public_key: Some(registered.orchestrator_public_key.clone()),
            last_registration_intent: Some(registered.registration_intent),
            status_reason: None,
            reason: None,
            revoked_at: None,
            updated_at: Some(registered.registered_at),
            ..existing
        },
    )
}

/// A device with this status must not be given work.
pub open spec fn needs_attention(status: DeviceTrustStatus) -> bool {
    status is Revoked || status is Untrusted || status is AttentionRequired
}

/// What a status means, in a sentence.
pub open spec fn status_summary(status: DeviceTrustStatus) -> Seq<char> {
    match status {
        DeviceTrustStatus::Trusted => "Trusted enrollment is active for this edge."@,
        DeviceTrustStatus::Rotated =>
        "Trust material was rotated and should be verified before dispatch."@,
        DeviceTrustStatus::Revoked => "Trust for this edge has been revoked."@,
        DeviceTrustStatus::Untrusted => "This edge has not completed trusted enrollment yet."@,
        DeviceTrustStatus::AttentionRequired =>
        "This edge needs trust review before it should be used for sensitive work."@,
    }
}

/// The trust with everything that follows from its status. Texts that are
/// there already stay.
pub open spec fn finalized(t: TrustView) -> TrustView {
    TrustView {
        updated_at: text::or_else(
            t.updated_at,
            text::or_else(
                t.revoked_at,
                text::or_else(t.rotated_at, t.last_trusted_registration_at),
            ),
        ),
        label: Some(text::or_value(t.label, device_models::status_label(t.status))),
        requires_attention: needs_attention(t.status),
        can_dispatch: Some(!needs_attention(t.status)),
        summary: Some(text::or_value(t.summary, status_summary(t.status))),
        detail: if t.detail is None && t.status is Rotated {
            Some(
                "Confirm the new edge key belongs to the intended device before dispatching trusted work."@,
            )
        } else {
            t.detail
        },
        reason: text::or_else(t.reason, t.status_reason),
        ..t
    }
}

fn first_instant(a: Option<Timestamp>, b: Option<Timestamp>) -> (r: Option<Timestamp>)
    ensures
        r == text::or_else(a, b),
{
    match a {
        Some(at) => Some(at),
        None => b,
    }
}

fn trust_status_summary(status: DeviceTrustStatus) -> (r: &'static str)
    ensures
        r@ == status_summary(status),
{
    match status {
        DeviceTrustStatus::Trusted => "Trusted enrollment is active for this edge.",
        DeviceTrustStatus::Rotated =>
        "Trust material was rotated and should be verified before dispatch.",
        DeviceTrustStatus::Revoked => "Trust for this edge has been revoked.",
        DeviceTrustStatus::Untrusted => "This edge has not completed trusted enrollment yet.",
        DeviceTrustStatus::AttentionRequired =>
        "This edge needs trust review before it should be used for sensitive work.",
    }
}

/// The trust with everything that follows from its status.
pub fn finalize_trust_metadata(trust: DeviceTrustMetadata) -> (r: DeviceTrustMetadata)
    ensures
        r@ == finalized(trust@),
{
    let updated_at = first_instant(
        trust.updated_at,
        first_instant(
            trust.revoked_at,
            first_instant(trust.rotated_at, trust.last_trusted_registration_at),
        ),
    );
    let label = match trust.label {
        Some(label) => Some(label),
        None => Some(trust_status_label(trust.status).to_string()),
    };
    let requires_attention = match trust.status {
        DeviceTrustStatus::Revoked => true,
        DeviceTrustStatus::Untrusted => true,
        DeviceTrustStatus::AttentionRequired => true,
        _ => false,
    };
    let summary = match trust.summary {
        Some(summary) => Some(summary),
        None => Some(trust_status_summary(trust.status).to_string()),
    };
    let detail = match trust.detail {
        Some(detail) => Some(detail),
        None => match trust.status {
            DeviceTrustStatus::Rotated => Some(
                "Confirm the new edge key belongs to the intended device before dispatching trusted work.".to_string(),
            ),
            _ => None,
        },
    };
    let reason = match trust.reason {
        Some(reason) => Some(reason),
        None => copy_opt(&trust.status_reason),
    };
    DeviceTrustMetadata {
        updated_at,
        label,
        requires_attention,
        can_dispatch: Some(!requires_attention),
        summary,
        detail,
        reason,
        ..trust
    }
}

/// The kind of an enrollment.
pub open spec fn kind_of_enrollment(
    primary: bool,
    intent: Option<RegistrationTrustIntent>,
) -> Seq<char> {
    match intent {
        Some(RegistrationTrustIntent::Rotate) => "rotation"@,
        Some(RegistrationTrustIntent::Reenroll) => "re_enrollment"@,
        _ => if primary {
            "primary"@
        } else {
            "additional_edge"@
        },
    }
}

/// The kind of an enrollment. Whether the device was known before makes no
/// difference.
pub fn enrollment_kind(
    primary_flag: bool,
    registration_intent: Option<&RegistrationTrustIntent>,
    already_exists: bool,
) -> (r: String)
    ensures
        r@ == kind_of_enrollment(
            primary_flag,
            match registration_intent {
                Some(i) => Some(*i),
                None => None,
            },
        ),
{
    match registration_intent {
        Some(RegistrationTrustIntent::Rotate) => "rotation".to_string(),
        Some(RegistrationTrustIntent::Reenroll) => "re_enrollment".to_string(),
        _ => if primary_flag {
            "primary".to_string()
        } else {
            "additional_edge".to_string()
        },
    }
}

/// What a device sends to register.
#[derive(Debug)]
pub struct RegisterDeviceRequest {
    pub name: String,
    pub primary_flag: bool,
    pub allowed_repos: Vec<String>,
    pub allowed_repo_roots: Vec<String>,
    pub hidden_repos: Vec<String>,
    pub excluded_repo_paths: Vec<String>,
    pub discovered_repos: Vec<String>,
    pub repositories: Vec<DeviceRepository>,
    pub capabilities: Vec<String>,
}

/// The id and the name of a device that registers, trimmed; both are required.
pub fn registration_identity(device_id: &str, name: &str) -> (r: Result<
    (String, String),
    AppError,
>)
    ensures
        match r {
            Ok(identity) => !text::is_blank(device_id@) && !text::is_blank(name@) && identity.0@
                == text::trim(device_id@) && identity.1@ == text::trim(name@),
            Err(e) => if text::is_blank(device_id@) {
                e@ == error::plain(ErrorStatus::BadRequest, "device id is required"@)
            } else {
                text::is_blank(name@) && e@ == error::plain(
                    ErrorStatus::BadRequest,
                    "device name is required"@,
                )
            },
        },
{
    let id = trim_text(device_id);
    if chars_of(id.as_str()).len() == 0 {
        return Err(AppError::bad_request("device id is required"));
    }
    let trimmed = trim_text(name);
    if chars_of(trimmed.as_str()).len() == 0 {
        return Err(AppError::bad_request("device name is required"));
    }
    Ok((id, trimmed))
}

/// The trust that a registration starts from.
pub open spec fn trust_before(existing: Option<&DeviceMetadata>) -> TrustView {
    match existing {
        Some(m) => device_models::stored_trust(m@),
        None => device_models::no_trust(),
    }
}

/// The intent of a registration.
pub open spec fn intent_of(r: Option<RegistrationView>) -> Option<RegistrationTrustIntent> {
    match r {
        Some(x) => Some(x.registration_intent),
        None => None,
    }
}

/// The metadata of a device after it registered with the trust `t`.
pub open spec fn registered(
    existing: Option<&DeviceMetadata>,
    request: RegisterDeviceRequest,
    t: TrustView,
    registration: Option<RegistrationView>,
    now: Timestamp,
) -> MetadataView {
    MetadataView {
        allowed_repos: formatting::sanitized_list(text::views(request.allowed_repos@)),
        allowed_repo_roots: formatting::sanitized_list(text::views(request.allowed_repo_roots@)),
        hidden_repos: formatting::sanitized_list(text::views(request.hidden_repos@)),
        excluded_repo_paths: formatting::sanitized_list(text::views(request.excluded_repo_paths@)),
        discovered_repos: formatting::sanitized_list(text::views(request.discovered_repos@)),
        repositories: devices::sanitized_repositories(
            order::repository_views(request.repositories@),
        ),
        capabilities: formatting::sanitized_list(text::views(request.capabilities@)),
        registered_at: Some(
            match existing {
                Some(m) => text::or_value(m.registered_at, now),
                None => now,
            },
        ),
        last_seen_at: Some(now),
        last_probe: match existing {
            Some(m) => device_models::opt_snapshot(m.last_probe),
            None => None,
        },
        trust: finalized(
            TrustView {
                enrollment_kind: Some(
                    kind_of_enrollment(request.primary_flag, intent_of(registration)),
                ),
                ..t
            },
        ),
        edge_public_key: None,
        last_trusted_registration_at: None,
    }
}

/// The metadata of a device after it registered.
pub fn registered_metadata(
    existing: Option<&DeviceMetadata>,
    request: RegisterDeviceRequest,
    trusted_registration: Option<&TrustedRegistration>,
    now: Timestamp,
) -> (r: Result<DeviceMetadata, AppError>)
    ensures
        match r {
            Ok(m) => next_trust(trust_before(existing), opt_registration(trusted_registration))
                matches Ok(t) && m@ == registered(
                existing,
                request,
                t,
                opt_registration(trusted_registration),
                now,
            ),
            Err(e) => next_trust(trust_before(existing), opt_registration(trusted_registration))
                == Err::<TrustView, ErrorView>(e@),
        },
{
    let before = match existing {
        Some(m) => m.trust.copy().normalized(
            copy_opt(&m.edge_public_key),
            m.last_trusted_registration_at,
        ),
        None => DeviceTrustMetadata::default(),
    };
    let next = match next_device_trust_state(before, trusted_registration) {
        Ok(next) => next,
        Err(e) => return Err(e),
    };
    let intent = match trusted_registration {
        Some(registration) => Some(&registration.registration_intent),
        None => None,
    };
    let kind = enrollment_kind(request.primary_flag, intent, existing.is_some());
    let trust = finalize_trust_metadata(
        DeviceTrustMetadata { enrollment_kind: Some(kind), ..next },
    );
    let registered_at = match existing {
        Some(m) => match m.registered_at {
            Some(at) => Some(at),
            None => Some(now),
        },
        None => Some(now),
    };
    let last_probe = match existing {
        Some(m) => match &m.last_probe {
            Some(probe) => Some(probe.copy()),
            None => None,
        },
        None => None,
    };
    Ok(
        DeviceMetadata {
            allowed_repos: sanitize_string_list(request.allowed_repos),
            allowed_repo_roots: sanitize_string_list(request.allowed_repo_roots),
            hidden_repos: sanitize_string_list(request.hidden_repos),
            excluded_repo_paths: sanitize_string_list(request.excluded_repo_paths),
            discovered_repos: sanitize_string_list(request.discovered_repos),
            repositories: sanitize_device_repositories(request.repositories),
            capabilities: sanitize_string_list(request.capabilities),
            registered_at,
            last_seen_at: Some(now),
            last_probe,
            trust,
            edge_public_key: None,
            last_trusted_registration_at: None,
        },
    )
}

// ---------------------------------------------------------------------------
// Revocation
// ---------------------------------------------------------------------------

/// A request to withdraw the trust in a device.
#[derive(Debug)]
pub struct RevokeDeviceTrustRequest {
    pub edge_public_key: Option<String>,
    pub reason: Option<String>,
}

/// The key that a revocation is about: the one that is named, else the present
/// one.
pub open spec fn revoked_key(t: TrustView, named: Option<Seq<char>>) -> Option<Seq<char>> {
    text::or_else(text::present(named), t.current_edge_public_key)
}

/// The trust after the revocation of `key`.
pub open spec fn revoked(
    t: TrustView,
    key: Seq<char>,
    reason: Option<Seq<char>>,
    primary: bool,
    now: Timestamp,
) -> TrustView {
    finalized(
        TrustView {
            revoked_edge_public_keys: if t.revoked_edge_public_keys.contains(key) {
                t.revoked_edge_public_keys
            } else {
                order::as_set(t.revoked_edge_public_keys.push(key), order::by_text())
            },
            status: DeviceTrustStatus::Revoked,
            revoked_at: Some(now),
            reason: Some(text::or_value(text::present(reason), "revoked key "@ + key)),
            enrollment_kind: Some(
                text::or_value(
                    t.enrollment_kind,
                    if primary {
                        "primary"@
                    } else {
                        "additional_edge"@
                    },
                ),
            ),
            ..t
        },
    )
}

/// The metadata of a device after a revocation.
pub fn revoked_metadata(
    metadata: DeviceMetadata,
    primary_flag: bool,
    request: RevokeDeviceTrustRequest,
    now: Timestamp,
) -> (r: Result<DeviceMetadata, AppError>)
    ensures
        match r {
            Ok(m) => revoked_key(
                device_models::stored_trust(metadata@),
                text::opt(request.edge_public_key),
            ) matches Some(key) && m@ == (MetadataView {
                trust: revoked(
                    device_models::stored_trust(metadata@),
                    key,
                    text::opt(request.reason),
                    primary_flag,
                    now,
                ),
                edge_public_key: None,
                last_trusted_registration_at: None,
                ..metadata@
            }),
            Err(e) => revoked_key(
                device_models::stored_trust(metadata@),
                text::opt(request.edge_public_key),
            ) is None && e@ == error::plain(
                ErrorStatus::Conflict,
                "device does not have trusted key material to revoke"@,
            ),
        },
{
    let trust = metadata.trust.normalized(
        metadata.edge_public_key,
        metadata.last_trusted_registration_at,
    );
    let target_key = match sanitize_optional_string(request.edge_public_key) {
        Some(key) => key,
        None => match &trust.current_edge_public_key {
            Some(key) => key.clone(),
            None => return Err(
                AppError::conflict("device does not have trusted key material to revoke"),
            ),
        },
    };
    let mut revoked_edge_public_keys = trust.revoked_edge_public_keys;
    if !holds_text(revoked_edge_public_keys.as_slice(), target_key.as_str()) {
        push_line(&mut revoked_edge_public_keys, target_key.clone());
        revoked_edge_public_keys = text_set(revoked_edge_public_keys.as_slice());
    }
    let reason = match sanitize_optional_string(request.reason) {
        Some(reason) => reason,
        None => "revoked key ".to_string().concat(target_key.as_str()),
    };
    let kind = match trust.enrollment_kind {
        Some(kind) => kind,
        None => if primary_flag {
            "primary".to_string()
        } else {
            "additional_edge".to_string()
        },
    };
    let trust = finalize_trust_metadata(
        DeviceTrustMetadata {
            revoked_edge_public_keys,
            status: DeviceTrustStatus::Revoked,
            revoked_at: Some(now),
            reason: Some(reason),
            enrollment_kind: Some(kind),
            ..trust
        },
    );
    Ok(
        DeviceMetadata {
            trust,
            edge_public_key: None,
            last_trusted_registration_at: None,
            ..metadata
        },
    )
}

// ---------------------------------------------------------------------------
// Probes
// ---------------------------------------------------------------------------

/// A question to a device whether it can take work.
#[derive(Debug)]
pub struct AvailabilityProbeMessage {
    pub probe_id: String,
    pub job_id: Option<String>,
    pub device_id: String,
    pub sent_at: Timestamp,
}

/// A new probe of a device.
pub fn device_probe(device_id: &str, job_id: Option<String>, now: Timestamp) -> (r:
    AvailabilityProbeMessage)
    ensures
        ids::is_id(r.probe_id@),
        text::opt(r.job_id) == text::opt(job_id),
        r.device_id@ == device_id@,
        r.sent_at == now,
{
    AvailabilityProbeMessage {
        probe_id: new_id(),
        job_id,
        device_id: device_id.to_string(),
        sent_at: now,
    }
}

/// The subject on which a device listens for probes.
pub fn probe_subject(device_id: &str) -> (r: String)
    ensures
        r@ == "elowen.devices.availability.probe."@ + device_id@,
{
    "elowen.devices.availability.probe.".to_string().concat(device_id)
}

/// The answer to a probe, where it is one to this probe.
pub fn accept_probe_response(
    probe: &AvailabilityProbeMessage,
    response: AvailabilitySnapshot,
) -> (r: Result<AvailabilitySnapshot, AppError>)
    ensures
        match r {
            Ok(s) => s == response && response.device_id@ == probe.device_id@
                && response.probe_id@ == probe.probe_id@,
            Err(e) => (response.device_id@ != probe.device_id@ || response.probe_id@
                != probe.probe_id@) && e@ == error::plain(
                ErrorStatus::Internal,
                "device probe response did not match request"@,
            ),
        },
{
    if same_text(response.device_id.as_str(), probe.device_id.as_str()) && same_text(
        response.probe_id.as_str(),
        probe.probe_id.as_str(),
    ) {
        Ok(response)
    } else {
        Err(AppError::internal("device probe response did not match request"))
    }
}

/// The metadata of a device after it answered a probe.
pub fn probed_metadata(metadata: DeviceMetadata, response: &AvailabilitySnapshot) -> (r:
    DeviceMetadata)
    ensures
        r@ == (MetadataView {
            last_seen_at: Some(response.responded_at),
            last_probe: Some(response@),
            ..metadata@
        }),
{
    DeviceMetadata {
        last_seen_at: Some(response.responded_at),
        last_probe: Some(response.copy()),
        ..metadata
    }
}

} // verus!
