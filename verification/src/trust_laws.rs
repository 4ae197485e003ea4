//! What registration, revocation and probing promise of a device.

use crate::device_models;
use crate::device_models::{
    AvailabilitySnapshot, DeviceMetadata, DeviceRecord, DeviceRow, DeviceTrustMetadata,
    DeviceTrustStatus, DeviceView, RegistrationTrustIntent, TrustView,
};
use crate::device_trust;
use crate::device_trust::{
    AvailabilityProbeMessage, RegisterDeviceRequest, RegistrationView, RevokeDeviceTrustRequest,
    TrustedRegistration,
};
use crate::dispatch;
use crate::error::AppError;
use crate::formatting;
use crate::order;
use crate::text;
use crate::time::Timestamp;
use vstd::prelude::*;

verus! {

// ---------------------------------------------------------------------------
// Registration
// ---------------------------------------------------------------------------

/// A verified registration with the key that the device already has makes it
/// trusted again, whatever became of its status in between, and fit for work.
pub proof fn law_same_key_restores_trust(t: TrustView, r: RegistrationView, device: DeviceView)
    requires
        t.revoked_at is None,
        !t.revoked_edge_public_keys.contains(r.edge_public_key),
        t.current_edge_public_key == Some(r.edge_public_key),
    ensures
        device_trust::next_trust(t, Some(r)) matches Ok(next) && {
            &&& next.status is Trusted
            &&& next.current_edge_public_key == Some(r.edge_public_key)
            &&& next.previous_edge_public_keys == t.previous_edge_public_keys
            &&& next.rotated_at == t.rotated_at
            &&& device.trust == device_trust::finalized(next) ==> dispatch::is_dispatchable(device)
        },
{
}

/// A device without a key is enrolled by any verified registration whose key was
/// not revoked, whatever its status was.
pub proof fn law_keyless_device_is_enrolled(t: TrustView, r: RegistrationView, device: DeviceView)
    requires
        t.revoked_at is None,
        !t.revoked_edge_public_keys.contains(r.edge_public_key),
        t.current_edge_public_key is None,
    ensures
        device_trust::next_trust(t, Some(r)) matches Ok(next) && {
            &&& next.status is Trusted
            &&& next.current_edge_public_key == Some(r.edge_public_key)
            &&& next.previous_edge_public_keys == t.previous_edge_public_keys
            &&& next.rotated_at == t.rotated_at
            &&& device.trust == device_trust::finalized(next) ==> dispatch::is_dispatchable(device)
        },
{
}

/// A verified registration is accepted exactly where nothing was revoked and a
/// change of key is asked for by name. A revocation is answered as missing
/// authority, a change of key that nobody asked for as a conflict.
pub proof fn law_accepted_registrations(t: TrustView, r: RegistrationView)
    ensures
        device_trust::next_trust(t, Some(r)) is Ok <==> {
            &&& t.revoked_at is None
            &&& !t.revoked_edge_public_keys.contains(r.edge_public_key)
            &&& t.current_edge_public_key matches Some(key) ==> key == r.edge_public_key
                || r.registration_intent is Rotate || r.registration_intent is Reenroll
        },
        device_trust::next_trust(t, Some(r)) matches Err(e) ==> e.code is None && (
        e.status is Conflict <==> t.revoked_at is None && !t.revoked_edge_public_keys.contains(
            r.edge_public_key,
        )) && (e.status is Conflict || e.status is Unauthorized),
{
}

/// An accepted registration is on record: its key, its instant, the orchestrator
/// key that it answered and what it asked for. What was said of the status before
/// is gone, and the revoked keys stay on record.
pub proof fn law_registration_is_recorded(t: TrustView, r: RegistrationView)
    requires
        device_trust::next_trust(t, Some(r)) is Ok,
    ensures
        device_trust::next_trust(t, Some(r)) matches Ok(next) && {
            &&& next.current_edge_public_key == Some(r.edge_public_key)
            &&& next.last_trusted_registration_at == Some(r.registered_at)
            &&& next.updated_at == Some(r.registered_at)
            &&& next.last_orchestrator_key_id == Some(r.orchestrator_key_id)
            &&& next.last_orchestrator_public_key == Some(r.orchestrator_public_key)
            &&& next.last_registration_intent == Some(r.registration_intent)
            &&& next.status_reason is None
            &&& next.reason is None
            &&& next.revoked_at is None
            &&& next.revoked_edge_public_keys == t.revoked_edge_public_keys
            &&& next.enrollment_kind == t.enrollment_kind
            &&& next.label == t.label
            &&& next.summary == t.summary
            &&& next.detail == t.detail
            &&& next.status is Rotated || next.status is Trusted
            &&& next.status is Rotated <==> (t.current_edge_public_key is Some
                && t.current_edge_public_key != Some(r.edge_public_key))
            &&& next.rotated_at == if next.status is Rotated {
                Some(r.registered_at)
            } else {
                t.rotated_at
            }
        },
{
}

/// A device forgets none of the keys that it once had: the earlier keys are those
/// of before and the one that a rotation took out of use.
pub proof fn law_earlier_keys_are_kept(t: TrustView, r: RegistrationView, key: Seq<char>)
    requires
        device_trust::next_trust(t, Some(r)) is Ok,
    ensures
        device_trust::next_trust(t, Some(r)) matches Ok(next)
            && (next.previous_edge_public_keys.contains(key) <==> (
        t.previous_edge_public_keys.contains(key) || (t.current_edge_public_key == Some(key) && key
            != r.edge_public_key))),
{
    if let Some(old_key) = t.current_edge_public_key {
        if old_key != r.edge_public_key {
            let list = t.previous_edge_public_keys.push(old_key);
            order::law_by_text_is_order();
            order::law_as_set(list, order::by_text());
            assert(list[list.len() - 1] == old_key);
            if t.previous_edge_public_keys.contains(key) {
                let i = choose|i: int|
                    0 <= i < t.previous_edge_public_keys.len() && t.previous_edge_public_keys[i]
                        == key;
                assert(list[i] == key);
            }
            if list.contains(key) && key != old_key {
                let i = choose|i: int| 0 <= i < list.len() && list[i] == key;
                assert(t.previous_edge_public_keys[i] == key);
            }
        }
    }
}

/// A registration without proof is never refused and leaves keys, instants and
/// revocations as they are. A device with a key then needs attention, and one
/// that never had a key nor was revoked is untrusted.
pub proof fn law_registration_without_proof(t: TrustView)
    ensures
        device_trust::next_trust(t, None) matches Ok(next) && {
            &&& next.current_edge_public_key == t.current_edge_public_key
            &&& next.previous_edge_public_keys == t.previous_edge_public_keys
            &&& next.revoked_edge_public_keys == t.revoked_edge_public_keys
            &&& next.revoked_at == t.revoked_at
            &&& next.rotated_at == t.rotated_at
            &&& next.last_trusted_registration_at == t.last_trusted_registration_at
            &&& next.last_registration_intent == t.last_registration_intent
            &&& next.updated_at == t.updated_at
            &&& next.reason == t.reason
            &&& t.current_edge_public_key is Some ==> next.status is AttentionRequired
                && next.status_reason is Some
            &&& t.current_edge_public_key is None && t.revoked_at is None
                ==> next.status is Untrusted && next.status_reason is None
            &&& t.current_edge_public_key is None && t.revoked_at is Some ==> next == t
        },
{
}

/// Losing trust for want of proof is undone by proof: a device that registers
/// without proof and then with its own key is trusted again.
pub proof fn law_proof_after_lapse(t: TrustView, r: RegistrationView, device: DeviceView)
    requires
        t.revoked_at is None,
        !t.revoked_edge_public_keys.contains(r.edge_public_key),
        t.current_edge_public_key == Some(r.edge_public_key),
    ensures
        device_trust::next_trust(t, None) matches Ok(lapsed) && device_trust::next_trust(
            lapsed,
            Some(r),
        ) matches Ok(next) && next.status is Trusted && (device.trust == device_trust::finalized(
            next,
        ) ==> dispatch::is_dispatchable(device)),
{
}

/// A rotated device is trusted once it registers again with its new key.
pub proof fn law_rotation_is_confirmed(
    t: TrustView,
    first: RegistrationView,
    second: RegistrationView,
)
    requires
        device_trust::next_trust(t, Some(first)) is Ok,
        second.edge_public_key == first.edge_public_key,
    ensures
        device_trust::next_trust(t, Some(first)) matches Ok(rotated)
            && device_trust::next_trust(rotated, Some(second)) matches Ok(next)
            && next.status is Trusted && next.rotated_at == rotated.rotated_at
            && next.previous_edge_public_keys == rotated.previous_edge_public_keys,
{
}

// ---------------------------------------------------------------------------
// Final and stored trust
// ---------------------------------------------------------------------------

/// Making trust final says what follows from the status and changes neither the
/// status nor any key. What was already said stays.
#[verifier::rlimit(60)]
pub proof fn law_final_trust(t: TrustView)
    ensures
        ({
            let f = device_trust::finalized(t);
            &&& f.status == t.status
            &&& f.current_edge_public_key == t.current_edge_public_key
            &&& f.previous_edge_public_keys == t.previous_edge_public_keys
            &&& f.revoked_edge_public_keys == t.revoked_edge_public_keys
            &&& f.revoked_at == t.revoked_at
            &&& f.rotated_at == t.rotated_at
            &&& f.last_trusted_registration_at == t.last_trusted_registration_at
            &&& f.enrollment_kind == t.enrollment_kind
            &&& f.status_reason == t.status_reason
            &&& f.can_dispatch == Some(t.status is Trusted || t.status is Rotated)
            &&& f.requires_attention <==> !(t.status is Trusted || t.status is Rotated)
            &&& f.label is Some && f.summary is Some
            &&& t.label is Some ==> f.label == t.label
            &&& t.summary is Some ==> f.summary == t.summary
            &&& t.detail is Some ==> f.detail == t.detail
            &&& t.detail is None ==> (f.detail is Some <==> t.status is Rotated)
            &&& t.reason is Some ==> f.reason == t.reason
            &&& t.reason is None ==> f.reason == t.status_reason
            &&& t.updated_at is Some ==> f.updated_at == t.updated_at
            &&& t.updated_at is None && t.revoked_at is Some ==> f.updated_at == t.revoked_at
            &&& t.updated_at is None && t.revoked_at is None && t.rotated_at is Some
                ==> f.updated_at == t.rotated_at
            &&& t.updated_at is None && t.revoked_at is None && t.rotated_at is None
                ==> f.updated_at == t.last_trusted_registration_at
        }),
        device_trust::finalized(device_trust::finalized(t)) == device_trust::finalized(t),
{
}

/// Reading stored trust: a revocation decides, a device with a key that was never
/// judged is trusted, and otherwise the status is what was stored. The key and
/// instant of the older layout count only where there is none of the present one.
#[verifier::rlimit(60)]
pub proof fn law_stored_trust(
    t: TrustView,
    legacy_key: Option<Seq<char>>,
    legacy_at: Option<Timestamp>,
)
    ensures
        ({
            let n = device_models::normal_trust(t, legacy_key, legacy_at);
            &&& t.revoked_at is Some ==> n.status is Revoked
            &&& t.revoked_at is None && t.status is Untrusted ==> n.status == if (
            t.current_edge_public_key is Some || legacy_key is Some) {
                DeviceTrustStatus::Trusted
            } else {
                DeviceTrustStatus::Untrusted
            }
            &&& t.revoked_at is None && !(t.status is Untrusted) ==> n.status == t.status
            &&& t.current_edge_public_key is Some ==> n.current_edge_public_key
                == t.current_edge_public_key
            &&& t.current_edge_public_key is None ==> n.current_edge_public_key == legacy_key
            &&& t.last_trusted_registration_at is Some ==> n.last_trusted_registration_at
                == t.last_trusted_registration_at
            &&& t.last_trusted_registration_at is None ==> n.last_trusted_registration_at
                == legacy_at
            &&& n.label is Some && (t.label is Some ==> n.label == t.label)
            &&& forall|k: Seq<char>| #[trigger]
                n.previous_edge_public_keys.contains(k) <==> t.previous_edge_public_keys.contains(k)
            &&& forall|k: Seq<char>| #[trigger]
                n.revoked_edge_public_keys.contains(k) <==> t.revoked_edge_public_keys.contains(k)
            &&& order::ascending(n.previous_edge_public_keys, order::by_text())
            &&& order::ascending(n.revoked_edge_public_keys, order::by_text())
            &&& n.revoked_at == t.revoked_at
            &&& n.rotated_at == t.rotated_at
            &&& n.summary == t.summary
            &&& n.detail == t.detail
            &&& n.reason == t.reason
            &&& n.status_reason == t.status_reason
            &&& n.enrollment_kind == t.enrollment_kind
            &&& n.updated_at == t.updated_at
            &&& n.can_dispatch == t.can_dispatch
            &&& n.requires_attention == t.requires_attention
        }),
{
    order::law_by_text_is_order();
    order::law_as_set(t.previous_edge_public_keys, order::by_text());
    order::law_as_set(t.revoked_edge_public_keys, order::by_text());
}

/// Each status is shown under a label, a summary and a name of its own.
#[verifier::rlimit(60)]
pub proof fn law_statuses_are_told_apart(a: DeviceTrustStatus, b: DeviceTrustStatus)
    requires
        a != b,
    ensures
        device_models::status_label(a) != device_models::status_label(b),
        device_trust::status_summary(a) != device_trust::status_summary(b),
        dispatch::status_name(a) != dispatch::status_name(b),
{
    reveal_strlit("Trusted");
    reveal_strlit("Rotated");
    reveal_strlit("Revoked");
    reveal_strlit("Untrusted");
    reveal_strlit("Needs Attention");
    reveal_strlit("trusted");
    reveal_strlit("rotated");
    reveal_strlit("revoked");
    reveal_strlit("untrusted");
    reveal_strlit("needs_attention");
    reveal_strlit("Trusted enrollment is active for this edge.");
    reveal_strlit("Trust material was rotated and should be verified before dispatch.");
    reveal_strlit("Trust for this edge has been revoked.");
    reveal_strlit("This edge has not completed trusted enrollment yet.");
    reveal_strlit("This edge needs trust review before it should be used for sensitive work.");
    assert("Trusted"@.len() == 7);
    assert("Untrusted"@.len() == 9);
    assert("Needs Attention"@.len() == 15);
    assert("Trusted enrollment is active for this edge."@.len() == 43);
    assert("Trust material was rotated and should be verified before dispatch."@.len() == 66);
    assert("Trust for this edge has been revoked."@.len() == 37);
    assert("This edge has not completed trusted enrollment yet."@.len() == 51);
    assert("This edge needs trust review before it should be used for sensitive work."@.len() == 73);
    assert("trusted"@.len() == 7);
    assert("untrusted"@.len() == 9);
    assert("needs_attention"@.len() == 15);
    assert("Trusted"@[0] != "Rotated"@[0]);
    assert("Rotated"@[2] != "Revoked"@[2]);
    assert("Trusted"@[0] != "Revoked"@[0]);
    assert("trusted"@[0] != "rotated"@[0]);
    assert("rotated"@[2] != "revoked"@[2]);
    assert("trusted"@[0] != "revoked"@[0]);
}

/// A device keeps what its row says, and falls back on the row's own instants
/// where nothing was registered or seen.
pub proof fn law_shown_device(row: DeviceRow)
    ensures
        ({
            let d = device_models::shown_device(row);
            &&& d.id == row.id@ && d.name == row.name@ && d.primary_flag == row.primary_flag
            &&& d.allowed_repos == row.metadata@.allowed_repos
            &&& d.allowed_repo_roots == row.metadata@.allowed_repo_roots
            &&& d.hidden_repos == row.metadata@.hidden_repos
            &&& d.excluded_repo_paths == row.metadata@.excluded_repo_paths
            &&& d.discovered_repos == row.metadata@.discovered_repos
            &&& d.repositories == row.metadata@.repositories
            &&& d.capabilities == row.metadata@.capabilities
            &&& d.last_probe == row.metadata@.last_probe
            &&& d.created_at == row.created_at && d.updated_at == row.updated_at
            &&& row.metadata@.registered_at is Some ==> row.metadata@.registered_at == Some(
                d.registered_at,
            )
            &&& row.metadata@.registered_at is None ==> d.registered_at == row.created_at
            &&& row.metadata@.last_seen_at is Some ==> row.metadata@.last_seen_at == Some(
                d.last_seen_at,
            )
            &&& row.metadata@.last_seen_at is None ==> d.last_seen_at == row.updated_at
            &&& row.metadata@.trust.revoked_at is Some ==> d.trust.status is Revoked
            &&& row.metadata@.trust.current_edge_public_key is None
                ==> d.trust.current_edge_public_key == row.metadata@.edge_public_key
        }),
{
}

/// What a registration asked for decides the kind of enrollment; a plain one is
/// told apart by whether the device is the primary one.
pub proof fn law_enrollment_kind(primary: bool, a: Option<RegistrationTrustIntent>)
    ensures
        a == Some(RegistrationTrustIntent::Rotate) ==> device_trust::kind_of_enrollment(primary, a)
            == "rotation"@,
        a == Some(RegistrationTrustIntent::Reenroll) ==> device_trust::kind_of_enrollment(
            primary,
            a,
        ) == "re_enrollment"@,
        a is None || a == Some(RegistrationTrustIntent::Enroll) ==> (
        device_trust::kind_of_enrollment(primary, a) == "primary"@ <==> primary) && (
        device_trust::kind_of_enrollment(primary, a) == "additional_edge"@ <==> !primary),
{
    reveal_strlit("primary");
    reveal_strlit("additional_edge");
    assert("primary"@.len() != "additional_edge"@.len());
}

// ---------------------------------------------------------------------------
// Registered, revoked and probed devices
// ---------------------------------------------------------------------------

/// Registering a device that has no key, with proof, makes it dispatchable under
/// that key once it is read back.
pub proof fn law_registered_device_gets_work(
    request: RegisterDeviceRequest,
    registration: TrustedRegistration,
    now: Timestamp,
    r: Result<DeviceMetadata, AppError>,
    row: DeviceRow,
)
    requires
        call_ensures(
            device_trust::registered_metadata,
            (None, request, Some(&registration), now),
            r,
        ),
        r matches Ok(m) ==> row.metadata@ == m@,
    ensures
        r is Ok,
        dispatch::is_dispatchable(device_models::shown_device(row)),
        device_models::shown_device(row).trust.current_edge_public_key == Some(
            registration.edge_public_key@,
        ),
        device_models::shown_device(row).registered_at == now,
        device_models::shown_device(row).last_seen_at == now,
{
}

/// Registering anew takes the lists of the request, tidied, and the present
/// instant as last seen. The first registration and the last probe stay on
/// record, and the fields of the older layout are emptied.
#[verifier::rlimit(60)]
pub proof fn law_registration_replaces_lists(
    existing: DeviceMetadata,
    request: RegisterDeviceRequest,
    registration: Option<&TrustedRegistration>,
    now: Timestamp,
    m: DeviceMetadata,
    item: Seq<char>,
)
    requires
        call_ensures(
            device_trust::registered_metadata,
            (Some(&existing), request, registration, now),
            Ok(m),
        ),
    ensures
        m@.allowed_repos.contains(item) <==> item.len() > 0 && text::trimmed(
            text::views(request.allowed_repos@),
        ).contains(item),
        m@.allowed_repo_roots.contains(item) <==> item.len() > 0 && text::trimmed(
            text::views(request.allowed_repo_roots@),
        ).contains(item),
        m@.hidden_repos.contains(item) <==> item.len() > 0 && text::trimmed(
            text::views(request.hidden_repos@),
        ).contains(item),
        m@.excluded_repo_paths.contains(item) <==> item.len() > 0 && text::trimmed(
            text::views(request.excluded_repo_paths@),
        ).contains(item),
        m@.discovered_repos.contains(item) <==> item.len() > 0 && text::trimmed(
            text::views(request.discovered_repos@),
        ).contains(item),
        m@.capabilities.contains(item) <==> item.len() > 0 && text::trimmed(
            text::views(request.capabilities@),
        ).contains(item),
        m@.last_seen_at == Some(now),
        existing.registered_at is Some ==> m@.registered_at == existing.registered_at,
        existing.registered_at is None ==> m@.registered_at == Some(now),
        m@.last_probe == existing@.last_probe,
        m@.edge_public_key is None,
        m@.last_trusted_registration_at is None,
        registration is None ==> m@.trust.current_edge_public_key == device_models::stored_trust(
            existing@,
        ).current_edge_public_key,
        registration matches Some(proof_of_key) ==> m@.trust.current_edge_public_key == Some(
            proof_of_key.edge_public_key@,
        ),
        m@.trust.enrollment_kind is Some,
        registration is None ==> (m@.trust.enrollment_kind == Some("primary"@)
            <==> request.primary_flag),
{
    lemma_sanitized(text::views(request.allowed_repos@), item);
    lemma_sanitized(text::views(request.allowed_repo_roots@), item);
    lemma_sanitized(text::views(request.hidden_repos@), item);
    lemma_sanitized(text::views(request.excluded_repo_paths@), item);
    lemma_sanitized(text::views(request.discovered_repos@), item);
    lemma_sanitized(text::views(request.capabilities@), item);
    reveal_strlit("primary");
    reveal_strlit("additional_edge");
    assert("primary"@.len() != "additional_edge"@.len());
}

proof fn lemma_sanitized(values: text::Texts, item: Seq<char>)
    ensures
        formatting::sanitized_list(values).contains(item) <==> item.len() > 0 && text::trimmed(
            values,
        ).contains(item),
{
    formatting::law_sanitized_members(values, item);
    if text::trimmed(values).contains(item) {
        let i = choose|i: int| 0 <= i < values.len() && text::trimmed(values)[i] == item;
        assert(text::trim(values[i]) == item);
    }
    if exists|i: int| 0 <= i < values.len() && text::trim(#[trigger] values[i]) == item {
        let i = choose|i: int| 0 <= i < values.len() && text::trim(#[trigger] values[i]) == item;
        assert(text::trimmed(values)[i] == item);
    }
}

/// A device and its name are needed to register, and are taken without the
/// spaces around them.
pub proof fn law_registration_identity(
    id: &str,
    name: &str,
    r: Result<(String, String), AppError>,
)
    requires
        call_ensures(device_trust::registration_identity, (id, name), r),
    ensures
        r is Ok <==> !text::is_blank(id@) && !text::is_blank(name@),
        r matches Ok(identity) ==> identity.0@ == text::trim(id@) && identity.1@ == text::trim(
            name@,
        ),
        r matches Err(e) ==> e.status is BadRequest,
{
}

/// Trust can be withdrawn exactly from a device that has a key or for a key that
/// is named. The named key comes first. Withdrawing puts that key on record,
/// keeps every key that was revoked before, takes the device out of work, and
/// leaves everything but the trust as it was.
#[verifier::rlimit(60)]
pub proof fn law_withdrawn_trust(
    metadata: DeviceMetadata,
    primary: bool,
    request: RevokeDeviceTrustRequest,
    now: Timestamp,
    r: Result<DeviceMetadata, AppError>,
    key: Seq<char>,
)
    requires
        call_ensures(device_trust::revoked_metadata, (metadata, primary, request, now), r),
    ensures
        r is Ok <==> (request.edge_public_key matches Some(named) && !text::is_blank(named@)) || (
        device_models::stored_trust(metadata@).current_edge_public_key is Some),
        r matches Err(e) ==> e.status is Conflict,
        r matches Ok(m) ==> {
            &&& m@.trust.status is Revoked
            &&& m@.trust.revoked_at == Some(now)
            &&& m@.trust.can_dispatch == Some(false)
            &&& m@.trust.requires_attention
            &&& (request.edge_public_key matches Some(named) && !text::is_blank(named@)
                ==> m@.trust.revoked_edge_public_keys.contains(
                text::trim(request.edge_public_key.unwrap()@),
            ))
            &&& (!(request.edge_public_key matches Some(named) && !text::is_blank(named@))
                ==> m@.trust.revoked_edge_public_keys.contains(
                device_models::stored_trust(metadata@).current_edge_public_key.unwrap(),
            ))
            &&& metadata@.trust.revoked_edge_public_keys.contains(key)
                ==> m@.trust.revoked_edge_public_keys.contains(key)
            &&& m@.trust.current_edge_public_key == device_models::stored_trust(
                metadata@,
            ).current_edge_public_key
            &&& (request.reason matches Some(reason) && !text::is_blank(reason@) ==> m@.trust.reason
                == Some(text::trim(request.reason.unwrap()@)))
            &&& m@.trust.reason is Some
            &&& metadata@.trust.enrollment_kind is Some ==> m@.trust.enrollment_kind
                == metadata@.trust.enrollment_kind
            &&& m@.allowed_repos == metadata@.allowed_repos
            &&& m@.allowed_repo_roots == metadata@.allowed_repo_roots
            &&& m@.hidden_repos == metadata@.hidden_repos
            &&& m@.excluded_repo_paths == metadata@.excluded_repo_paths
            &&& m@.discovered_repos == metadata@.discovered_repos
            &&& m@.repositories == metadata@.repositories
            &&& m@.capabilities == metadata@.capabilities
            &&& m@.registered_at == metadata@.registered_at
            &&& m@.last_seen_at == metadata@.last_seen_at
            &&& m@.last_probe == metadata@.last_probe
        },
{
    let t = device_models::stored_trust(metadata@);
    order::law_by_text_is_order();
    order::law_as_set(metadata@.trust.revoked_edge_public_keys, order::by_text());
    if let Some(k) = device_trust::revoked_key(t, text::opt(request.edge_public_key)) {
        let list = t.revoked_edge_public_keys.push(k);
        order::law_as_set(list, order::by_text());
        assert(list[list.len() - 1] == k);
        if t.revoked_edge_public_keys.contains(key) {
            let i = choose|i: int|
                0 <= i < t.revoked_edge_public_keys.len() && t.revoked_edge_public_keys[i] == key;
            assert(list[i] == key);
        }
    }
}

/// An answer counts exactly where it names the device and the probe that asked,
/// and is then taken as it is.
pub proof fn law_probe_answers(
    probe: AvailabilityProbeMessage,
    response: AvailabilitySnapshot,
    r: Result<AvailabilitySnapshot, AppError>,
)
    requires
        call_ensures(device_trust::accept_probe_response, (&probe, response), r),
    ensures
        r is Ok <==> response.device_id@ == probe.device_id@ && response.probe_id@
            == probe.probe_id@,
        r matches Ok(s) ==> s == response,
        r matches Err(e) ==> e.status is Internal,
{
}

/// An answered probe is the last one on record, its instant is when the device
/// was last seen, and nothing else of the device changes.
pub proof fn law_probe_is_recorded(
    metadata: DeviceMetadata,
    response: AvailabilitySnapshot,
    m: DeviceMetadata,
)
    requires
        call_ensures(device_trust::probed_metadata, (metadata, &response), m),
    ensures
        m@.last_probe == Some(response@),
        m@.last_seen_at == Some(response.responded_at),
        m@.registered_at == metadata@.registered_at,
        m@.trust == metadata@.trust,
        m@.edge_public_key == metadata@.edge_public_key,
        m@.last_trusted_registration_at == metadata@.last_trusted_registration_at,
        m@.allowed_repos == metadata@.allowed_repos,
        m@.allowed_repo_roots == metadata@.allowed_repo_roots,
        m@.hidden_repos == metadata@.hidden_repos,
        m@.excluded_repo_paths == metadata@.excluded_repo_paths,
        m@.discovered_repos == metadata@.discovered_repos,
        m@.repositories == metadata@.repositories,
        m@.capabilities == metadata@.capabilities,
{
}

/// A probe asks the device that it is sent to, and each device has a subject of
/// its own for probes, for work and for approvals.
pub proof fn law_subjects_are_told_apart(
    a: &str,
    b: &str,
    probe_a: String,
    probe_b: String,
    work_a: String,
    work_b: String,
    approval_a: String,
    approval_b: String,
)
    requires
        call_ensures(device_trust::probe_subject, (a,), probe_a),
        call_ensures(device_trust::probe_subject, (b,), probe_b),
        call_ensures(dispatch::dispatch_subject, (a,), work_a),
        call_ensures(dispatch::dispatch_subject, (b,), work_b),
        call_ensures(dispatch::approval_subject, (a,), approval_a),
        call_ensures(dispatch::approval_subject, (b,), approval_b),
    ensures
        probe_a@ == probe_b@ ==> a@ == b@,
        work_a@ == work_b@ ==> a@ == b@,
        approval_a@ == approval_b@ ==> a@ == b@,
        text::ends_with(probe_a@, a@),
        text::ends_with(work_a@, a@),
        text::ends_with(approval_a@, a@),
{
    let p = "elowen.devices.availability.probe."@;
    let w = "elowen.jobs.dispatch."@;
    let q = "elowen.jobs.approvals."@;
    assert(probe_a@.skip(p.len() as int) =~= a@);
    assert(probe_b@.skip(p.len() as int) =~= b@);
    assert(work_a@.skip(w.len() as int) =~= a@);
    assert(work_b@.skip(w.len() as int) =~= b@);
    assert(approval_a@.skip(q.len() as int) =~= a@);
    assert(approval_b@.skip(q.len() as int) =~= b@);
}

// ---------------------------------------------------------------------------
// Stored devices
// ---------------------------------------------------------------------------

/// The next state of a device's trust, for every state before it: a verified
/// registration with the device's own key makes it trusted, one with another key
/// rotated, and one without proof never trusted.
pub proof fn law_next_state(
    existing: DeviceTrustMetadata,
    registration: Option<&TrustedRegistration>,
    r: Result<DeviceTrustMetadata, AppError>,
)
    requires
        call_ensures(device_trust::next_device_trust_state, (existing, registration), r),
    ensures
        registration is None ==> r is Ok,
        registration matches Some(p) ==> (r is Ok <==> existing.revoked_at is None && !text::views(
            existing.revoked_edge_public_keys@,
        ).contains(p.edge_public_key@) && (existing.current_edge_public_key is None
            || existing.current_edge_public_key.unwrap()@ == p.edge_public_key@
            || !(p.registration_intent is Enroll))),
        registration matches Some(p) ==> (r matches Ok(next) ==> next@.current_edge_public_key
            == Some(p.edge_public_key@) && (next.status is Trusted <==> (
        existing.current_edge_public_key is None || existing.current_edge_public_key.unwrap()@
            == p.edge_public_key@)) && (next.status is Trusted || next.status is Rotated)),
        registration is None ==> (r matches Ok(next) ==> next@.current_edge_public_key
            == existing@.current_edge_public_key && (existing.current_edge_public_key is Some
            ==> next.status is AttentionRequired) && (existing.current_edge_public_key is None
            && existing.revoked_at is None ==> next.status is Untrusted)),
{
}

/// A device that is read from its row is the device that the row shows, and its
/// key and status are those of its stored trust.
pub proof fn law_device_from_row(row: DeviceRow, record: DeviceRecord)
    requires
        call_ensures(DeviceRecord::from_row, (row,), record),
    ensures
        record.id@ == row.id@,
        record.name@ == row.name@,
        record.primary_flag == row.primary_flag,
        record@.allowed_repos == row.metadata@.allowed_repos,
        record@.allowed_repo_roots == row.metadata@.allowed_repo_roots,
        record@.hidden_repos == row.metadata@.hidden_repos,
        record@.excluded_repo_paths == row.metadata@.excluded_repo_paths,
        record@.discovered_repos == row.metadata@.discovered_repos,
        record@.repositories == row.metadata@.repositories,
        record@.capabilities == row.metadata@.capabilities,
        record@.last_probe == row.metadata@.last_probe,
        record.created_at == row.created_at,
        record.updated_at == row.updated_at,
        row.metadata.trust.revoked_at is Some ==> record.trust.status is Revoked,
        row.metadata.trust.revoked_at is None && !(row.metadata.trust.status is Untrusted)
            ==> record.trust.status == row.metadata.trust.status,
        row.metadata@.trust.current_edge_public_key is Some ==> record@.trust.current_edge_public_key
            == row.metadata@.trust.current_edge_public_key,
        row.metadata@.trust.current_edge_public_key is None ==> record@.trust.current_edge_public_key
            == row.metadata@.edge_public_key,
{
}

/// A probe asks one device, on behalf of one job at most, at the instant of
/// sending.
pub proof fn law_probe_message(
    device_id: &str,
    job_id: Option<String>,
    now: Timestamp,
    probe: AvailabilityProbeMessage,
)
    requires
        call_ensures(device_trust::device_probe, (device_id, job_id, now), probe),
    ensures
        probe.device_id@ == device_id@,
        text::opt(probe.job_id) == text::opt(job_id),
        probe.sent_at == now,
        crate::ids::is_id(probe.probe_id@),
{
}

} // verus!
