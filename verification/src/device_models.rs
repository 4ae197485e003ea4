//! Records of devices and of the trust in them.

use crate::models::DeviceRepository;
use crate::order;
use crate::order::RepositoryView;
use crate::scan::{copy_opt, copy_texts};
use crate::text;
use crate::time::Timestamp;
use vstd::prelude::*;

verus! {

/// What a device registers for.
#[derive(Clone, Copy, Debug, PartialEq, Eq, Structural)]
pub enum RegistrationTrustIntent {
    /// First enrollment, or a refresh with the same key.
    Enroll,
    /// A new key takes the place of the present one.
    Rotate,
    /// The device starts over.
    Reenroll,
}

/// Whether a device is trusted.
#[derive(Clone, Copy, Debug, PartialEq, Eq, Structural)]
pub enum DeviceTrustStatus {
    /// No trusted enrollment yet.
    Untrusted,
    /// Enrolled.
    Trusted,
    /// Enrolled with a new key that nobody has confirmed yet.
    Rotated,
    /// Trust was withdrawn.
    Revoked,
    /// Someone has to look at it.
    AttentionRequired,
}

/// What is known of the trust in a device.
#[derive(Debug, PartialEq, Eq)]
pub struct DeviceTrustMetadata {
    pub status: DeviceTrustStatus,
    pub label: Option<String>,
    pub summary: Option<String>,
    pub detail: Option<String>,
    pub reason: Option<String>,
    pub enrollment_kind: Option<String>,
    pub current_edge_public_key: Option<String>,
    pub previous_edge_public_keys: Vec<String>,
    pub revoked_edge_public_keys: Vec<String>,
    pub last_trusted_registration_at: Option<Timestamp>,
    pub rotated_at: Option<Timestamp>,
    pub revoked_at: Option<Timestamp>,
    pub status_reason: Option<String>,
    pub last_orchestrator_key_id: Option<String>,
    pub last_orchestrator_public_key: Option<String>,
    pub last_registration_intent: Option<RegistrationTrustIntent>,
    pub updated_at: Option<Timestamp>,
    pub can_dispatch: Option<bool>,
    pub requires_attention: bool,
}

/// The model of the trust in a device.
#[verifier::ext_equal]
pub struct TrustView {
    pub status: DeviceTrustStatus,
    pub label: Option<Seq<char>>,
    pub summary: Option<Seq<char>>,
    pub detail: Option<Seq<char>>,
    pub reason: Option<Seq<char>>,
    pub enrollment_kind: Option<Seq<char>>,
    pub current_edge_public_key: Option<Seq<char>>,
    pub previous_edge_public_keys: text::Texts,
    pub revoked_edge_public_keys: text::Texts,
    pub last_trusted_registration_at: Option<Timestamp>,
    pub rotated_at: Option<Timestamp>,
    pub revoked_at: Option<Timestamp>,
    pub status_reason: Option<Seq<char>>,
    pub last_orchestrator_key_id: Option<Seq<char>>,
    pub last_orchestrator_public_key: Option<Seq<char>>,
    pub last_registration_intent: Option<RegistrationTrustIntent>,
    pub updated_at: Option<Timestamp>,
    pub can_dispatch: Option<bool>,
    pub requires_attention: bool,
}

impl View for DeviceTrustMetadata {
    type V = TrustView;

    open spec fn view(&self) -> TrustView {
        TrustView {
            status: self.status,
            label: text::opt(self.label),
            summary: text::opt(self.summary),
            detail: text::opt(self.detail),
            reason: text::opt(self.reason),
            enrollment_kind: text::opt(self.enrollment_kind),
            current_edge_public_key: text::opt(self.current_edge_public_key),
            previous_edge_public_keys: text::views(self.previous_edge_public_keys@),
            revoked_edge_public_keys: text::views(self.revoked_edge_public_keys@),
            last_trusted_registration_at: self.last_trusted_registration_at,
            rotated_at: self.rotated_at,
            revoked_at: self.revoked_at,
            status_reason: text::opt(self.status_reason),
            last_orchestrator_key_id: text::opt(self.last_orchestrator_key_id),
            last_orchestrator_public_key: text::opt(self.last_orchestrator_public_key),
            last_registration_intent: self.last_registration_intent,
            updated_at: self.updated_at,
            can_dispatch: self.can_dispatch,
            requires_attention: self.requires_attention,
        }
    }
}

/// Nothing known of the trust in a device.
pub open spec fn no_trust() -> TrustView {
    TrustView {
        status: DeviceTrustStatus::Untrusted,
        label: None,
        summary: None,
        detail: None,
        reason: None,
        enrollment_kind: None,
        current_edge_public_key: None,
        previous_edge_public_keys: Seq::empty(),
        revoked_edge_public_keys: Seq::empty(),
        last_trusted_registration_at: None,
        rotated_at: None,
        revoked_at: None,
        status_reason: None,
        last_orchestrator_key_id: None,
        last_orchestrator_public_key: None,
        last_registration_intent: None,
        updated_at: None,
        can_dispatch: None,
        requires_attention: false,
    }
}

/// The label of a status.
pub open spec fn status_label(status: DeviceTrustStatus) -> Seq<char> {
    match status {
        DeviceTrustStatus::Trusted => "Trusted"@,
        DeviceTrustStatus::Rotated => "Rotated"@,
        DeviceTrustStatus::Revoked => "Revoked"@,
        DeviceTrustStatus::Untrusted => "Untrusted"@,
        DeviceTrustStatus::AttentionRequired => "Needs Attention"@,
    }
}

/// The label of a status.
pub fn trust_status_label(status: DeviceTrustStatus) -> (r: &'static str)
    ensures
        r@ == status_label(status),
{
    match status {
        DeviceTrustStatus::Trusted => "Trusted",
        DeviceTrustStatus::Rotated => "Rotated",
        DeviceTrustStatus::Revoked => "Revoked",
        DeviceTrustStatus::Untrusted => "Untrusted",
        DeviceTrustStatus::AttentionRequired => "Needs Attention",
    }
}

/// The status that the stored facts imply.
pub open spec fn implied_status(
    status: DeviceTrustStatus,
    revoked: bool,
    has_key: bool,
) -> DeviceTrustStatus {
    if revoked {
        DeviceTrustStatus::Revoked
    } else if status is Untrusted && has_key {
        DeviceTrustStatus::Trusted
    } else {
        status
    }
}

/// Stored trust in its normal form: older fields are taken over, the key lists
/// are ascending sets, and the status agrees with the rest.
pub open spec fn normal_trust(
    t: TrustView,
    legacy_key: Option<Seq<char>>,
    legacy_at: Option<Timestamp>,
) -> TrustView {
    let key = text::or_else(t.current_edge_public_key, legacy_key);
    let status = implied_status(t.status, t.revoked_at is Some, key is Some);
    TrustView {
        status,
        label: Some(text::or_value(t.label, status_label(status))),
        current_edge_public_key: key,
        last_trusted_registration_at: text::or_else(t.last_trusted_registration_at, legacy_at),
        previous_edge_public_keys: order::as_set(t.previous_edge_public_keys, order::by_text()),
        revoked_edge_public_keys: order::as_set(t.revoked_edge_public_keys, order::by_text()),
        ..t
    }
}

impl Default for DeviceTrustMetadata {
    fn default() -> (r: DeviceTrustMetadata)
        ensures
            r@ == no_trust(),
    {
        let r = DeviceTrustMetadata {
            status: DeviceTrustStatus::Untrusted,
            label: None,
            summary: None,
            detail: None,
            reason: None,
            enrollment_kind: None,
            current_edge_public_key: None,
            previous_edge_public_keys: Vec::new(),
            revoked_edge_public_keys: Vec::new(),
            last_trusted_registration_at: None,
            rotated_at: None,
            revoked_at: None,
            status_reason: None,
            last_orchestrator_key_id: None,
            last_orchestrator_public_key: None,
            last_registration_intent: None,
            updated_at: None,
            can_dispatch: None,
            requires_attention: false,
        };
        assert(r@ =~= no_trust());
        r
    }
}

impl DeviceTrustMetadata {
    /// A copy.
    pub fn copy(&self) -> (r: DeviceTrustMetadata)
        ensures
            r@ == self@,
    {
        DeviceTrustMetadata {
            status: self.status,
            label: copy_opt(&self.label),
            summary: copy_opt(&self.summary),
            detail: copy_opt(&self.detail),
            reason: copy_opt(&self.reason),
            enrollment_kind: copy_opt(&self.enrollment_kind),
            current_edge_public_key: copy_opt(&self.current_edge_public_key),
            previous_edge_public_keys: copy_texts(self.previous_edge_public_keys.as_slice()),
            revoked_edge_public_keys: copy_texts(self.revoked_edge_public_keys.as_slice()),
            last_trusted_registration_at: self.last_trusted_registration_at,
            rotated_at: self.rotated_at,
            revoked_at: self.revoked_at,
            status_reason: copy_opt(&self.status_reason),
            last_orchestrator_key_id: copy_opt(&self.last_orchestrator_key_id),
            last_orchestrator_public_key: copy_opt(&self.last_orchestrator_public_key),
            last_registration_intent: self.last_registration_intent,
            updated_at: self.updated_at,
            can_dispatch: self.can_dispatch,
            requires_attention: self.requires_attention,
        }
    }

    /// Stored trust in its normal form.
    pub fn normalized(
        self,
        legacy_edge_public_key: Option<String>,
        legacy_last_trusted_registration_at: Option<Timestamp>,
    ) -> (r: DeviceTrustMetadata)
        ensures
            r@ == normal_trust(
                self@,
                text::opt(legacy_edge_public_key),
                legacy_last_trusted_registration_at,
            ),
    {
        let current_edge_public_key = match self.current_edge_public_key {
            Some(key) => Some(key),
            None => legacy_edge_public_key,
        };
        let last_trusted_registration_at = match self.last_trusted_registration_at {
            Some(at) => Some(at),
            None => legacy_last_trusted_registration_at,
        };
        let status = if self.revoked_at.is_some() {
            DeviceTrustStatus::Revoked
        } else {
            match self.status {
                DeviceTrustStatus::Untrusted => if current_edge_public_key.is_some() {
                    DeviceTrustStatus::Trusted
                } else {
                    DeviceTrustStatus::Untrusted
                },
                other => other,
            }
        };
        let label = match self.label {
            Some(label) => Some(label),
            None => Some(trust_status_label(status).to_string()),
        };
        let previous_edge_public_keys = order::text_set(self.previous_edge_public_keys.as_slice());
        let revoked_edge_public_keys = order::text_set(self.revoked_edge_public_keys.as_slice());
        DeviceTrustMetadata {
            status,
            label,
            current_edge_public_key,
            last_trusted_registration_at,
            previous_edge_public_keys,
            revoked_edge_public_keys,
            ..self
        }
    }
}

/// The answer of a device to a probe.
#[derive(Debug)]
pub struct AvailabilitySnapshot {
    pub probe_id: String,
    pub job_id: Option<String>,
    pub device_id: String,
    pub available: bool,
    pub reason: String,
    pub responded_at: Timestamp,
}

/// The model of an answer to a probe.
pub struct SnapshotView {
    pub probe_id: Seq<char>,
    pub job_id: Option<Seq<char>>,
    pub device_id: Seq<char>,
    pub available: bool,
    pub reason: Seq<char>,
    pub responded_at: Timestamp,
}

impl View for AvailabilitySnapshot {
    type V = SnapshotView;

    open spec fn view(&self) -> SnapshotView {
        SnapshotView {
            probe_id: self.probe_id@,
            job_id: text::opt(self.job_id),
            device_id: self.device_id@,
            available: self.available,
            reason: self.reason@,
            responded_at: self.responded_at,
        }
    }
}

impl AvailabilitySnapshot {
    /// A copy.
    pub fn copy(&self) -> (r: AvailabilitySnapshot)
        ensures
            r@ == self@,
    {
        AvailabilitySnapshot {
            probe_id: self.probe_id.clone(),
            job_id: copy_opt(&self.job_id),
            device_id: self.device_id.clone(),
            available: self.available,
            reason: self.reason.clone(),
            responded_at: self.responded_at,
        }
    }
}

/// The model of an answer that may be absent.
pub open spec fn opt_snapshot(snapshot: Option<AvailabilitySnapshot>) -> Option<SnapshotView> {
    match snapshot {
        Some(s) => Some(s@),
        None => None,
    }
}

/// What a device says of itself, with the trust in it.
#[derive(Debug)]
pub struct DeviceMetadata {
    pub allowed_repos: Vec<String>,
    pub allowed_repo_roots: Vec<String>,
    pub hidden_repos: Vec<String>,
    pub excluded_repo_paths: Vec<String>,
    pub discovered_repos: Vec<String>,
    pub repositories: Vec<DeviceRepository>,
    pub capabilities: Vec<String>,
    pub registered_at: Option<Timestamp>,
    pub last_seen_at: Option<Timestamp>,
    pub last_probe: Option<AvailabilitySnapshot>,
    pub trust: DeviceTrustMetadata,
    pub edge_public_key: Option<String>,
    pub last_trusted_registration_at: Option<Timestamp>,
}

/// The model of the metadata of a device.
pub struct MetadataView {
    pub allowed_repos: text::Texts,
    pub allowed_repo_roots: text::Texts,
    pub hidden_repos: text::Texts,
    pub excluded_repo_paths: text::Texts,
    pub discovered_repos: text::Texts,
    pub repositories: Seq<RepositoryView>,
    pub capabilities: text::Texts,
    pub registered_at: Option<Timestamp>,
    pub last_seen_at: Option<Timestamp>,
    pub last_probe: Option<SnapshotView>,
    pub trust: TrustView,
    pub edge_public_key: Option<Seq<char>>,
    pub last_trusted_registration_at: Option<Timestamp>,
}

impl View for DeviceMetadata {
    type V = MetadataView;

    open spec fn view(&self) -> MetadataView {
        MetadataView {
            allowed_repos: text::views(self.allowed_repos@),
            allowed_repo_roots: text::views(self.allowed_repo_roots@),
            hidden_repos: text::views(self.hidden_repos@),
            excluded_repo_paths: text::views(self.excluded_repo_paths@),
            discovered_repos: text::views(self.discovered_repos@),
            repositories: order::repository_views(self.repositories@),
            capabilities: text::views(self.capabilities@),
            registered_at: self.registered_at,
            last_seen_at: self.last_seen_at,
            last_probe: opt_snapshot(self.last_probe),
            trust: self.trust@,
            edge_public_key: text::opt(self.edge_public_key),
            last_trusted_registration_at: self.last_trusted_registration_at,
        }
    }
}

/// The trust in a device that its metadata holds, in its normal form.
pub open spec fn stored_trust(m: MetadataView) -> TrustView {
    normal_trust(m.trust, m.edge_public_key, m.last_trusted_registration_at)
}

/// A stored device.
#[derive(Debug)]
pub struct DeviceRow {
    pub id: String,
    pub name: String,
    pub primary_flag: bool,
    pub metadata: DeviceMetadata,
    pub created_at: Timestamp,
    pub updated_at: Timestamp,
}

/// A device as the API shows it.
#[derive(Debug)]
pub struct DeviceRecord {
    pub id: String,
    pub name: String,
    pub primary_flag: bool,
    pub allowed_repos: Vec<String>,
    pub allowed_repo_roots: Vec<String>,
    pub hidden_repos: Vec<String>,
    pub excluded_repo_paths: Vec<String>,
    pub discovered_repos: Vec<String>,
    pub repositories: Vec<DeviceRepository>,
    pub capabilities: Vec<String>,
    pub registered_at: Timestamp,
    pub last_seen_at: Timestamp,
    pub last_probe: Option<AvailabilitySnapshot>,
    pub trust: DeviceTrustMetadata,
    pub created_at: Timestamp,
    pub updated_at: Timestamp,
}

/// The model of a device.
pub struct DeviceView {
    pub id: Seq<char>,
    pub name: Seq<char>,
    pub primary_flag: bool,
    pub allowed_repos: text::Texts,
    pub allowed_repo_roots: text::Texts,
    pub hidden_repos: text::Texts,
    pub excluded_repo_paths: text::Texts,
    pub discovered_repos: text::Texts,
    pub repositories: Seq<RepositoryView>,
    pub capabilities: text::Texts,
    pub registered_at: Timestamp,
    pub last_seen_at: Timestamp,
    pub last_probe: Option<SnapshotView>,
    pub trust: TrustView,
    pub created_at: Timestamp,
    pub updated_at: Timestamp,
}

impl View for DeviceRecord {
    type V = DeviceView;

    open spec fn view(&self) -> DeviceView {
        DeviceView {
            id: self.id@,
            name: self.name@,
            primary_flag: self.primary_flag,
            allowed_repos: text::views(self.allowed_repos@),
            allowed_repo_roots: text::views(self.allowed_repo_roots@),
            hidden_repos: text::views(self.hidden_repos@),
            excluded_repo_paths: text::views(self.excluded_repo_paths@),
            discovered_repos: text::views(self.discovered_repos@),
            repositories: order::repository_views(self.repositories@),
            capabilities: text::views(self.capabilities@),
            registered_at: self.registered_at,
            last_seen_at: self.last_seen_at,
            last_probe: opt_snapshot(self.last_probe),
            trust: self.trust@,
            created_at: self.created_at,
            updated_at: self.updated_at,
        }
    }
}

/// A stored device as the API shows it.
pub open spec fn shown_device(row: DeviceRow) -> DeviceView {
    DeviceView {
        id: row.id@,
        name: row.name@,
        primary_flag: row.primary_flag,
        allowed_repos: row.metadata@.allowed_repos,
        allowed_repo_roots: row.metadata@.allowed_repo_roots,
        hidden_repos: row.metadata@.hidden_repos,
        excluded_repo_paths: row.metadata@.excluded_repo_paths,
        discovered_repos: row.metadata@.discovered_repos,
        repositories: row.metadata@.repositories,
        capabilities: row.metadata@.capabilities,
        registered_at: text::or_value(row.metadata@.registered_at, row.created_at),
        last_seen_at: text::or_value(row.metadata@.last_seen_at, row.updated_at),
        last_probe: row.metadata@.last_probe,
        trust: stored_trust(row.metadata@),
        created_at: row.created_at,
        updated_at: row.updated_at,
    }
}

impl DeviceRecord {
    /// A stored device as the API shows it.
    pub fn from_row(row: DeviceRow) -> (r: DeviceRecord)
        ensures
            r@ == shown_device(row),
    {
        let metadata = row.metadata;
        let registered_at = match metadata.registered_at {
            Some(at) => at,
            None => row.created_at,
        };
        let last_seen_at = match metadata.last_seen_at {
            Some(at) => at,
            None => row.updated_at,
        };
        let trust = metadata.trust.normalized(
            metadata.edge_public_key,
            metadata.last_trusted_registration_at,
        );
        DeviceRecord {
            id: row.id,
            name: row.name,
            primary_flag: row.primary_flag,
            allowed_repos: metadata.allowed_repos,
            allowed_repo_roots: metadata.allowed_repo_roots,
            hidden_repos: metadata.hidden_repos,
            excluded_repo_paths: metadata.excluded_repo_paths,
            discovered_repos: metadata.discovered_repos,
            repositories: metadata.repositories,
            capabilities: metadata.capabilities,
            registered_at,
            last_seen_at,
            last_probe: metadata.last_probe,
            trust,
            created_at: row.created_at,
            updated_at: row.updated_at,
        }
    }
}

/// Normalizing twice is normalizing once.
pub proof fn law_normal_trust_is_stable(
    t: TrustView,
    legacy_key: Option<Seq<char>>,
    legacy_at: Option<Timestamp>,
)
    ensures
        normal_trust(normal_trust(t, legacy_key, legacy_at), None, None) == normal_trust(
            t,
            legacy_key,
            legacy_at,
        ),
{
    let once = normal_trust(t, legacy_key, legacy_at);
    order::law_by_text_is_order();
    order::law_as_set(t.previous_edge_public_keys, order::by_text());
    order::law_as_set(t.revoked_edge_public_keys, order::by_text());
    order::law_ascending_is_set(once.previous_edge_public_keys, order::by_text());
    order::law_ascending_is_set(once.revoked_edge_public_keys, order::by_text());
}

/// A device whose trust was withdrawn has the status of it.
pub proof fn law_revoked_stays_revoked(
    t: TrustView,
    legacy_key: Option<Seq<char>>,
    legacy_at: Option<Timestamp>,
)
    requires
        t.revoked_at is Some,
    ensures
        normal_trust(t, legacy_key, legacy_at).status is Revoked,
{
}

} // verus!
