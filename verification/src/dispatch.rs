//! Jobs: which device may take one, and what happens from its creation to its
//! dispatch.

use crate::device_models::{AvailabilitySnapshot, DeviceRecord, DeviceTrustStatus, DeviceView};
use crate::devices;
use crate::devices::selectable_repo_names;
use crate::drafts;
use crate::drafts::infer_execution_intent;
use crate::error;
use crate::error::{AppError, ErrorStatus, ErrorView};
use crate::formatting;
use crate::formatting::{holds_text, sanitize_optional_string, slugify};
use crate::ids;
use crate::ids::fresh_id;
use crate::json;
use crate::json::{Json, JsonObject, JsonView};
use crate::models::{ApprovalRecord, ExecutionIntent, JobRecord, JobTargetKind};
use crate::scan;
use crate::scan::{chars_of, copy_opt, opt_slice, same_text, text_of, trim_text};
use crate::text;
use crate::time;
use crate::time::Timestamp;
use vstd::prelude::*;

verus! {

// ---------------------------------------------------------------------------
// Devices
// ---------------------------------------------------------------------------

/// The name of a status in messages.
pub open spec fn status_name(status: DeviceTrustStatus) -> Seq<char> {
    match status {
        DeviceTrustStatus::Trusted => "trusted"@,
        DeviceTrustStatus::Rotated => "rotated"@,
        DeviceTrustStatus::Revoked => "revoked"@,
        DeviceTrustStatus::Untrusted => "untrusted"@,
        DeviceTrustStatus::AttentionRequired => "needs_attention"@,
    }
}

/// The device is trusted, and nothing known of it keeps work from it.
pub open spec fn is_dispatchable(device: DeviceView) -> bool {
    device.trust.can_dispatch != Some(false) && !device.trust.requires_attention
        && device.trust.status is Trusted
}

/// The refusal of a device that is not trusted.
pub open spec fn untrusted_device(device: DeviceView) -> ErrorView {
    error::coded(
        ErrorStatus::Conflict,
        "device `"@ + device.id + "` is not trusted for dispatch; trust status is "@ + status_name(
            device.trust.status,
        ),
        "dispatch_device_not_trusted"@,
    )
}

/// Succeeds where work may go to the device.
pub fn ensure_device_trusted_for_dispatch(device: &DeviceRecord) -> (r: Result<(), AppError>)
    ensures
        match r {
            Ok(_) => is_dispatchable(device@),
            Err(e) => !is_dispatchable(device@) && e@ == untrusted_device(device@),
        },
{
    let status = match device.trust.status {
        DeviceTrustStatus::Trusted => "trusted",
        DeviceTrustStatus::Rotated => "rotated",
        DeviceTrustStatus::Revoked => "revoked",
        DeviceTrustStatus::Untrusted => "untrusted",
        DeviceTrustStatus::AttentionRequired => "needs_attention",
    };
    let barred = match device.trust.can_dispatch {
        Some(allowed) => !allowed,
        None => false,
    };
    let trusted = match device.trust.status {
        DeviceTrustStatus::Trusted => true,
        _ => false,
    };
    if barred || device.trust.requires_attention || !trusted {
        let message = "device `".to_string().concat(device.id.as_str()).concat(
            "` is not trusted for dispatch; trust status is ",
        ).concat(status);
        return Err(
            AppError::conflict(message.as_str()).with_code("dispatch_device_not_trusted"),
        );
    }
    Ok(())
}

/// The device says which repositories it takes.
pub open spec fn has_repo_scope(device: DeviceView) -> bool {
    device.allowed_repos.len() > 0 || device.allowed_repo_roots.len() > 0
        || device.discovered_repos.len() > 0
}

/// Whether the device says which repositories it takes.
pub fn device_has_repo_scope(device: &DeviceRecord) -> (r: bool)
    ensures
        r == has_repo_scope(device@),
{
    device.allowed_repos.len() > 0 || device.allowed_repo_roots.len() > 0
        || device.discovered_repos.len() > 0
}

/// The device takes work on the target.
pub open spec fn takes_target(device: DeviceView, kind: JobTargetKind, name: Seq<char>) -> bool {
    match kind {
        JobTargetKind::Repository => !has_repo_scope(device) || devices::selectable_names(
            device,
        ).contains(name),
        JobTargetKind::Capability => text::trimmed(device.capabilities).contains(name),
    }
}

/// The refusal of a target that the device does not take.
pub open spec fn target_refused(kind: JobTargetKind) -> ErrorView {
    match kind {
        JobTargetKind::Repository => error::plain(
            ErrorStatus::BadRequest,
            "device is not allowed to run the requested repository"@,
        ),
        JobTargetKind::Capability => error::plain(
            ErrorStatus::BadRequest,
            "device does not advertise the requested capability"@,
        ),
    }
}

fn advertises(capabilities: &[String], name: &str) -> (r: bool)
    ensures
        r == text::trimmed(text::views(capabilities@)).contains(name@),
{
    let ghost model = text::trimmed(text::views(capabilities@));
    let mut i: usize = 0;
    while i < capabilities.len()
        invariant
            i <= capabilities@.len(),
            model == text::trimmed(text::views(capabilities@)),
            forall|j: int| 0 <= j < i ==> model[j] != name@,
        decreases capabilities@.len() - i,
    {
        if same_text(trim_text(capabilities[i].as_str()).as_str(), name) {
            assert(model[i as int] == name@);
            return true;
        }
        i += 1;
    }
    false
}

/// Succeeds where the device takes work on the target.
pub fn ensure_target_allowed(
    device: &DeviceRecord,
    target_kind: &JobTargetKind,
    target_name: &str,
) -> (r: Result<(), AppError>)
    ensures
        match r {
            Ok(_) => takes_target(device@, *target_kind, target_name@),
            Err(e) => !takes_target(device@, *target_kind, target_name@) && e@ == target_refused(
                *target_kind,
            ),
        },
{
    match target_kind {
        JobTargetKind::Repository => {
            if !device_has_repo_scope(device) {
                return Ok(());
            }
            if holds_text(selectable_repo_names(device).as_slice(), target_name) {
                return Ok(());
            }
            Err(AppError::bad_request("device is not allowed to run the requested repository"))
        },
        JobTargetKind::Capability => {
            if advertises(device.capabilities.as_slice(), target_name) {
                return Ok(());
            }
            Err(AppError::bad_request("device does not advertise the requested capability"))
        },
    }
}

/// The device may take the work.
pub open spec fn is_eligible(device: DeviceView, kind: JobTargetKind, name: Seq<char>) -> bool {
    is_dispatchable(device) && takes_target(device, kind, name)
}

/// The device that a request names, where it names one.
pub fn requested_device_id(device_id: &Option<String>) -> (r: Option<String>)
    ensures
        text::opt(r) == text::present(text::opt(*device_id)),
{
    sanitize_optional_string(copy_opt(device_id))
}

/// The devices that a job may go to.
#[derive(Debug)]
pub enum DeviceChoice {
    /// The one that the request names.
    Requested(DeviceRecord),
    /// All, in the order of preference.
    Any(Vec<DeviceRecord>),
}

/// The first device in the list that may take the work.
pub open spec fn first_eligible(
    devices: Seq<DeviceRecord>,
    kind: JobTargetKind,
    name: Seq<char>,
    i: int,
) -> bool {
    0 <= i < devices.len() && is_eligible(devices[i]@, kind, name) && forall|j: int|
        0 <= j < i ==> !is_eligible(#[trigger] devices[j]@, kind, name)
}

/// The first device in the list that may take the work.
fn first_eligible_device(
    devices: Vec<DeviceRecord>,
    target_kind: &JobTargetKind,
    target_name: &str,
) -> (r: Result<DeviceRecord, AppError>)
    ensures
        match r {
            Ok(d) => exists|i: int|
                #[trigger] first_eligible(devices@, *target_kind, target_name@, i) && d
                    == devices@[i],
            Err(e) => (forall|i: int|
                0 <= i < devices@.len() ==> !is_eligible(
                    #[trigger] devices@[i]@,
                    *target_kind,
                    target_name@,
                )) && e@ == error::plain(
                ErrorStatus::Conflict,
                "no registered device is eligible for the requested "@ + target_kind.name(),
            ),
        },
{
    let ghost list = devices@;
    let mut devices = devices;
    let mut i: usize = 0;
    while i < devices.len()
        invariant
            i <= devices@.len(),
            devices@ == list,
            forall|j: int|
                0 <= j < i ==> !is_eligible(#[trigger] list[j]@, *target_kind, target_name@),
        ensures
            i < devices@.len() ==> is_eligible(list[i as int]@, *target_kind, target_name@),
        decreases devices@.len() - i,
    {
        let trusted = ensure_device_trusted_for_dispatch(&devices[i]).is_ok();
        let eligible = trusted && ensure_target_allowed(
            &devices[i],
            target_kind,
            target_name,
        ).is_ok();
        if eligible {
            break;
        }
        i += 1;
    }
    if i < devices.len() {
        assert(first_eligible(list, *target_kind, target_name@, i as int));
        return Ok(devices.swap_remove(i));
    }
    let message = "no registered device is eligible for the requested ".to_string().concat(
        target_kind.as_str(),
    );
    Err(AppError::conflict(message.as_str()))
}

/// The device that the job goes to: the one that was asked for, where it may
/// take the work, else the first that may.
pub fn select_dispatch_device(
    choice: DeviceChoice,
    target_kind: &JobTargetKind,
    target_name: &str,
) -> (r: Result<DeviceRecord, AppError>)
    ensures
        match choice {
            DeviceChoice::Requested(device) => match r {
                Ok(d) => d == device && is_eligible(device@, *target_kind, target_name@),
                Err(e) => if !is_dispatchable(device@) {
                    e@ == untrusted_device(device@)
                } else {
                    !takes_target(device@, *target_kind, target_name@) && e@ == target_refused(
                        *target_kind,
                    )
                },
            },
            DeviceChoice::Any(devices) => match r {
                Ok(d) => exists|i: int|
                    #[trigger] first_eligible(devices@, *target_kind, target_name@, i) && d
                        == devices@[i],
                Err(e) => (forall|i: int|
                    0 <= i < devices@.len() ==> !is_eligible(
                        #[trigger] devices@[i]@,
                        *target_kind,
                        target_name@,
                    )) && e@ == error::plain(
                    ErrorStatus::Conflict,
                    "no registered device is eligible for the requested "@ + target_kind.name(),
                ),
            },
        },
{
    match choice {
        DeviceChoice::Requested(device) => {
            match ensure_device_trusted_for_dispatch(&device) {
                Ok(_) => {},
                Err(e) => return Err(e),
            }
            match ensure_target_allowed(&device, target_kind, target_name) {
                Ok(_) => Ok(device),
                Err(e) => Err(e),
            }
        },
        DeviceChoice::Any(devices) => first_eligible_device(devices, target_kind, target_name),
    }
}

// ---------------------------------------------------------------------------
// Plans
// ---------------------------------------------------------------------------

/// A request for a job.
#[derive(Debug)]
pub struct CreateJobRequest {
    pub title: String,
    pub prompt: String,
    pub target_kind: JobTargetKind,
    pub target_name: Option<String>,
    pub base_branch: Option<String>,
    pub device_id: Option<String>,
    pub execution_intent: Option<ExecutionIntent>,
}

/// The intent of a job: the one that is asked for, else the one that the prompt
/// reads like.
pub fn requested_intent(request: &CreateJobRequest) -> (r: ExecutionIntent)
    ensures
        r == text::or_value(
            request.execution_intent,
            drafts::inferred_intent(request.prompt@),
        ),
{
    match request.execution_intent {
        Some(intent) => intent,
        None => infer_execution_intent(request.prompt.as_str()),
    }
}

/// A job that is asked for in full.
#[derive(Debug)]
pub struct JobPlan {
    pub title: String,
    pub prompt: String,
    pub target_kind: JobTargetKind,
    pub target_name: String,
    pub base_branch: Option<String>,
    pub execution_intent: ExecutionIntent,
}

/// The model of a plan.
pub struct PlanView {
    pub title: Seq<char>,
    pub prompt: Seq<char>,
    pub target_kind: JobTargetKind,
    pub target_name: Seq<char>,
    pub base_branch: Option<Seq<char>>,
    pub execution_intent: ExecutionIntent,
}

impl View for JobPlan {
    type V = PlanView;

    open spec fn view(&self) -> PlanView {
        PlanView {
            title: self.title@,
            prompt: self.prompt@,
            target_kind: self.target_kind,
            target_name: self.target_name@,
            base_branch: text::opt(self.base_branch),
            execution_intent: self.execution_intent,
        }
    }
}

impl PlanView {
    /// The repository, where the plan is about one.
    pub open spec fn repo_name(self) -> Option<Seq<char>> {
        match self.target_kind {
            JobTargetKind::Repository => Some(self.target_name),
            JobTargetKind::Capability => None,
        }
    }

    /// The capability, where the plan is about one.
    pub open spec fn capability_name(self) -> Option<Seq<char>> {
        match self.target_kind {
            JobTargetKind::Repository => None,
            JobTargetKind::Capability => Some(self.target_name),
        }
    }
}

/// What a request lacks.
pub open spec fn request_gap(request: CreateJobRequest) -> Option<ErrorView> {
    if text::is_blank(request.title@) {
        Some(error::plain(ErrorStatus::BadRequest, "job title is required"@))
    } else if text::is_blank(request.prompt@) {
        Some(error::plain(ErrorStatus::BadRequest, "job prompt is required"@))
    } else if text::present(text::opt(request.target_name)) is None {
        Some(error::plain(ErrorStatus::BadRequest, "target name is required"@))
    } else {
        None
    }
}

/// The plan that a request without gaps stands for. A repository has `main` as
/// its base branch unless the request says otherwise; a capability has none.
pub open spec fn planned(request: CreateJobRequest) -> PlanView {
    PlanView {
        title: text::trim(request.title@),
        prompt: text::trim(request.prompt@),
        target_kind: request.target_kind,
        target_name: text::present(text::opt(request.target_name)).unwrap(),
        base_branch: match request.target_kind {
            JobTargetKind::Repository => Some(
                text::or_value(text::present(text::opt(request.base_branch)), "main"@),
            ),
            JobTargetKind::Capability => None,
        },
        execution_intent: text::or_value(
            request.execution_intent,
            drafts::inferred_intent(text::trim(request.prompt@)),
        ),
    }
}

/// The plan that a request stands for.
pub fn plan_job(request: &CreateJobRequest) -> (r: Result<JobPlan, AppError>)
    ensures
        match r {
            Ok(plan) => request_gap(*request) is None && plan@ == planned(*request),
            Err(e) => request_gap(*request) == Some(e@),
        },
{
    let title = trim_text(request.title.as_str());
    let prompt = trim_text(request.prompt.as_str());
    if chars_of(title.as_str()).len() == 0 {
        return Err(AppError::bad_request("job title is required"));
    }
    if chars_of(prompt.as_str()).len() == 0 {
        return Err(AppError::bad_request("job prompt is required"));
    }
    let target_name = match sanitize_optional_string(copy_opt(&request.target_name)) {
        Some(name) => name,
        None => return Err(AppError::bad_request("target name is required")),
    };
    let base_branch = match request.target_kind {
        JobTargetKind::Repository => match sanitize_optional_string(
            copy_opt(&request.base_branch),
        ) {
            Some(branch) => Some(branch),
            None => Some("main".to_string()),
        },
        JobTargetKind::Capability => None,
    };
    let execution_intent = match request.execution_intent {
        Some(intent) => intent,
        None => infer_execution_intent(prompt.as_str()),
    };
    Ok(
        JobPlan {
            title,
            prompt,
            target_kind: request.target_kind,
            target_name,
            base_branch,
            execution_intent,
        },
    )
}

/// How a job is referred to.
#[derive(Debug)]
pub struct JobIdentity {
    pub job_id: String,
    pub correlation_id: String,
    pub short_id: String,
    pub branch_name: Option<String>,
}

/// The first characters of an id, in lower case.
pub open spec fn short_form(id: Seq<char>) -> Seq<char> {
    text::lower(text::prefix(id, 8))
}

/// The branch of a job.
pub open spec fn branch_of(plan: PlanView, short_id: Seq<char>) -> Option<Seq<char>> {
    match plan.target_kind {
        JobTargetKind::Repository => Some(
            "codex/"@ + short_id + "-"@ + formatting::slug(plan.title),
        ),
        JobTargetKind::Capability => None,
    }
}

/// The names that follow from the ids of a job.
pub fn identity_for(plan: &JobPlan, job_id: String, correlation_id: String) -> (r: JobIdentity)
    ensures
        r.job_id@ == job_id@,
        r.correlation_id@ == correlation_id@,
        r.short_id@ == short_form(job_id@),
        text::opt(r.branch_name) == branch_of(plan@, short_form(job_id@)),
{
    let chars = chars_of(job_id.as_str());
    let short_id = text_of(scan::lower(scan::prefix(chars.as_slice(), 8)).as_slice());
    let branch_name = match plan.target_kind {
        JobTargetKind::Repository => Some(
            "codex/".to_string().concat(short_id.as_str()).concat("-").concat(
                slugify(plan.title.as_str()).as_str(),
            ),
        ),
        JobTargetKind::Capability => None,
    };
    JobIdentity { job_id, correlation_id, short_id, branch_name }
}

/// A new identity for a job.
pub fn new_job_identity(plan: &JobPlan) -> (r: JobIdentity)
    ensures
        ids::is_id(r.job_id@),
        ids::is_id(r.correlation_id@),
        r.short_id@ == short_form(r.job_id@),
        text::opt(r.branch_name) == branch_of(plan@, r.short_id@),
{
    identity_for(plan, fresh_id(), fresh_id())
}

// ---------------------------------------------------------------------------
// From creation to dispatch
// ---------------------------------------------------------------------------

/// An event in the history of a job.
#[derive(Debug)]
pub struct JobEvent {
    pub event_type: String,
    pub payload: Json,
}

/// A change of the state of a job.
#[derive(Debug)]
pub struct JobStateChange {
    pub status: String,
    pub result: Option<String>,
    pub failure_class: Option<String>,
}

/// The model of a change.
pub struct ChangeView {
    pub status: Seq<char>,
    pub result: Option<Seq<char>>,
    pub failure_class: Option<Seq<char>>,
}

impl View for JobStateChange {
    type V = ChangeView;

    open spec fn view(&self) -> ChangeView {
        ChangeView {
            status: self.status@,
            result: text::opt(self.result),
            failure_class: text::opt(self.failure_class),
        }
    }
}

/// A change to a status without a result.
pub open spec fn to_status(status: Seq<char>) -> ChangeView {
    ChangeView { status, result: None, failure_class: None }
}

fn change_to(status: &str) -> (r: JobStateChange)
    ensures
        r@ == to_status(status@),
{
    JobStateChange { status: status.to_string(), result: None, failure_class: None }
}

/// The status that a job is created with.
pub const INITIAL_STATUS: &'static str = "probing";

/// The event of the creation.
pub fn created_event(plan: &JobPlan, identity: &JobIdentity, device_id: &str) -> (r: JobEvent)
    ensures
        r.event_type@ == "job.created"@,
        r.payload.model() == JsonView::Object(
            seq![
                ("correlation_id"@, JsonView::Text(identity.correlation_id@)),
                ("target_kind"@, JsonView::Text(plan.target_kind.name())),
                ("target_name"@, JsonView::Text(plan.target_name@)),
                ("prompt"@, JsonView::Text(plan.prompt@)),
                ("repo_name"@, json::optional_text(plan@.repo_name())),
                ("capability_name"@, json::optional_text(plan@.capability_name())),
                ("device_id"@, JsonView::Text(device_id@)),
                ("base_branch"@, json::optional_text(text::opt(plan.base_branch))),
                ("branch_name"@, json::optional_text(text::opt(identity.branch_name))),
                ("execution_intent"@, JsonView::Text(plan.execution_intent.name())),
            ],
        ),
{
    let (repo_name, capability_name) = match plan.target_kind {
        JobTargetKind::Repository => (Some(plan.target_name.as_str()), None),
        JobTargetKind::Capability => (None, Some(plan.target_name.as_str())),
    };
    let object = JsonObject::new().with_text(
        "correlation_id",
        identity.correlation_id.as_str(),
    ).with_text("target_kind", plan.target_kind.as_str()).with_text(
        "target_name",
        plan.target_name.as_str(),
    ).with_text("prompt", plan.prompt.as_str()).with_optional_text(
        "repo_name",
        repo_name,
    ).with_optional_text("capability_name", capability_name).with_text(
        "device_id",
        device_id,
    ).with_optional_text("base_branch", opt_slice(&plan.base_branch)).with_optional_text(
        "branch_name",
        opt_slice(&identity.branch_name),
    ).with_text("execution_intent", plan.execution_intent.as_str());
    assert(object.entries() =~= seq![
        ("correlation_id"@, JsonView::Text(identity.correlation_id@)),
        ("target_kind"@, JsonView::Text(plan.target_kind.name())),
        ("target_name"@, JsonView::Text(plan.target_name@)),
        ("prompt"@, JsonView::Text(plan.prompt@)),
        ("repo_name"@, json::optional_text(plan@.repo_name())),
        ("capability_name"@, json::optional_text(plan@.capability_name())),
        ("device_id"@, JsonView::Text(device_id@)),
        ("base_branch"@, json::optional_text(text::opt(plan.base_branch))),
        ("branch_name"@, json::optional_text(text::opt(identity.branch_name))),
        ("execution_intent"@, JsonView::Text(plan.execution_intent.name())),
    ]);
    JobEvent { event_type: "job.created".to_string(), payload: object.build() }
}

/// How a probe ended.
#[derive(Debug)]
pub enum ProbeOutcome {
    /// The device gave no valid answer; the message says why.
    Failed(String),
    /// The device answered.
    Answered(AvailabilitySnapshot),
}

impl ProbeOutcome {
    /// The device answered that it can take the work.
    pub open spec fn is_available(self) -> bool {
        match self {
            ProbeOutcome::Failed(_) => false,
            ProbeOutcome::Answered(s) => s.available,
        }
    }
}

/// What follows a probe.
#[derive(Debug)]
pub struct AfterProbe {
    /// The event to record.
    pub event: JobEvent,
    /// The change where the job has to wait; none where it is dispatched.
    pub change: Option<JobStateChange>,
}

/// The record of a probe; `responded_at` is the text of the instant of an
/// answer.
pub open spec fn probe_record(
    correlation_id: Seq<char>,
    outcome: ProbeOutcome,
    responded_at: Seq<char>,
) -> JsonView {
    match outcome {
        ProbeOutcome::Failed(reason) => JsonView::Object(
            seq![
                ("correlation_id"@, JsonView::Text(correlation_id)),
                ("available"@, JsonView::Bool(false)),
                ("reason"@, JsonView::Text(reason@)),
                ("probe_error"@, JsonView::Bool(true)),
            ],
        ),
        ProbeOutcome::Answered(s) => JsonView::Object(
            seq![
                ("correlation_id"@, JsonView::Text(correlation_id)),
                ("available"@, JsonView::Bool(s.available)),
                ("reason"@, JsonView::Text(s.reason@)),
                ("probe_id"@, JsonView::Text(s.probe_id@)),
                ("responded_at"@, JsonView::Text(responded_at)),
            ],
        ),
    }
}

/// The text of the instant at which a device answered; empty where it did not.
pub open spec fn answer_instant(outcome: ProbeOutcome) -> Seq<char> {
    match outcome {
        ProbeOutcome::Failed(_) => Seq::empty(),
        ProbeOutcome::Answered(s) => time::json_text(
            s.responded_at.secs(),
            s.responded_at.nanos(),
        ),
    }
}

/// The record of a probe.
pub open spec fn probe_payload(correlation_id: Seq<char>, outcome: ProbeOutcome) -> JsonView {
    probe_record(correlation_id, outcome, answer_instant(outcome))
}

/// What follows a probe: the job goes to the device where that is available,
/// and waits as pending where it is not.
pub fn after_probe(correlation_id: &str, outcome: &ProbeOutcome) -> (r: AfterProbe)
    ensures
        r.event.event_type@ == "job.probe_result"@,
        r.event.payload.model() == probe_payload(correlation_id@, *outcome),
        match r.change {
            Some(change) => !outcome.is_available() && change@ == to_status("pending"@),
            None => outcome.is_available(),
        },
{
    let responded_at = match outcome {
        ProbeOutcome::Failed(_) => scan::empty_text(),
        ProbeOutcome::Answered(snapshot) => snapshot.responded_at.to_json_text(),
    };
    after_probe_at(correlation_id, outcome, responded_at.as_str())
}

/// What follows a probe, given the text of the instant of an answer.
pub fn after_probe_at(correlation_id: &str, outcome: &ProbeOutcome, responded_at: &str) -> (r:
    AfterProbe)
    ensures
        r.event.event_type@ == "job.probe_result"@,
        r.event.payload.model() == probe_record(correlation_id@, *outcome, responded_at@),
        match r.change {
            Some(change) => !outcome.is_available() && change@ == to_status("pending"@),
            None => outcome.is_available(),
        },
{
    let (object, waits) = match outcome {
        ProbeOutcome::Failed(reason) => {
            let object = JsonObject::new().with_text("correlation_id", correlation_id).with(
                "available",
                Json::Bool(false),
            ).with_text("reason", reason.as_str()).with("probe_error", Json::Bool(true));
            (object, true)
        },
        ProbeOutcome::Answered(snapshot) => {
            let object = JsonObject::new().with_text("correlation_id", correlation_id).with(
                "available",
                Json::Bool(snapshot.available),
            ).with_text("reason", snapshot.reason.as_str()).with_text(
                "probe_id",
                snapshot.probe_id.as_str(),
            ).with_text("responded_at", responded_at);
            (object, !snapshot.available)
        },
    };
    assert(object.entries() =~= probe_record(
        correlation_id@,
        *outcome,
        responded_at@,
    )->Object_0);
    AfterProbe {
        event: JobEvent {
            event_type: "job.probe_result".to_string(),
            payload: object.build(),
        },
        change: if waits {
            Some(change_to("pending"))
        } else {
            None
        },
    }
}

/// The order to a device to do a job.
#[derive(Debug)]
pub struct JobDispatchMessage {
    pub job_id: String,
    pub short_id: String,
    pub correlation_id: String,
    pub thread_id: String,
    pub title: String,
    pub device_id: String,
    pub target_kind: JobTargetKind,
    pub target_name: String,
    pub base_branch: Option<String>,
    pub branch_name: Option<String>,
    pub prompt: String,
    pub execution_intent: ExecutionIntent,
    pub dispatched_at: Timestamp,
}

/// The order to a device to do the planned job.
pub fn dispatch_message(
    plan: &JobPlan,
    identity: &JobIdentity,
    thread_id: &str,
    device_id: &str,
    now: Timestamp,
) -> (r: JobDispatchMessage)
    ensures
        r.job_id@ == identity.job_id@,
        r.short_id@ == identity.short_id@,
        r.correlation_id@ == identity.correlation_id@,
        r.thread_id@ == thread_id@,
        r.title@ == plan.title@,
        r.device_id@ == device_id@,
        r.target_kind == plan.target_kind,
        r.target_name@ == plan.target_name@,
        text::opt(r.base_branch) == text::opt(plan.base_branch),
        text::opt(r.branch_name) == text::opt(identity.branch_name),
        r.prompt@ == plan.prompt@,
        r.execution_intent == plan.execution_intent,
        r.dispatched_at == now,
{
    JobDispatchMessage {
        job_id: identity.job_id.clone(),
        short_id: identity.short_id.clone(),
        correlation_id: identity.correlation_id.clone(),
        thread_id: thread_id.to_string(),
        title: plan.title.clone(),
        device_id: device_id.to_string(),
        target_kind: plan.target_kind,
        target_name: plan.target_name.clone(),
        base_branch: copy_opt(&plan.base_branch),
        branch_name: copy_opt(&identity.branch_name),
        prompt: plan.prompt.clone(),
        execution_intent: plan.execution_intent,
        dispatched_at: now,
    }
}

/// The subject on which a device listens for jobs.
pub fn dispatch_subject(device_id: &str) -> (r: String)
    ensures
        r@ == "elowen.jobs.dispatch."@ + device_id@,
{
    "elowen.jobs.dispatch.".to_string().concat(device_id)
}

/// What follows the attempt to send a job to its device.
#[derive(Debug)]
pub struct AfterPublish {
    pub change: JobStateChange,
    pub event: JobEvent,
    /// The error that answers the request, where the attempt failed.
    pub failure: Option<AppError>,
}

/// The record of a job that was sent to its device.
pub open spec fn dispatched_payload(
    plan: PlanView,
    identity: JobIdentity,
    device_id: Seq<char>,
) -> JsonView {
    JsonView::Object(
        seq![
            ("correlation_id"@, JsonView::Text(identity.correlation_id@)),
            ("subject"@, JsonView::Text("elowen.jobs.dispatch."@ + device_id)),
            ("device_id"@, JsonView::Text(device_id)),
            ("target_kind"@, JsonView::Text(plan.target_kind.name())),
            ("target_name"@, JsonView::Text(plan.target_name)),
            ("repo_name"@, json::optional_text(plan.repo_name())),
            ("capability_name"@, json::optional_text(plan.capability_name())),
            ("base_branch"@, json::optional_text(plan.base_branch)),
            ("branch_name"@, json::optional_text(text::opt(identity.branch_name))),
            ("execution_intent"@, JsonView::Text(plan.execution_intent.name())),
        ],
    )
}

/// The record of a job that could not be sent to its device.
pub open spec fn undispatched_payload(
    identity: JobIdentity,
    device_id: Seq<char>,
    reason: Seq<char>,
) -> JsonView {
    JsonView::Object(
        seq![
            ("correlation_id"@, JsonView::Text(identity.correlation_id@)),
            ("subject"@, JsonView::Text("elowen.jobs.dispatch."@ + device_id)),
            ("error"@, JsonView::Text(reason)),
        ],
    )
}

/// What follows the attempt to send a job to its device: it is dispatched, or
/// it has failed for want of infrastructure.
pub fn after_publish(
    plan: &JobPlan,
    identity: &JobIdentity,
    device_id: &str,
    publish_error: Option<&str>,
) -> (r: AfterPublish)
    ensures
        match publish_error {
            None => {
                &&& r.change@ == to_status("dispatched"@)
                &&& r.event.event_type@ == "job.dispatched"@
                &&& r.event.payload.model() == dispatched_payload(plan@, *identity, device_id@)
                &&& r.failure is None
            },
            Some(reason) => {
                &&& r.change@ == (ChangeView {
                    status: "failed"@,
                    result: Some("failure"@),
                    failure_class: Some("infrastructure"@),
                })
                &&& r.event.event_type@ == "job.dispatch_failed"@
                &&& r.event.payload.model() == undispatched_payload(
                    *identity,
                    device_id@,
                    reason@,
                )
                &&& r.failure matches Some(e) && e@ == error::plain(
                    ErrorStatus::Internal,
                    "failed to publish job dispatch"@,
                )
            },
        },
{
    let subject = dispatch_subject(device_id);
    match publish_error {
        Some(reason) => {
            let object = JsonObject::new().with_text(
                "correlation_id",
                identity.correlation_id.as_str(),
            ).with_text("subject", subject.as_str()).with_text("error", reason);
            assert(object.entries() =~= undispatched_payload(
                *identity,
                device_id@,
                reason@,
            )->Object_0);
            AfterPublish {
                change: JobStateChange {
                    status: "failed".to_string(),
                    result: Some("failure".to_string()),
                    failure_class: Some("infrastructure".to_string()),
                },
                event: JobEvent {
                    event_type: "job.dispatch_failed".to_string(),
                    payload: object.build(),
                },
                failure: Some(AppError::internal("failed to publish job dispatch")),
            }
        },
        None => {
            let (repo_name, capability_name) = match plan.target_kind {
                JobTargetKind::Repository => (Some(plan.target_name.as_str()), None),
                JobTargetKind::Capability => (None, Some(plan.target_name.as_str())),
            };
            let object = JsonObject::new().with_text(
                "correlation_id",
                identity.correlation_id.as_str(),
            ).with_text("subject", subject.as_str()).with_text("device_id", device_id).with_text(
                "target_kind",
                plan.target_kind.as_str(),
            ).with_text("target_name", plan.target_name.as_str()).with_optional_text(
                "repo_name",
                repo_name,
            ).with_optional_text("capability_name", capability_name).with_optional_text(
                "base_branch",
                opt_slice(&plan.base_branch),
            ).with_optional_text("branch_name", opt_slice(&identity.branch_name)).with_text(
                "execution_intent",
                plan.execution_intent.as_str(),
            );
            assert(object.entries() =~= dispatched_payload(
                plan@,
                *identity,
                device_id@,
            )->Object_0);
            AfterPublish {
                change: change_to("dispatched"),
                event: JobEvent {
                    event_type: "job.dispatched".to_string(),
                    payload: object.build(),
                },
                failure: None,
            }
        },
    }
}

// ---------------------------------------------------------------------------
// Push approvals
// ---------------------------------------------------------------------------

/// The order to a device to push the branch of a job.
#[derive(Debug)]
pub struct JobApprovalCommand {
    pub approval_id: String,
    pub job_id: String,
    pub short_id: String,
    pub correlation_id: String,
    pub device_id: String,
    pub target_kind: JobTargetKind,
    pub target_name: String,
    pub branch_name: Option<String>,
    pub action_type: String,
    pub approved_at: Timestamp,
}

/// Why the branch of a job cannot be pushed.
pub open spec fn push_refusal(job: JobRecord) -> Option<ErrorView> {
    if job.device_id is None {
        Some(error::plain(ErrorStatus::Conflict, "job device is missing"@))
    } else if job.branch_name is None {
        Some(error::plain(ErrorStatus::Conflict, "job branch is missing"@))
    } else if job.kind() is Capability {
        Some(
            error::plain(
                ErrorStatus::Conflict,
                "push approval is only available for repository jobs"@,
            ),
        )
    } else {
        None
    }
}

/// The order to a device to push the branch of a job.
pub open spec fn is_push_command(
    c: JobApprovalCommand,
    approval: ApprovalRecord,
    job: JobRecord,
    now: Timestamp,
) -> bool {
    &&& c.approval_id@ == approval.id@
    &&& c.job_id@ == job.id@
    &&& c.short_id@ == job.short_id@
    &&& c.correlation_id@ == job.correlation_id@
    &&& Some(c.device_id@) == text::opt(job.device_id)
    &&& c.target_kind is Repository
    &&& c.target_name@ == job.repo_name@
    &&& text::opt(c.branch_name) == text::opt(job.branch_name)
    &&& c.action_type@ == approval.action_type@
    &&& c.approved_at == now
}

/// The order to a device to push the branch of a job.
pub fn push_approval_command(approval: &ApprovalRecord, job: &JobRecord, now: Timestamp) -> (r:
    Result<JobApprovalCommand, AppError>)
    ensures
        match r {
            Ok(c) => push_refusal(*job) is None && is_push_command(c, *approval, *job, now),
            Err(e) => push_refusal(*job) == Some(e@),
        },
{
    let device_id = match &job.device_id {
        Some(device_id) => device_id.clone(),
        None => return Err(AppError::conflict("job device is missing")),
    };
    let branch_name = match &job.branch_name {
        Some(branch_name) => branch_name.clone(),
        None => return Err(AppError::conflict("job branch is missing")),
    };
    let target_kind = job.target_kind_enum();
    match target_kind {
        JobTargetKind::Repository => {},
        JobTargetKind::Capability => return Err(
            AppError::conflict("push approval is only available for repository jobs"),
        ),
    }
    Ok(
        JobApprovalCommand {
            approval_id: approval.id.clone(),
            job_id: job.id.clone(),
            short_id: job.short_id.clone(),
            correlation_id: job.correlation_id.clone(),
            device_id,
            target_kind,
            target_name: job.repo_name.clone(),
            branch_name: Some(branch_name),
            action_type: approval.action_type.clone(),
            approved_at: now,
        },
    )
}

/// The subject on which a device listens for approvals.
pub fn approval_subject(device_id: &str) -> (r: String)
    ensures
        r@ == "elowen.jobs.approvals."@ + device_id@,
{
    "elowen.jobs.approvals.".to_string().concat(device_id)
}

} // verus!
