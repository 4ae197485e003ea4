use elowen_api::device_models::{
    AvailabilitySnapshot, DeviceRecord, DeviceTrustMetadata, DeviceTrustStatus,
};
use elowen_api::dispatch::{
    after_probe, after_probe_at, after_publish, approval_subject, created_event, device_has_repo_scope,
    dispatch_message, dispatch_subject, ensure_target_allowed, identity_for, new_job_identity,
    plan_job, push_approval_command, requested_device_id, requested_intent, select_dispatch_device, CreateJobRequest,
    DeviceChoice, JobIdentity, JobPlan, ProbeOutcome, INITIAL_STATUS,
};
use elowen_api::error::ErrorStatus;
use elowen_api::json::Json;
use elowen_api::models::{ApprovalRecord, ExecutionIntent, JobRecord, JobTargetKind};
use elowen_api::time::Timestamp;

fn instant(secs: i64) -> Timestamp {
    Timestamp::from_parts(secs, 0).expect("the calendar holds the instant")
}

fn strings(values: &[&str]) -> Vec<String> {
    values.iter().map(|value| value.to_string()).collect()
}

fn device(id: &str, status: DeviceTrustStatus, repos: &[&str], capabilities: &[&str]) -> DeviceRecord {
    DeviceRecord {
        id: id.to_string(),
        name: id.to_string(),
        primary_flag: false,
        allowed_repos: strings(repos),
        allowed_repo_roots: Vec::new(),
        hidden_repos: Vec::new(),
        excluded_repo_paths: Vec::new(),
        discovered_repos: Vec::new(),
        repositories: Vec::new(),
        capabilities: strings(capabilities),
        registered_at: instant(0),
        last_seen_at: instant(0),
        last_probe: None,
        trust: DeviceTrustMetadata { status, ..Default::default() },
        created_at: instant(0),
        updated_at: instant(0),
    }
}

fn request() -> CreateJobRequest {
    CreateJobRequest {
        title: " Fix the Login ".to_string(),
        prompt: " Repair it ".to_string(),
        target_kind: JobTargetKind::Repository,
        target_name: Some(" elowen-api ".to_string()),
        base_branch: None,
        device_id: None,
        execution_intent: None,
    }
}

fn plan() -> JobPlan {
    plan_job(&request()).expect("a complete request")
}

fn identity() -> JobIdentity {
    identity_for(&plan(), "01KNACTPXYZ".to_string(), "corr-1".to_string())
}

fn text_of(value: &Json, key: &str) -> Option<String> {
    value.get(key).and_then(|entry| entry.as_str()).map(|entry| entry.to_string())
}

fn keys(value: &Json) -> Vec<String> {
    match value {
        Json::Object(fields) => fields.iter().map(|(key, _)| key.clone()).collect(),
        other => panic!("unexpected value {other:?}"),
    }
}

fn job(device_id: Option<&str>, branch_name: Option<&str>, target_kind: &str) -> JobRecord {
    JobRecord {
        id: "job-1".to_string(),
        short_id: "01knactp".to_string(),
        correlation_id: "corr-1".to_string(),
        thread_id: "thread-1".to_string(),
        title: "Title".to_string(),
        status: "completed".to_string(),
        result: None,
        failure_class: None,
        target_kind: target_kind.to_string(),
        repo_name: "elowen-api".to_string(),
        capability_name: Some("codex".to_string()),
        device_id: device_id.map(|value| value.to_string()),
        branch_name: branch_name.map(|value| value.to_string()),
        base_branch: None,
        parent_job_id: None,
        created_at: instant(0),
        updated_at: instant(0),
        completed_at: None,
    }
}

fn approval() -> ApprovalRecord {
    ApprovalRecord {
        id: "approval-1".to_string(),
        thread_id: "thread-1".to_string(),
        job_id: "job-1".to_string(),
        action_type: "push".to_string(),
        status: "pending".to_string(),
        summary: "Push".to_string(),
        resolved_by: None,
        resolved_by_display_name: None,
        resolution_reason: None,
        created_at: instant(0),
        resolved_at: None,
        updated_at: instant(0),
    }
}

#[test]
fn devices_take_what_they_offer() {
    let open = device("a", DeviceTrustStatus::Trusted, &[], &[" codex "]);
    assert!(!device_has_repo_scope(&open));
    assert!(ensure_target_allowed(&open, &JobTargetKind::Repository, "anything").is_ok());
    assert!(ensure_target_allowed(&open, &JobTargetKind::Capability, "codex").is_ok());
    let error = ensure_target_allowed(&open, &JobTargetKind::Capability, "other").expect_err("no");
    assert_eq!(error.status, ErrorStatus::BadRequest);
    assert_eq!(error.error, "device does not advertise the requested capability");
    let scoped = device("b", DeviceTrustStatus::Trusted, &["elowen-api"], &[]);
    assert!(device_has_repo_scope(&scoped));
    assert!(ensure_target_allowed(&scoped, &JobTargetKind::Repository, "elowen-api").is_ok());
    let error = ensure_target_allowed(&scoped, &JobTargetKind::Repository, "other").expect_err("no");
    assert_eq!(error.status, ErrorStatus::BadRequest);
    assert_eq!(error.error, "device is not allowed to run the requested repository");
}

#[test]
fn work_goes_to_the_first_eligible_device() {
    let devices = vec![
        device("untrusted", DeviceTrustStatus::Untrusted, &[], &[]),
        device("other", DeviceTrustStatus::Trusted, &["x"], &[]),
        device("first", DeviceTrustStatus::Trusted, &["elowen-api"], &[]),
        device("second", DeviceTrustStatus::Trusted, &[], &[]),
    ];
    let kind = JobTargetKind::Repository;
    let chosen = select_dispatch_device(DeviceChoice::Any(devices), &kind, "elowen-api").expect("one");
    assert_eq!(chosen.id, "first");
    let error = select_dispatch_device(DeviceChoice::Any(Vec::new()), &kind, "x").expect_err("none");
    assert_eq!(error.status, ErrorStatus::Conflict);
    assert_eq!(error.error, "no registered device is eligible for the requested repository");
    let none = DeviceChoice::Any(vec![device("a", DeviceTrustStatus::Trusted, &[], &[])]);
    let error = select_dispatch_device(none, &JobTargetKind::Capability, "x").expect_err("none");
    assert_eq!(error.error, "no registered device is eligible for the requested capability");
}

#[test]
fn requested_devices_have_to_be_eligible() {
    let kind = JobTargetKind::Repository;
    let ask = |status: DeviceTrustStatus, repo: &str| {
        select_dispatch_device(
            DeviceChoice::Requested(device("edge-1", status, &["elowen-api"], &[])),
            &kind,
            repo,
        )
    };
    assert_eq!(ask(DeviceTrustStatus::Trusted, "elowen-api").expect("eligible").id, "edge-1");
    let error = ask(DeviceTrustStatus::Trusted, "other").expect_err("not offered");
    assert_eq!(error.error, "device is not allowed to run the requested repository");
    for (status, name) in [
        (DeviceTrustStatus::Rotated, "rotated"),
        (DeviceTrustStatus::Revoked, "revoked"),
        (DeviceTrustStatus::Untrusted, "untrusted"),
        (DeviceTrustStatus::AttentionRequired, "needs_attention"),
    ] {
        let error = ask(status, "other").expect_err("not trusted");
        assert_eq!(
            error.error,
            format!("device `edge-1` is not trusted for dispatch; trust status is {name}")
        );
    }
    let mut barred = device("edge-1", DeviceTrustStatus::Trusted, &[], &[]);
    barred.trust.can_dispatch = Some(false);
    assert!(select_dispatch_device(DeviceChoice::Requested(barred), &kind, "x").is_err());
    let mut doubtful = device("edge-1", DeviceTrustStatus::Trusted, &[], &[]);
    doubtful.trust.requires_attention = true;
    assert!(select_dispatch_device(DeviceChoice::Requested(doubtful), &kind, "x").is_err());
    assert_eq!(requested_device_id(&Some(" edge-1 ".to_string())).as_deref(), Some("edge-1"));
    assert_eq!(requested_device_id(&Some("  ".to_string())), None);
    assert_eq!(requested_device_id(&None), None);
}

#[test]
fn intents_are_asked_for_or_read_from_the_prompt() {
    let mut request = request();
    assert_eq!(requested_intent(&request), ExecutionIntent::WorkspaceChange);
    request.prompt = "Do not modify anything, just review the code".to_string();
    assert_eq!(requested_intent(&request), ExecutionIntent::ReadOnly);
    request.execution_intent = Some(ExecutionIntent::WorkspaceChange);
    assert_eq!(requested_intent(&request), ExecutionIntent::WorkspaceChange);
}

#[test]
fn requests_are_planned() {
    let plan = plan();
    assert_eq!(plan.title, "Fix the Login");
    assert_eq!(plan.prompt, "Repair it");
    assert_eq!(plan.target_name, "elowen-api");
    assert_eq!(plan.base_branch.as_deref(), Some("main"));
    assert_eq!(plan.execution_intent, ExecutionIntent::WorkspaceChange);
    let asked = plan_job(&CreateJobRequest {
        prompt: "explain it".to_string(),
        base_branch: Some(" dev ".to_string()),
        ..request()
    })
    .expect("a complete request");
    assert_eq!(asked.base_branch.as_deref(), Some("dev"));
    assert_eq!(asked.execution_intent, ExecutionIntent::ReadOnly);
    let capability = plan_job(&CreateJobRequest {
        target_kind: JobTargetKind::Capability,
        base_branch: Some("dev".to_string()),
        execution_intent: Some(ExecutionIntent::ReadOnly),
        ..request()
    })
    .expect("a complete request");
    assert_eq!(capability.base_branch, None);
    assert_eq!(capability.execution_intent, ExecutionIntent::ReadOnly);
}

#[test]
fn incomplete_requests_are_refused() {
    let blank = || "  ".to_string();
    let cases = [
        (CreateJobRequest { title: blank(), prompt: blank(), ..request() }, "job title is required"),
        (CreateJobRequest { prompt: blank(), target_name: None, ..request() }, "job prompt is required"),
        (CreateJobRequest { target_name: Some(blank()), ..request() }, "target name is required"),
        (CreateJobRequest { target_name: None, ..request() }, "target name is required"),
    ];
    for (request, message) in cases {
        let error = plan_job(&request).expect_err(message);
        assert_eq!(error.status, ErrorStatus::BadRequest);
        assert_eq!(error.error, message);
    }
}

#[test]
fn jobs_are_named_after_their_id_and_title() {
    let identity = identity();
    assert_eq!(identity.job_id, "01KNACTPXYZ");
    assert_eq!(identity.correlation_id, "corr-1");
    assert_eq!(identity.short_id, "01knactp");
    assert_eq!(identity.branch_name.as_deref(), Some("codex/01knactp-fix-the-login"));
    let capability = JobPlan { target_kind: JobTargetKind::Capability, ..plan() };
    let other = identity_for(&capability, "AB".to_string(), "c".to_string());
    assert_eq!(other.short_id, "ab");
    assert_eq!(other.branch_name, None);
    let fresh = new_job_identity(&plan());
    assert_ne!(fresh.job_id, fresh.correlation_id);
    assert_eq!(fresh.short_id, fresh.job_id[..8].to_lowercase());
    assert_eq!(INITIAL_STATUS, "probing");
}

#[test]
fn creation_is_recorded() {
    let event = created_event(&plan(), &identity(), "edge-1");
    assert_eq!(event.event_type, "job.created");
    assert_eq!(
        keys(&event.payload),
        strings(&[
            "correlation_id", "target_kind", "target_name", "prompt", "repo_name", "capability_name",
            "device_id", "base_branch", "branch_name", "execution_intent",
        ])
    );
    assert_eq!(text_of(&event.payload, "repo_name").as_deref(), Some("elowen-api"));
    assert!(matches!(event.payload.get("capability_name"), Some(Json::Null)));
    assert_eq!(text_of(&event.payload, "execution_intent").as_deref(), Some("workspace_change"));
    let capability = JobPlan { target_kind: JobTargetKind::Capability, ..plan() };
    let event = created_event(&capability, &identity(), "edge-1");
    assert_eq!(text_of(&event.payload, "capability_name").as_deref(), Some("elowen-api"));
    assert!(matches!(event.payload.get("repo_name"), Some(Json::Null)));
}

#[test]
fn probes_decide_whether_a_job_waits() {
    let failed = after_probe("corr-1", &ProbeOutcome::Failed("timed out".to_string()));
    assert_eq!(failed.event.event_type, "job.probe_result");
    assert_eq!(keys(&failed.event.payload), strings(&["correlation_id", "available", "reason", "probe_error"]));
    assert_eq!(text_of(&failed.event.payload, "reason").as_deref(), Some("timed out"));
    assert_eq!(failed.change.map(|change| change.status), Some("pending".to_string()));
    for available in [true, false] {
        let answered = after_probe(
            "corr-1",
            &ProbeOutcome::Answered(AvailabilitySnapshot {
                probe_id: "probe-1".to_string(),
                job_id: None,
                device_id: "edge-1".to_string(),
                available,
                reason: "idle".to_string(),
                responded_at: instant(0),
            }),
        );
        assert_eq!(answered.change.is_none(), available);
        let payload = answered.event.payload;
        assert_eq!(payload.get("available").and_then(|value| value.as_bool()), Some(available));
        assert_eq!(text_of(&payload, "probe_id").as_deref(), Some("probe-1"));
        assert_eq!(text_of(&payload, "responded_at").as_deref(), Some("1970-01-01T00:00:00Z"));
    }
}

#[test]
fn probes_hold_the_text_of_the_instant() {
    let answered = after_probe_at(
        "corr-1",
        &ProbeOutcome::Answered(AvailabilitySnapshot {
            probe_id: "probe-1".to_string(),
            job_id: None,
            device_id: "edge-1".to_string(),
            available: false,
            reason: "busy".to_string(),
            responded_at: instant(0),
        }),
        "noon",
    );
    assert_eq!(text_of(&answered.event.payload, "responded_at").as_deref(), Some("noon"));
    assert_eq!(text_of(&answered.event.payload, "reason").as_deref(), Some("busy"));
    assert_eq!(answered.change.map(|change| change.status), Some("pending".to_string()));
}

#[test]
fn jobs_are_sent_to_their_device() {
    let message = dispatch_message(&plan(), &identity(), "thread-1", "edge-1", instant(9));
    assert_eq!(message.job_id, "01KNACTPXYZ");
    assert_eq!(message.short_id, "01knactp");
    assert_eq!(message.correlation_id, "corr-1");
    assert_eq!(message.thread_id, "thread-1");
    assert_eq!(message.title, "Fix the Login");
    assert_eq!(message.device_id, "edge-1");
    assert_eq!(message.target_kind, JobTargetKind::Repository);
    assert_eq!(message.target_name, "elowen-api");
    assert_eq!(message.base_branch.as_deref(), Some("main"));
    assert_eq!(message.branch_name.as_deref(), Some("codex/01knactp-fix-the-login"));
    assert_eq!(message.prompt, "Repair it");
    assert_eq!(message.dispatched_at, instant(9));
    assert_eq!(dispatch_subject("edge-1"), "elowen.jobs.dispatch.edge-1");
}

#[test]
fn sending_succeeds_or_fails_the_job() {
    let sent = after_publish(&plan(), &identity(), "edge-1", None);
    assert_eq!(sent.change.status, "dispatched");
    assert_eq!(sent.change.result, None);
    assert_eq!(sent.event.event_type, "job.dispatched");
    assert_eq!(text_of(&sent.event.payload, "subject").as_deref(), Some("elowen.jobs.dispatch.edge-1"));
    assert!(sent.failure.is_none());
    let failed = after_publish(&plan(), &identity(), "edge-1", Some("no route"));
    assert_eq!(failed.change.status, "failed");
    assert_eq!(failed.change.result.as_deref(), Some("failure"));
    assert_eq!(failed.change.failure_class.as_deref(), Some("infrastructure"));
    assert_eq!(failed.event.event_type, "job.dispatch_failed");
    assert_eq!(keys(&failed.event.payload), strings(&["correlation_id", "subject", "error"]));
    assert_eq!(text_of(&failed.event.payload, "error").as_deref(), Some("no route"));
    let error = failed.failure.expect("an error");
    assert_eq!(error.status, ErrorStatus::Internal);
    assert_eq!(error.error, "failed to publish job dispatch");
}

#[test]
fn pushes_are_ordered_for_repository_jobs() {
    let order = push_approval_command(
        &approval(),
        &job(Some("edge-1"), Some("codex/x"), "repository"),
        instant(9),
    )
    .expect("a complete job");
    assert_eq!(order.approval_id, "approval-1");
    assert_eq!(order.job_id, "job-1");
    assert_eq!(order.short_id, "01knactp");
    assert_eq!(order.correlation_id, "corr-1");
    assert_eq!(order.device_id, "edge-1");
    assert_eq!(order.target_name, "elowen-api");
    assert_eq!(order.branch_name.as_deref(), Some("codex/x"));
    assert_eq!(order.action_type, "push");
    assert_eq!(order.approved_at, instant(9));
    for (job, message) in [
        (job(None, None, "repository"), "job device is missing"),
        (job(Some("e"), None, "repository"), "job branch is missing"),
        (
            job(Some("e"), Some("b"), "capability"),
            "push approval is only available for repository jobs",
        ),
    ] {
        let error = push_approval_command(&approval(), &job, instant(9)).expect_err(message);
        assert_eq!(error.status, ErrorStatus::Conflict);
        assert_eq!(error.error, message);
    }
    assert_eq!(approval_subject("edge-1"), "elowen.jobs.approvals.edge-1");
}

#[test]
fn jobs_have_a_target() {
    assert_eq!(job(None, None, "repository").target_name(), "elowen-api");
    assert_eq!(job(None, None, "capability").target_name(), "codex");
    assert_eq!(job(None, None, "other").target_kind_enum(), JobTargetKind::Repository);
}
