use elowen_api::json::Json;
use elowen_api::lifecycle::{
    approval_requested_event, build_thread_assistant_reply, meaningful_report, plan_lifecycle_event,
    AssistantReply, JobLifecycleEvent,
};
use elowen_api::models::{ApprovalRecord, JobRecord, SummaryRecord};
use elowen_api::time::Timestamp;

fn instant(secs: i64) -> Timestamp {
    Timestamp::from_parts(secs, 0).expect("the calendar holds the instant")
}

fn text(value: &str) -> Json {
    Json::Text(value.to_string())
}

fn object(fields: Vec<(&str, Json)>) -> Json {
    Json::Object(fields.into_iter().map(|(key, value)| (key.to_string(), value)).collect())
}

fn some(value: &str) -> Option<String> {
    Some(value.to_string())
}

fn event(event_type: &str, result: Option<&str>, payload_json: Option<Json>) -> JobLifecycleEvent {
    JobLifecycleEvent {
        job_id: "job-1".to_string(),
        correlation_id: "corr-1".to_string(),
        device_id: "edge-1".to_string(),
        event_type: event_type.to_string(),
        status: None,
        result: result.map(|value| value.to_string()),
        failure_class: None,
        worktree_path: None,
        detail: None,
        payload_json,
        created_at: instant(77),
    }
}

fn job() -> JobRecord {
    JobRecord {
        id: "job-1".to_string(),
        short_id: "01abc".to_string(),
        correlation_id: "corr-1".to_string(),
        thread_id: "thread-1".to_string(),
        title: "Title".to_string(),
        status: "running".to_string(),
        result: None,
        failure_class: None,
        target_kind: "repository".to_string(),
        repo_name: "elowen-api".to_string(),
        capability_name: None,
        device_id: some("edge-1"),
        branch_name: some("codex/x"),
        base_branch: some("main"),
        parent_job_id: None,
        created_at: instant(0),
        updated_at: instant(0),
        completed_at: None,
    }
}

fn summary(content: &str) -> SummaryRecord {
    SummaryRecord {
        id: "summary-1".to_string(),
        scope: "job".to_string(),
        source_id: "job-1".to_string(),
        version: 1,
        content: content.to_string(),
        created_at: instant(0),
    }
}

fn report(intent: &str) -> Json {
    object(vec![
        ("build", object(vec![("status", text("passed"))])),
        ("changed_files", Json::Array(vec![text("a")])),
        ("last_message", text("First.\n\nSecond.")),
        ("execution_intent", text(intent)),
    ])
}

fn keys(value: &Json) -> Vec<String> {
    match value {
        Json::Object(fields) => fields.iter().map(|(key, _)| key.clone()).collect(),
        other => panic!("unexpected value {other:?}"),
    }
}

fn details(reply: &AssistantReply) -> String {
    let result = reply.payload.get("job_result").expect("a result");
    assert_eq!(result.get("job_id").and_then(|value| value.as_str()), Some("job-1"));
    assert_eq!(result.get("job_short_id").and_then(|value| value.as_str()), Some("01abc"));
    result.get("details").and_then(|value| value.as_str()).expect("details").to_string()
}

#[test]
fn reports_are_recorded() {
    let mut full = event("job.completed", Some("success"), Some(object(vec![("x", text("y"))])));
    full.status = some("completed");
    full.failure_class = some("f");
    full.worktree_path = some("/w");
    full.detail = some("d");
    let plan = plan_lifecycle_event(&full);
    assert_eq!(
        keys(&plan.payload),
        vec![
            "correlation_id", "device_id", "status", "result", "failure_class", "worktree_path",
            "detail", "payload",
        ]
    );
    let change = plan.change.expect("a status");
    assert_eq!(change.status, "completed");
    assert_eq!(change.result.as_deref(), Some("success"));
    assert_eq!(change.failure_class.as_deref(), Some("f"));
    assert_eq!(plan.completed_at, Some(instant(77)));
    let bare = plan_lifecycle_event(&event("job.started", None, None));
    assert_eq!(keys(&bare.payload), vec!["correlation_id", "device_id", "payload"]);
    assert!(matches!(bare.payload.get("payload"), Some(Json::Object(fields)) if fields.is_empty()));
    assert!(bare.change.is_none());
    assert_eq!(bare.completed_at, None);
}

#[test]
fn only_final_states_end_a_job() {
    for (status, ends) in [
        ("completed", true),
        ("failed", true),
        ("cancelled", true),
        ("running", false),
        ("Completed", false),
    ] {
        let mut report = event("job.status", None, None);
        report.status = some(status);
        assert_eq!(plan_lifecycle_event(&report).completed_at.is_some(), ends);
    }
}

#[test]
fn reports_carry_summaries_and_approvals() {
    let plan = plan_lifecycle_event(&event(
        "job.awaiting_approval",
        None,
        Some(object(vec![
            ("summary_markdown", text(" # Done ")),
            ("execution_report", report("read_only")),
            ("summary", text(" Push it ")),
        ])),
    ));
    assert_eq!(plan.summary_markdown.as_deref(), Some("# Done"));
    assert_eq!(plan.approval_summary.as_deref(), Some("Push it"));
    assert!(plan.execution_report.is_some());
    let plan = plan_lifecycle_event(&event("job.awaiting_approval", None, None));
    assert_eq!(plan.approval_summary.as_deref(), Some("Approve push for completed job"));
    assert_eq!(plan.summary_markdown, None);
    let plan = plan_lifecycle_event(&event("job.completed", None, Some(object(vec![("summary", text("s"))]))));
    assert_eq!(plan.approval_summary, None);
    assert!(plan.execution_report.is_none());
}

#[test]
fn requests_for_approval_are_recorded() {
    let approval = ApprovalRecord {
        id: "approval-1".to_string(),
        thread_id: "thread-1".to_string(),
        job_id: "job-1".to_string(),
        action_type: "push".to_string(),
        status: "pending".to_string(),
        summary: "Push it".to_string(),
        resolved_by: None,
        resolved_by_display_name: None,
        resolution_reason: None,
        created_at: instant(0),
        resolved_at: None,
        updated_at: instant(0),
    };
    let event = approval_requested_event("corr-1", &approval);
    assert_eq!(event.event_type, "approval.requested");
    assert_eq!(keys(&event.payload), vec!["correlation_id", "approval_id", "action_type", "summary"]);
}

#[test]
fn empty_reports_count_as_none() {
    let empty = Json::Object(Vec::new());
    assert!(meaningful_report(Some(&empty)).is_none());
    assert!(meaningful_report(None).is_none());
    assert!(meaningful_report(Some(&Json::Null)).is_some());
    assert!(meaningful_report(Some(&report("read_only"))).is_some());
}

#[test]
fn steps_are_announced() {
    let reply = |kind: &str| {
        build_thread_assistant_reply(&job(), &event(kind, None, None), None, None).expect("a reply")
    };
    let started = reply("job.started");
    assert_eq!(started.status_marker, "job_event:job-1:started");
    assert_eq!(
        started.content,
        "I started working on job `01abc` for repository `elowen-api` on device `edge-1`."
    );
    assert!(keys(&started.payload).is_empty());
    let pushing = reply("job.push_started");
    assert_eq!(pushing.status_marker, "job_event:job-1:push_started");
    assert_eq!(
        pushing.content,
        "Push approval landed for job `01abc`. I started pushing branch `codex/x` from device `edge-1`."
    );
    let pushed = reply("job.push_completed");
    assert_eq!(pushed.content, "I finished pushing branch `codex/x` for job `01abc` to `origin`.");
    assert_ne!(started.status_marker, pushed.status_marker);
    let other = event("job.progress", None, None);
    assert!(build_thread_assistant_reply(&job(), &other, None, None).is_none());
    let mut unnamed = job();
    unnamed.branch_name = None;
    let pushed =
        build_thread_assistant_reply(&unnamed, &event("job.push_completed", None, None), None, None)
            .expect("a reply");
    assert_eq!(pushed.content, "I finished pushing branch `unknown` for job `01abc` to `origin`.");
}

#[test]
fn waiting_pushes_are_announced() {
    let waiting = event("job.awaiting_approval", None, Some(object(vec![("summary", text("Push it"))])));
    let change = report("workspace_change");
    let reply = build_thread_assistant_reply(&job(), &waiting, Some(&change), None).expect("a reply");
    assert_eq!(reply.status_marker, "job_event:job-1:awaiting_approval");
    assert_eq!(reply.content, "First.\n\nPush approval is pending.");
    assert_eq!(
        details(&reply),
        "I finished job `01abc` for repo `elowen-api` successfully.\nBranch: `codex/x`\nBuild: passed\nChanged entries: 1\n\nFinal result:\nFirst.\n\nSecond.\n\nPush it"
    );
    let bare = event("job.awaiting_approval", None, None);
    let reply = build_thread_assistant_reply(&job(), &bare, None, None).expect("a reply");
    assert_eq!(reply.content, "Job `01abc` finished its main work and is waiting for push approval.");
    assert!(details(&reply).ends_with("\n\nPush is waiting for approval."));
}

#[test]
fn successes_are_announced() {
    let done = event("job.completed", Some("success"), None);
    let read_only = report("read_only");
    let reply = build_thread_assistant_reply(&job(), &done, Some(&read_only), None).expect("a reply");
    assert_eq!(reply.status_marker, "job_event:job-1:completed");
    assert_eq!(reply.content, "First.");
    assert!(details(&reply).starts_with("I finished read-only job `01abc`"));
    let reply = build_thread_assistant_reply(&job(), &done, None, None).expect("a reply");
    assert_eq!(reply.content, "Job `01abc` finished successfully. No push approval was required.");
    let push = event(
        "job.completed",
        Some("success"),
        Some(object(vec![("push_required", Json::Bool(true))])),
    );
    assert!(build_thread_assistant_reply(&job(), &push, None, None).is_none());
    let reply = build_thread_assistant_reply(&job(), &push, Some(&read_only), None).expect("a reply");
    assert_eq!(reply.content, "First.");
}

#[test]
fn failures_are_announced() {
    let mut failed = event("job.failed", Some("failure"), None);
    failed.detail = some(" it broke ");
    let reply =
        build_thread_assistant_reply(&job(), &failed, None, Some(&summary("s"))).expect("a reply");
    assert_eq!(reply.status_marker, "job_event:job-1:failed");
    assert_eq!(reply.content, "it broke");
    assert_eq!(
        details(&reply),
        "I couldn't complete job `01abc` for repo `elowen-api`.\nBranch: `codex/x`\nDetail: it broke"
    );
    let ended = event("job.completed", None, None);
    let reply =
        build_thread_assistant_reply(&job(), &ended, None, Some(&summary(" why "))).expect("a reply");
    assert_eq!(reply.status_marker, "job_event:job-1:completed");
    assert_eq!(reply.content, "why");
    let reply = build_thread_assistant_reply(&job(), &ended, None, None).expect("a reply");
    assert_eq!(reply.content, "The job did not complete successfully.");
}
