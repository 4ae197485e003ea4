use elowen_api::approvals::{
    after_approval_publish, after_decision, completes_job, ensure_pending,
    read_decision, resolved_event, AfterDecision, Resolution, ResolveApprovalRequest,
};
use elowen_api::auth::{AuthRole, SessionActor};
use elowen_api::draft_payload::build_message_payload;
use elowen_api::error::ErrorStatus;
use elowen_api::json::Json;
use elowen_api::models::{
    ApprovalRecord, ExecutionDraft, ExecutionIntent, JobRecord, JobTargetKind, MessageRecord,
    NoteRecord, Relevance, SummaryRecord,
};
use elowen_api::promotion::{
    body_from, default_body, existing_note_id, existing_note_search, promote_job, promote_request,
    PromoteJobNoteRequest,
};
use elowen_api::threads::{
    chat_content, chat_dispatch_request, dispatch_acknowledgement, handoff_acknowledgement,
    handoff_request, message_content, thread_title, CreateChatDispatchRequest,
    DispatchThreadMessageRequest,
};
use elowen_api::time::Timestamp;

fn instant(secs: i64) -> Timestamp {
    Timestamp::from_parts(secs, 0).expect("the calendar holds the instant")
}

fn some(value: &str) -> Option<String> {
    Some(value.to_string())
}

fn message(role: &str, content: &str, payload_json: Json) -> MessageRecord {
    MessageRecord {
        id: "m1".to_string(),
        thread_id: "thread-1".to_string(),
        role: role.to_string(),
        content: content.to_string(),
        status: "committed".to_string(),
        payload_json,
        created_at: instant(0),
        updated_at: instant(0),
    }
}

fn plain(role: &str, content: &str) -> MessageRecord {
    message(role, content, Json::Object(Vec::new()))
}

fn draft() -> ExecutionDraft {
    ExecutionDraft {
        title: "Drafted".to_string(),
        repo_name: some("elowen-ui"),
        base_branch: "dev".to_string(),
        request_text: "Do the drafted work".to_string(),
        execution_intent: ExecutionIntent::ReadOnly,
        source_message_id: "u1".to_string(),
        source_role: "user".to_string(),
        rationale: "because".to_string(),
    }
}

fn handoff() -> DispatchThreadMessageRequest {
    DispatchThreadMessageRequest {
        source_message_id: "m1".to_string(),
        title: None,
        target_kind: JobTargetKind::Repository,
        target_name: None,
        base_branch: None,
        device_id: some("edge-1"),
        prompt: None,
        execution_intent: None,
    }
}

fn chat() -> CreateChatDispatchRequest {
    CreateChatDispatchRequest {
        content: " Fix the header ".to_string(),
        title: None,
        target_kind: JobTargetKind::Repository,
        target_name: some(" elowen-ui "),
        base_branch: some("  "),
        device_id: None,
        execution_intent: None,
    }
}

fn job(device_id: Option<&str>, branch_name: Option<&str>, target_kind: &str) -> JobRecord {
    JobRecord {
        id: "job-1".to_string(),
        short_id: "01abc".to_string(),
        correlation_id: "corr-1".to_string(),
        thread_id: "thread-1".to_string(),
        title: "Job title".to_string(),
        status: "dispatched".to_string(),
        result: some("success"),
        failure_class: None,
        target_kind: target_kind.to_string(),
        repo_name: "elowen-api".to_string(),
        capability_name: some("codex"),
        device_id: device_id.map(|value| value.to_string()),
        branch_name: branch_name.map(|value| value.to_string()),
        base_branch: None,
        parent_job_id: None,
        created_at: instant(0),
        updated_at: instant(0),
        completed_at: None,
    }
}

fn approval(status: &str, action_type: &str) -> ApprovalRecord {
    ApprovalRecord {
        id: "approval-1".to_string(),
        thread_id: "thread-1".to_string(),
        job_id: "job-1".to_string(),
        action_type: action_type.to_string(),
        status: status.to_string(),
        summary: "Push".to_string(),
        resolved_by: some("ada"),
        resolved_by_display_name: None,
        resolution_reason: None,
        created_at: instant(0),
        resolved_at: None,
        updated_at: instant(0),
    }
}

fn summary() -> SummaryRecord {
    SummaryRecord {
        id: "summary-1".to_string(),
        scope: "job".to_string(),
        source_id: "job-1".to_string(),
        version: 3,
        content: " Summary text ".to_string(),
        created_at: instant(0),
    }
}

fn note(note_id: &str) -> NoteRecord {
    NoteRecord {
        note_id: note_id.to_string(),
        title: "Note".to_string(),
        slug: "note".to_string(),
        summary: "summary".to_string(),
        tags: Vec::new(),
        aliases: Vec::new(),
        note_type: "general".to_string(),
        source_kind: None,
        source_id: None,
        current_revision_id: "rev".to_string(),
        updated_at: instant(0),
        relevance: Relevance { key: 0, label: "0".to_string() },
        match_reasons: Vec::new(),
    }
}

fn promotion() -> PromoteJobNoteRequest {
    PromoteJobNoteRequest {
        title: None,
        summary: None,
        body_markdown: None,
        tags: vec!["t".to_string()],
        aliases: vec!["a".to_string()],
        note_type: some("decision"),
    }
}

fn operator() -> SessionActor {
    SessionActor {
        username: "ada".to_string(),
        display_name: "Ada".to_string(),
        role: AuthRole::Operator,
    }
}

#[test]
fn texts_are_required() {
    assert_eq!(thread_title(" T ").ok().as_deref(), Some("T"));
    let error = thread_title("  ").expect_err("blank");
    assert_eq!((error.status, error.error.as_str()), (ErrorStatus::BadRequest, "thread title is required"));
    assert_eq!(chat_content(" c ").ok().as_deref(), Some("c"));
    assert_eq!(chat_content("").expect_err("blank").error, "message content is required");
    for role in ["user", "assistant", "system"] {
        assert_eq!(message_content(role, " x ").ok().as_deref(), Some("x"));
    }
    assert_eq!(message_content("robot", " ").expect_err("blank").error, "message content is required");
    assert_eq!(
        message_content("robot", "x").expect_err("unknown role").error,
        "message role must be one of: user, assistant, system"
    );
}

#[test]
fn messages_become_jobs() {
    let job = handoff_request(handoff(), &plain("user", " Fix the footer. ")).expect("a job");
    assert_eq!(job.title, "Fix the footer");
    assert_eq!(job.prompt, "Fix the footer.");
    assert_eq!(job.target_name, None);
    assert_eq!(job.base_branch, None);
    assert_eq!(job.device_id.as_deref(), Some("edge-1"));
    assert_eq!(job.execution_intent, Some(ExecutionIntent::WorkspaceChange));
    for (message, expected) in [
        (plain("system", "x"), "only user or assistant messages can be dispatched"),
        (plain("user", "  "), "source message content is required"),
    ] {
        let error = handoff_request(handoff(), &message).expect_err(expected);
        assert_eq!(error.status, ErrorStatus::BadRequest);
        assert_eq!(error.error, expected);
    }
}

#[test]
fn drafts_fill_in_what_the_request_leaves_out() {
    let source = message("assistant", "reply", build_message_payload(Some(&draft())));
    let job = handoff_request(handoff(), &source).expect("a job");
    assert_eq!(job.title, "Drafted");
    assert_eq!(job.prompt, "Do the drafted work");
    assert_eq!(job.target_name.as_deref(), Some("elowen-ui"));
    assert_eq!(job.base_branch.as_deref(), Some("dev"));
    assert_eq!(job.execution_intent, Some(ExecutionIntent::ReadOnly));
    let request = DispatchThreadMessageRequest {
        title: some(" Mine "),
        target_kind: JobTargetKind::Capability,
        target_name: some("codex"),
        base_branch: some("main"),
        prompt: some(" Other "),
        execution_intent: Some(ExecutionIntent::WorkspaceChange),
        ..handoff()
    };
    let job = handoff_request(request, &source).expect("a job");
    assert_eq!(job.title, "Mine");
    assert_eq!(job.prompt, "Other");
    assert_eq!(job.target_kind, JobTargetKind::Capability);
    assert_eq!(job.target_name.as_deref(), Some("codex"));
    assert_eq!(job.base_branch.as_deref(), Some("main"));
    assert_eq!(job.execution_intent, Some(ExecutionIntent::WorkspaceChange));
}

#[test]
fn chats_become_jobs() {
    let made = chat_dispatch_request(chat()).expect("a job");
    assert_eq!(made.title, "Fix the header");
    assert_eq!(made.prompt, "Fix the header");
    assert_eq!(made.target_name.as_deref(), Some("elowen-ui"));
    assert_eq!(made.base_branch, None);
    assert_eq!(made.execution_intent, Some(ExecutionIntent::WorkspaceChange));
    let titled = CreateChatDispatchRequest {
        title: some(" T "),
        execution_intent: Some(ExecutionIntent::ReadOnly),
        ..chat()
    };
    let made = chat_dispatch_request(titled).expect("a job");
    assert_eq!(made.title, "T");
    assert_eq!(made.execution_intent, Some(ExecutionIntent::ReadOnly));
    let error = chat_dispatch_request(CreateChatDispatchRequest { content: " ".to_string(), ..chat() })
        .expect_err("blank");
    assert_eq!(error.error, "message content is required");
}

#[test]
fn jobs_are_acknowledged() {
    assert_eq!(
        handoff_acknowledgement(
            &plain("user", "x"),
            &job(None, None, "repository"),
            &ExecutionIntent::ReadOnly,
            " Look at it ",
        ),
        "Escalated user message `m1` into job `01abc` for repository `elowen-api` in read-only mode.\nRequest summary: Look at it"
    );
    let long = "y".repeat(200);
    let text = handoff_acknowledgement(
        &plain("user", "x"),
        &job(None, None, "repository"),
        &ExecutionIntent::ReadOnly,
        &long,
    );
    assert!(text.ends_with(&format!("Request summary: {}", "y".repeat(160))));
    assert_eq!(
        dispatch_acknowledgement(&job(Some("edge-1"), None, "capability"), &ExecutionIntent::WorkspaceChange),
        "Created job `01abc` with status `dispatched` on device `edge-1` for capability `codex` in workspace-change mode."
    );
    assert!(dispatch_acknowledgement(&job(None, None, "repository"), &ExecutionIntent::ReadOnly)
        .contains("on device `unassigned` for repository `elowen-api`"));
}

#[test]
fn decisions_are_read() {
    let ask = |status: &str| ResolveApprovalRequest {
        status: status.to_string(),
        resolved_by: some(" ada "),
        reason: some("  "),
    };
    let decision = read_decision(ask(" Approved ")).expect("a decision");
    assert_eq!(decision.resolution, Resolution::Approved);
    assert_eq!(decision.resolved_by.as_deref(), Some("ada"));
    assert_eq!(decision.reason, None);
    assert_eq!(read_decision(ask("REJECTED")).expect("a decision").resolution, Resolution::Rejected);
    let error = read_decision(ask("maybe")).expect_err("no decision");
    assert_eq!(error.status, ErrorStatus::BadRequest);
    assert_eq!(error.error, "approval status must be `approved` or `rejected`");
}

#[test]
fn decisions_are_made_once() {
    assert!(ensure_pending(&approval("pending", "push")).is_ok());
    for resolution in [Resolution::Approved, Resolution::Rejected] {
        let error = ensure_pending(&approval(resolution.as_str(), "push")).expect_err("made");
        assert_eq!(error.status, ErrorStatus::Conflict);
        assert_eq!(error.error, "approval has already been resolved");
    }
}

#[test]
fn allowed_pushes_are_sent_or_open_again() {
    let after = |resolution, action: &str, job: &JobRecord| {
        after_decision(resolution, &approval("approved", action), job, instant(9))
    };
    let complete = job(Some("edge-1"), Some("codex/x"), "repository");
    match after(Resolution::Approved, "push", &complete) {
        AfterDecision::Publish(command) => {
            assert_eq!(command.device_id, "edge-1");
            assert_eq!(command.branch_name.as_deref(), Some("codex/x"));
            assert_eq!(command.approved_at, instant(9));
        }
        other => panic!("unexpected step {other:?}"),
    }
    assert!(matches!(after(Resolution::Rejected, "push", &complete), AfterDecision::Record));
    assert!(matches!(after(Resolution::Approved, "deploy", &complete), AfterDecision::Record));
    for (job, message) in [
        (job(None, None, "repository"), "approved push job is missing an assigned device"),
        (job(Some("e"), None, "repository"), "approved push job is missing a branch name"),
    ] {
        match after(Resolution::Approved, "push", &job) {
            AfterDecision::Reopen(error) => {
                assert_eq!(error.status, ErrorStatus::Conflict);
                assert_eq!(error.error, message);
            }
            other => panic!("unexpected step {other:?}"),
        }
    }
    match after(Resolution::Approved, "push", &job(Some("e"), Some("b"), "capability")) {
        AfterDecision::ReopenUnsent(reopened) => {
            assert_eq!(reopened.event.event_type, "approval.dispatch_failed");
            assert_eq!(
                reopened.event.payload.get("error").and_then(|value| value.as_str()),
                Some("push approval is only available for repository jobs")
            );
            assert_eq!(reopened.error.error, "failed to publish approved push command");
        }
        other => panic!("unexpected step {other:?}"),
    }
}

#[test]
fn decisions_are_recorded() {
    let keys = |value: &Json| match value {
        Json::Object(fields) => fields.iter().map(|(key, _)| key.clone()).collect::<Vec<_>>(),
        other => panic!("unexpected value {other:?}"),
    };
    let event = resolved_event(Resolution::Rejected, &approval("rejected", "push"), "corr-1");
    assert_eq!(event.event_type, "approval.rejected");
    assert_eq!(
        keys(&event.payload),
        vec!["correlation_id", "approval_id", "action_type", "resolved_by", "reason"]
    );
    assert_eq!(event.payload.get("resolved_by").and_then(|value| value.as_str()), Some("ada"));
    assert!(matches!(event.payload.get("reason"), Some(Json::Null)));
    assert!(after_approval_publish(&approval("approved", "push"), None).is_none());
    let reopened = after_approval_publish(&approval("approved", "push"), Some("no route"))
        .expect("the order was not sent");
    assert_eq!(reopened.event.event_type, "approval.dispatch_failed");
    assert_eq!(keys(&reopened.event.payload), vec!["approval_id", "action_type", "error"]);
    assert_eq!(
        reopened.event.payload.get("error").and_then(|value| value.as_str()),
        Some("no route")
    );
    assert_eq!(reopened.error.status, ErrorStatus::Internal);
    assert_eq!(reopened.error.error, "failed to publish approved push command");
    assert!(completes_job(Resolution::Rejected, &approval("rejected", "push")));
    assert!(completes_job(Resolution::Approved, &approval("approved", "deploy")));
    assert!(!completes_job(Resolution::Approved, &approval("approved", "push")));
}

#[test]
fn notes_are_made_of_jobs() {
    let job = job(None, Some("codex/x"), "repository");
    let search = existing_note_search(&job);
    assert_eq!(search.source_kind.as_deref(), Some("job"));
    assert_eq!(search.source_id.as_deref(), Some("job-1"));
    assert_eq!(search.limit, 1);
    let made = promote_job(promotion(), &job, Some(&summary()), operator(), &[note("n1"), note("n2")]);
    assert_eq!(made.note_id.as_deref(), Some("n1"));
    assert_eq!(made.source_kind.as_deref(), Some("job"));
    assert_eq!(made.source_id.as_deref(), Some("job-1"));
    assert_eq!(made.title.as_deref(), Some("Job title"));
    assert_eq!(made.slug, None);
    assert_eq!(made.summary.as_deref(), Some("Summary text"));
    assert_eq!(made.body_markdown, " Summary text ");
    assert_eq!(made.tags, vec!["t".to_string()]);
    assert_eq!(made.aliases, vec!["a".to_string()]);
    assert_eq!(made.note_type.as_deref(), Some("decision"));
    let front = made.frontmatter.expect("front matter");
    assert_eq!(front.get("job_id").and_then(|value| value.as_str()), Some("job-1"));
    assert_eq!(front.get("repo_name").and_then(|value| value.as_str()), Some("elowen-api"));
    assert_eq!(front.get("branch_name").and_then(|value| value.as_str()), Some("codex/x"));
    let author = made.authored_by.expect("an author");
    assert_eq!(author.actor_type, "operator");
    assert_eq!(author.actor_id, "ada");
    assert_eq!(author.display_name.as_deref(), Some("Ada"));
    let sources: Vec<(String, String, Option<String>)> = made
        .source_references
        .into_iter()
        .map(|source| (source.source_kind, source.source_id, source.label))
        .collect();
    assert_eq!(
        sources,
        vec![
            ("job".to_string(), "job-1".to_string(), some("Job 01abc")),
            ("thread".to_string(), "thread-1".to_string(), some("Owning thread")),
            ("summary".to_string(), "summary-1".to_string(), some("Job summary v3")),
        ]
    );
}

#[test]
fn notes_say_what_they_are_told_to_say() {
    let job = job(None, None, "repository");
    let told = PromoteJobNoteRequest {
        title: some(" As is "),
        summary: some("S"),
        body_markdown: some(" Body "),
        ..promotion()
    };
    let made = promote_job(told, &job, None, operator(), &[]);
    assert_eq!(made.note_id, None);
    assert_eq!(made.title.as_deref(), Some(" As is "));
    assert_eq!(made.summary.as_deref(), Some("S"));
    assert_eq!(made.body_markdown, "Body");
    assert_eq!(made.source_references.len(), 2);
    let made = promote_request(promotion(), &job, None, operator(), None, "fallback".to_string());
    assert_eq!(made.body_markdown, "fallback");
    assert_eq!(made.summary, None);
    assert_eq!(existing_note_id(&[]), None);
}

#[test]
fn notes_without_a_summary_show_the_result() {
    let mut job = job(None, None, "repository");
    assert_eq!(default_body(&job, None), "# Job title\n\nResult: Some(\"success\")\n");
    job.result = some("a \"b\"\n");
    assert_eq!(default_body(&job, None), "# Job title\n\nResult: Some(\"a \\\"b\\\"\\n\")\n");
    job.result = None;
    assert_eq!(default_body(&job, None), "# Job title\n\nResult: None\n");
    assert_eq!(default_body(&job, Some(&summary())), " Summary text ");
    assert_eq!(body_from("T", "r"), "# T\n\nResult: r\n");
}
