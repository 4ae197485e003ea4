use elowen_api::conversation::{
    assistant_request, assistant_url, build_conversation_input, build_conversation_instructions,
    build_fallback_conversational_reply, conversation_input_with, describe_note_at,
    extract_response_text, format_execution_draft_context,
    format_job_context, format_message_context, format_message_mode_label, format_note_context,
    generate_conversational_reply, maybe_annotate_draft_reply, pending_approval_index,
    summarize_text, ConversationJobContext,
};
use elowen_api::draft_payload::build_message_payload;
use elowen_api::json::Json;
use elowen_api::models::{
    ApprovalRecord, ExecutionDraft, ExecutionIntent, JobRecord, MessageRecord, NoteRecord,
    RelatedNoteContext, Relevance, SummaryRecord, ThreadRecord,
};
use elowen_api::time::Timestamp;

fn instant(secs: i64) -> Timestamp {
    Timestamp::from_parts(secs, 0).expect("the calendar holds the instant")
}

fn some(value: &str) -> Option<String> {
    Some(value.to_string())
}

fn text(value: &str) -> Json {
    Json::Text(value.to_string())
}

fn object(fields: Vec<(&str, Json)>) -> Json {
    Json::Object(fields.into_iter().map(|(key, value)| (key.to_string(), value)).collect())
}

fn message(role: &str, status: &str, content: &str) -> MessageRecord {
    MessageRecord {
        id: "m1".to_string(),
        thread_id: "thread-1".to_string(),
        role: role.to_string(),
        content: content.to_string(),
        status: status.to_string(),
        payload_json: Json::Object(Vec::new()),
        created_at: instant(0),
        updated_at: instant(0),
    }
}

fn thread() -> ThreadRecord {
    ThreadRecord {
        id: "thread-1".to_string(),
        title: "Polish".to_string(),
        status: "open".to_string(),
        current_summary_id: None,
        created_at: instant(0),
        updated_at: instant(0),
    }
}

fn draft(repo_name: Option<&str>) -> ExecutionDraft {
    ExecutionDraft {
        title: "T".to_string(),
        repo_name: repo_name.map(|value| value.to_string()),
        base_branch: "main".to_string(),
        request_text: " Do it ".to_string(),
        execution_intent: ExecutionIntent::ReadOnly,
        source_message_id: "m1".to_string(),
        source_role: "user".to_string(),
        rationale: " why ".to_string(),
    }
}

fn job(result: Option<&str>) -> JobRecord {
    JobRecord {
        id: "job-1".to_string(),
        short_id: "01abc".to_string(),
        correlation_id: "corr-1".to_string(),
        thread_id: "thread-1".to_string(),
        title: "Job title".to_string(),
        status: "completed".to_string(),
        result: result.map(|value| value.to_string()),
        failure_class: None,
        target_kind: "repository".to_string(),
        repo_name: "elowen-api".to_string(),
        capability_name: None,
        device_id: None,
        branch_name: None,
        base_branch: None,
        parent_job_id: None,
        created_at: instant(0),
        updated_at: instant(0),
        completed_at: None,
    }
}

fn approval(status: &str) -> ApprovalRecord {
    ApprovalRecord {
        id: "approval-1".to_string(),
        thread_id: "thread-1".to_string(),
        job_id: "job-1".to_string(),
        action_type: "push".to_string(),
        status: status.to_string(),
        summary: " Push it ".to_string(),
        resolved_by: None,
        resolved_by_display_name: None,
        resolution_reason: None,
        created_at: instant(0),
        resolved_at: None,
        updated_at: instant(0),
    }
}

fn related(reasons: &[&str], detail: Option<&str>) -> RelatedNoteContext {
    RelatedNoteContext {
        note: NoteRecord {
            note_id: "n1".to_string(),
            title: "Note".to_string(),
            slug: "note".to_string(),
            summary: " Summary ".to_string(),
            tags: Vec::new(),
            aliases: Vec::new(),
            note_type: "general".to_string(),
            source_kind: None,
            source_id: None,
            current_revision_id: "rev".to_string(),
            updated_at: instant(0),
            relevance: Relevance { key: 0, label: "42".to_string() },
            match_reasons: reasons.iter().map(|value| value.to_string()).collect(),
        },
        memory_role: "retrieved_memory".to_string(),
        source_label: "Retrieved by note search".to_string(),
        detail_excerpt: detail.map(|value| value.to_string()),
    }
}

#[test]
fn messages_are_labelled() {
    let mut drafted = message("assistant", "conversation.reply", "x");
    drafted.payload_json = build_message_payload(Some(&draft(None)));
    assert_eq!(format_message_mode_label(&drafted), "conversation-draft");
    for (status, label) in [
        ("conversation.reply", "conversation"),
        ("workflow.handoff.created", "handoff"),
        ("workflow.dispatch.created", "dispatch"),
        ("job_event:job-1:started", "job-update"),
        ("committed", "message"),
    ] {
        assert_eq!(format_message_mode_label(&message("user", status, "x")), label);
    }
}

#[test]
fn last_messages_are_listed() {
    assert_eq!(format_message_context(&[], 8), "- none");
    let messages = vec![
        message("user", "committed", "one"),
        message("assistant", "conversation.reply", " two "),
        message("user", "committed", "three"),
    ];
    assert_eq!(
        format_message_context(&messages, 2),
        "- [assistant | conversation] two\n- [user | message] three"
    );
    assert_eq!(summarize_text("  abcdef ", 3), "abc");
    assert_eq!(summarize_text(" é ", 9), "é");
}

#[test]
fn drafts_jobs_and_notes_are_listed() {
    assert_eq!(format_execution_draft_context(None), "- none");
    assert_eq!(
        format_execution_draft_context(Some(&draft(None))),
        "- title `T`; repo `unspecified`; branch `main`; intent `read_only`; request Do it; rationale why"
    );
    assert_eq!(format_job_context(&[]), "- none");
    let full = ConversationJobContext {
        job: JobRecord { branch_name: some("codex/x"), ..job(Some("success")) },
        summary: Some(SummaryRecord {
            id: "s".to_string(),
            scope: "job".to_string(),
            source_id: "job-1".to_string(),
            version: 1,
            content: " Sum ".to_string(),
            created_at: instant(0),
        }),
        pending_approval: Some(approval("pending")),
    };
    let bare = ConversationJobContext { job: job(None), summary: None, pending_approval: None };
    assert_eq!(
        format_job_context(&[full, bare]),
        "- [Job 01abc] repo `elowen-api` is `completed`, result `success`, branch `codex/x`, summary Sum, pending approval Push it\n- [Job 01abc] repo `elowen-api` is `completed`"
    );
    assert_eq!(format_note_context(&[], 4), "- none");
    assert_eq!(
        format_note_context(&[related(&[], None), related(&["a", "b"], Some(" body ")), related(&[], None)], 2),
        "- [Note Note] role `retrieved_memory` source `Retrieved by note search` kind `general` score `42` reasons [none] updated `1970-01-01T00:00:00+00:00`: Summary\n- [Note Note] role `retrieved_memory` source `Retrieved by note search` kind `general` score `42` reasons [a, b] updated `1970-01-01T00:00:00+00:00`: Summary | excerpt body"
    );
}

#[test]
fn first_open_approval_is_found() {
    let approvals = [approval("approved"), approval("pending"), approval("pending")];
    assert_eq!(pending_approval_index(&approvals), Some(1));
    assert_eq!(pending_approval_index(&approvals[..1]), None);
}

#[test]
fn the_assistant_is_told_about_the_thread() {
    let messages = [message("user", "committed", " Hello ")];
    assert_eq!(
        build_conversation_input(&thread(), &messages, &[], &[], None),
        "Thread title: Polish\nThread status: open\n\nLatest user message:\nHello\n\nRecent thread messages:\n- [user | message] Hello\n\nCurrent execution draft:\n- none\n\nRecent related jobs:\n- none\n\nRelated notes:\n- none\n"
    );
    assert!(build_conversation_input(&thread(), &[], &[], &[], None)
        .contains("Latest user message:\n\n\nRecent thread messages:\n- none"));
}

#[test]
fn the_assistant_is_told_about_the_notes() {
    let line = describe_note_at(&related(&["a"], None), "noon");
    assert_eq!(
        line,
        "- [Note Note] role `retrieved_memory` source `Retrieved by note search` kind `general` score `42` reasons [a] updated `noon`: Summary"
    );
    assert!(conversation_input_with(&thread(), &[], &[], &line, None)
        .ends_with("\n\nRelated notes:\n- [Note Note] role `retrieved_memory` source `Retrieved by note search` kind `general` score `42` reasons [a] updated `noon`: Summary\n"));
}

#[test]
fn the_assistant_is_asked() {
    assert_eq!(assistant_url("https://host/v1"), "https://host/v1/responses");
    let body = assistant_request("model-1", "input");
    assert_eq!(body.get("model").and_then(|value| value.as_str()), Some("model-1"));
    assert_eq!(body.get("input").and_then(|value| value.as_str()), Some("input"));
    assert_eq!(
        body.get("instructions").and_then(|value| value.as_str()),
        Some(build_conversation_instructions())
    );
    assert!(matches!(body.get("max_output_tokens"), Some(Json::Number(n)) if n == "600"));
}

#[test]
fn answers_are_read() {
    let short = object(vec![("output_text", text(" Hi ")), ("output", Json::Null)]);
    assert_eq!(extract_response_text(&short).as_deref(), Some("Hi"));
    let part = |value: &str| object(vec![("type", text("output_text")), ("text", text(value))]);
    let long = object(vec![
        ("output_text", text("  ")),
        (
            "output",
            Json::Array(vec![
                object(vec![("content", Json::Array(vec![part(" a "), part(" "), Json::Null]))]),
                object(vec![("content", Json::Null)]),
                object(vec![("content", Json::Array(vec![part("b")]))]),
            ]),
        ),
    ]);
    assert_eq!(extract_response_text(&long).as_deref(), Some("a\nb"));
    assert_eq!(extract_response_text(&object(vec![("output", Json::Array(Vec::new()))])), None);
    assert_eq!(extract_response_text(&Json::Null), None);
}

#[test]
fn replies_without_the_assistant() {
    let ask = |content: &str, jobs: &[JobRecord], notes: &[RelatedNoteContext], draft: Option<&ExecutionDraft>| {
        build_fallback_conversational_reply(
            &thread(),
            &[message("user", "committed", content)],
            jobs,
            notes,
            draft,
        )
    };
    assert_eq!(
        ask("fix it", &[job(None)], &[], Some(&draft(Some("ui")))),
        "I'm still in conversational mode for thread `Polish`. I prepared a draft for repo `ui` on base branch `main` below so you can refine it before you dispatch anything. The most recent job in this thread targeted repo `elowen-api`."
    );
    assert_eq!(
        ask("fix it", &[], &[], None),
        "I'm in conversational mode for thread `Polish` right now, so I have not created a laptop job yet. I can help refine the request or you can use the explicit dispatch controls when you're ready."
    );
    assert_eq!(
        ask("hello", &[job(None)], &[], Some(&draft(None))),
        "I'm still in conversational mode, and I prepared an execution draft for repo `unspecified` on base branch `main` from the latest request. You can keep refining it here before explicitly dispatching it."
    );
    assert_eq!(
        ask("hello", &[job(Some("success"))], &[related(&[], None)], None),
        "I'm here in conversational mode. The latest job in this thread is `01abc` for repo `elowen-api`, currently `completed`, with result `success`.\n\nI can help you reason about the next step, summarize what happened, or prepare an explicit handoff into laptop execution when you want it."
    );
    assert_eq!(
        ask("hello", &[], &[related(&[], None)], None),
        "I'm here in conversational mode. I can answer questions about this thread, help plan work, or prepare an explicit laptop dispatch when needed.\n\nThe closest related note I found is `Note`: Summary"
    );
    assert_eq!(
        ask("hello", &[], &[], None),
        "I'm here in conversational mode. Ask me questions, work through a plan with me, or use the explicit dispatch controls when you want me to create a real laptop job."
    );
}

#[test]
fn replies_of_the_assistant_come_first() {
    assert_eq!(
        generate_conversational_reply(some("Hi"), &thread(), &[], &[], &[], None),
        "Hi"
    );
    assert_eq!(
        generate_conversational_reply(None, &thread(), &[], &[], &[], None),
        build_fallback_conversational_reply(&thread(), &[], &[], &[], None)
    );
    assert_eq!(maybe_annotate_draft_reply(" x ".to_string(), None), " x ");
    assert_eq!(maybe_annotate_draft_reply(" x ".to_string(), Some(&draft(None))), "x");
}
