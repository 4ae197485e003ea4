use elowen_api::conversation::maybe_annotate_draft_reply;
use elowen_api::draft_payload::{build_message_payload, decode_intent, message_execution_draft};
use elowen_api::drafts::{
    extract_backticked_hint, extract_base_branch_hint, extract_execution_intent_override,
    extract_keyword_value, extract_phrase_value, extract_refinement_request_update,
    extract_repo_hint, extract_title_hint, infer_execution_intent, is_metadata_only_clause,
    last_user_index, looks_like_draft_refinement, looks_like_execution_request,
    looks_like_read_only_request, maybe_build_execution_draft, merge_request_text,
    parse_draft_refinement, strip_metadata_prefix, DraftRefinement,
};
use elowen_api::json::Json;
use elowen_api::models::{ExecutionDraft, ExecutionIntent, JobRecord, MessageRecord};
use elowen_api::time::now;

fn text(value: &str) -> Json {
    Json::Text(value.to_string())
}

fn user_message(id: &str, content: &str) -> MessageRecord {
    MessageRecord {
        id: id.to_string(),
        thread_id: "thread-1".to_string(),
        role: "user".to_string(),
        content: content.to_string(),
        status: "conversation.user".to_string(),
        payload_json: Json::Object(Vec::new()),
        created_at: now(),
        updated_at: now(),
    }
}

fn draft_json(draft: &ExecutionDraft) -> Json {
    Json::Object(vec![
        ("title".to_string(), text(&draft.title)),
        (
            "repo_name".to_string(),
            match &draft.repo_name {
                Some(name) => text(name),
                None => Json::Null,
            },
        ),
        ("base_branch".to_string(), text(&draft.base_branch)),
        ("request_text".to_string(), text(&draft.request_text)),
        ("execution_intent".to_string(), text(draft.execution_intent.as_str())),
        ("source_message_id".to_string(), text(&draft.source_message_id)),
        ("source_role".to_string(), text(&draft.source_role)),
        ("rationale".to_string(), text(&draft.rationale)),
    ])
}

fn assistant_draft_message(id: &str, draft: &ExecutionDraft) -> MessageRecord {
    MessageRecord {
        id: id.to_string(),
        thread_id: "thread-1".to_string(),
        role: "assistant".to_string(),
        content: "draft".to_string(),
        status: "conversation.reply".to_string(),
        payload_json: Json::Object(vec![("execution_draft".to_string(), draft_json(draft))]),
        created_at: now(),
        updated_at: now(),
    }
}

fn previous_draft() -> ExecutionDraft {
    ExecutionDraft {
        title: "Polish chat shell".to_string(),
        repo_name: Some("elowen-ui".to_string()),
        base_branch: "main".to_string(),
        request_text: "Tighten the chat shell spacing and improve result presentation."
            .to_string(),
        execution_intent: ExecutionIntent::WorkspaceChange,
        source_message_id: "u1".to_string(),
        source_role: "user".to_string(),
        rationale: "Prepared from the latest user request so it can be reviewed before dispatch."
            .to_string(),
    }
}

fn sample_job() -> JobRecord {
    JobRecord {
        id: "job-1".to_string(),
        short_id: "job-1".to_string(),
        correlation_id: "corr-1".to_string(),
        thread_id: "thread-1".to_string(),
        title: "Existing".to_string(),
        status: "completed".to_string(),
        result: Some("success".to_string()),
        failure_class: None,
        target_kind: "repository".to_string(),
        repo_name: "elowen-api".to_string(),
        capability_name: None,
        device_id: Some("edge-1".to_string()),
        branch_name: Some("codex/job-1-existing".to_string()),
        base_branch: Some("main".to_string()),
        parent_job_id: None,
        created_at: now(),
        updated_at: now(),
        completed_at: None,
    }
}

#[test]
fn parses_explicit_refinement_overrides_and_request_update() {
    assert_eq!(
        parse_draft_refinement(
            "Use repo `elowen-api`, branch `release/2026`, call it `API transcript polish`, and add failure detail disclosure."
        ),
        DraftRefinement {
            repo_name: Some("elowen-api".to_string()),
            base_branch: Some("release/2026".to_string()),
            title: Some("API transcript polish".to_string()),
            request_update: Some("add failure detail disclosure".to_string()),
        }
    );
}

#[test]
fn metadata_only_refinement_does_not_pollute_request_text() {
    let draft = previous_draft();
    let messages = vec![
        user_message(
            "u1",
            "Tighten the chat shell spacing and improve result presentation.",
        ),
        assistant_draft_message("a1", &draft),
        user_message(
            "u2",
            "Use repo `elowen-api`, base branch `release/2026`, and call it `API transcript polish`.",
        ),
    ];

    let next_draft = maybe_build_execution_draft(&messages, &[sample_job()]).unwrap();

    assert_eq!(next_draft.repo_name.as_deref(), Some("elowen-api"));
    assert_eq!(next_draft.base_branch, "release/2026");
    assert_eq!(next_draft.title, "API transcript polish");
    assert_eq!(
        next_draft.request_text,
        "Tighten the chat shell spacing and improve result presentation."
    );
}

#[test]
fn substantive_refinement_appends_only_residual_instruction() {
    let draft = previous_draft();
    let messages = vec![
        user_message(
            "u1",
            "Tighten the chat shell spacing and improve result presentation.",
        ),
        assistant_draft_message("a1", &draft),
        user_message(
            "u2",
            "Use repo `elowen-ui` and add local timestamp formatting in the thread transcript.",
        ),
    ];

    let next_draft = maybe_build_execution_draft(&messages, &[sample_job()]).unwrap();

    assert_eq!(
        next_draft.request_text,
        "Tighten the chat shell spacing and improve result presentation.\n\nAdditional instruction: add local timestamp formatting in the thread transcript"
    );
    assert_eq!(
        next_draft.title,
        "Add local timestamp formatting in the thread"
    );
}

#[test]
fn empty_draft_reply_uses_single_line_prompt() {
    assert_eq!(
        maybe_annotate_draft_reply("".to_string(), Some(&previous_draft())),
        "I prepared an execution draft below so you can keep refining it before dispatch."
    );
}

#[test]
fn non_empty_draft_reply_is_not_padded_with_duplicate_handoff_copy() {
    assert_eq!(
        maybe_annotate_draft_reply(
            "Let's tighten the transcript surfaces first.".to_string(),
            Some(&previous_draft()),
        ),
        "Let's tighten the transcript surfaces first."
    );
}

#[test]
fn extracts_title_hint_from_rename_phrase() {
    assert_eq!(
        extract_title_hint("Rename it to `Transcript polish` and keep it read-only."),
        Some("Transcript polish".to_string())
    );
}

#[test]
fn refinement_request_update_ignores_metadata_only_clauses() {
    assert_eq!(
        extract_refinement_request_update(
            "Use repo `elowen-ui`. Base branch `release/2026`. Keep it read-only."
        ),
        None
    );
}

fn with_payload(payload_json: Json) -> MessageRecord {
    MessageRecord { payload_json, ..user_message("m", "x") }
}

fn refined(request: &str, previous: ExecutionDraft) -> ExecutionDraft {
    let messages = vec![assistant_draft_message("a1", &previous), user_message("u2", request)];
    maybe_build_execution_draft(&messages, &[]).expect("a refinement")
}

#[test]
fn drafts_come_back_from_messages() {
    let mut bare = previous_draft();
    bare.repo_name = None;
    bare.execution_intent = ExecutionIntent::ReadOnly;
    for draft in [previous_draft(), bare] {
        let message = with_payload(build_message_payload(Some(&draft)));
        let read = message_execution_draft(&message).expect("a draft");
        assert_eq!(format!("{read:?}"), format!("{draft:?}"));
    }
    let empty = build_message_payload(None);
    assert!(matches!(&empty, Json::Object(fields) if fields.is_empty()));
    assert!(message_execution_draft(&with_payload(empty)).is_none());
    assert!(message_execution_draft(&with_payload(Json::Null)).is_none());
}

#[test]
fn incomplete_drafts_are_none() {
    for missing in 0..8 {
        let mut fields = match draft_json(&previous_draft()) {
            Json::Object(fields) => fields,
            other => panic!("unexpected value {other:?}"),
        };
        let (key, _) = fields.remove(missing);
        let payload = Json::Object(vec![("execution_draft".to_string(), Json::Object(fields))]);
        assert_eq!(message_execution_draft(&with_payload(payload)).is_some(), key == "repo_name");
    }
    let wrong = Json::Object(vec![("execution_draft".to_string(), text("draft"))]);
    assert!(message_execution_draft(&with_payload(wrong)).is_none());
    assert_eq!(decode_intent(&text("read_only")), Some(ExecutionIntent::ReadOnly));
    assert_eq!(decode_intent(&text("workspace_change")), Some(ExecutionIntent::WorkspaceChange));
    assert_eq!(decode_intent(&text("ReadOnly")), None);
    assert_eq!(decode_intent(&Json::Null), None);
}

#[test]
fn requests_are_told_apart() {
    assert!(looks_like_execution_request("Please FIX the page"));
    assert!(looks_like_execution_request("send to laptop"));
    assert!(!looks_like_execution_request("prefixes are fine"));
    assert!(looks_like_read_only_request("don't change anything"));
    assert!(looks_like_read_only_request("What is this?"));
    assert!(!looks_like_read_only_request("paint it blue"));
    assert_eq!(infer_execution_intent("explain it"), ExecutionIntent::ReadOnly);
    assert_eq!(infer_execution_intent("paint it"), ExecutionIntent::WorkspaceChange);
    assert!(looks_like_draft_refinement("do that instead"));
    assert!(!looks_like_draft_refinement("thanks"));
    assert_eq!(
        extract_execution_intent_override("Keep it Read-Only, allow changes"),
        Some(ExecutionIntent::ReadOnly)
    );
    assert_eq!(
        extract_execution_intent_override("go ahead and change it"),
        Some(ExecutionIntent::WorkspaceChange)
    );
    assert_eq!(extract_execution_intent_override("do not create commits"), None);
}

#[test]
fn hints_are_read() {
    assert_eq!(extract_backticked_hint("Repo `a b` x", "repo").as_deref(), Some("a b"));
    assert_eq!(extract_backticked_hint("repo `open", "repo"), None);
    assert_eq!(extract_backticked_hint("repo ` `", "repo"), None);
    assert_eq!(extract_keyword_value("repo: (elowen-ui).", "repo").as_deref(), Some("elowen-ui"));
    assert_eq!(extract_keyword_value("repo ...", "repo"), None);
    assert_eq!(extract_keyword_value("repo", "repo"), None);
    assert_eq!(extract_phrase_value("call it - New name, and go", "call it").as_deref(), Some("New name"));
    assert_eq!(extract_phrase_value("title: `A.B` x", "title").as_deref(), Some("A.B"));
    assert_eq!(extract_phrase_value("title: `A", "title"), None);
    assert_eq!(extract_repo_hint("in repository elowen-api now").as_deref(), Some("sitory"));
    assert_eq!(extract_repo_hint("use repo elowen-api.").as_deref(), Some("elowen-api"));
    assert_eq!(extract_base_branch_hint("branch main and branch `x`").as_deref(), Some("x"));
    assert_eq!(extract_base_branch_hint("base branch dev").as_deref(), Some("dev"));
    assert_eq!(extract_title_hint("rename to Short one. Then go").as_deref(), Some("Short one"));
    assert_eq!(extract_title_hint("nothing"), None);
}

#[test]
fn clauses_are_told_apart() {
    assert_eq!(strip_metadata_prefix("use repo x and add tests").as_deref(), Some("add tests"));
    assert_eq!(strip_metadata_prefix("branch x, then run it").as_deref(), Some("run it"));
    assert_eq!(strip_metadata_prefix("title x").as_deref(), Some(""));
    assert_eq!(strip_metadata_prefix("add tests"), None);
    assert!(is_metadata_only_clause("Send it"));
    assert!(is_metadata_only_clause("the repo x"));
    assert!(is_metadata_only_clause("make changes"));
    assert!(!is_metadata_only_clause("add tests"));
    assert_eq!(
        extract_refinement_request_update("Use repo x and add tests; branch y\nalso lint").as_deref(),
        Some("add tests also lint")
    );
    assert_eq!(merge_request_text("a", Some(" b ")), "a\n\nAdditional instruction: b");
    assert_eq!(merge_request_text(" a ", Some("a")), " a ");
    assert_eq!(merge_request_text("a", Some("  ")), "a");
    assert_eq!(merge_request_text("a", None), "a");
}

#[test]
fn refinements_keep_read_only_drafts_read_only() {
    let mut draft = previous_draft();
    draft.execution_intent = ExecutionIntent::ReadOnly;
    let next = refined("use branch dev instead", draft);
    assert_eq!(next.execution_intent, ExecutionIntent::ReadOnly);
    assert_eq!(next.base_branch, "dev");
    let mut draft = previous_draft();
    draft.execution_intent = ExecutionIntent::ReadOnly;
    let next = refined("use branch dev and allow changes", draft);
    assert_eq!(next.execution_intent, ExecutionIntent::WorkspaceChange);
}

#[test]
fn refinements_extend_the_request() {
    let mut draft = previous_draft();
    draft.request_text = "  Tighten it. ".to_string();
    let next = refined("instead polish the header", draft);
    assert_eq!(
        next.request_text,
        "Tighten it.\n\nAdditional instruction: instead polish the header"
    );
    assert!(next.request_text.starts_with("Tighten it."));
    assert_eq!(
        next.rationale,
        "Updated the draft using the latest conversational refinement without dispatching a job."
    );
    assert_eq!(next.source_message_id, "u2");
    let kept = refined("use repo `x`", previous_draft());
    assert_eq!(kept.title, "Polish chat shell");
    assert_eq!(kept.repo_name.as_deref(), Some("x"));
    assert_eq!(kept.request_text, previous_draft().request_text);
}

#[test]
fn requests_for_work_give_new_drafts() {
    let messages = vec![user_message("u1", "  Fix the footer "), user_message("u2", "Update the header")];
    let draft = maybe_build_execution_draft(&messages, &[sample_job()]).expect("a draft");
    assert_eq!(draft.title, "Update the header");
    assert_eq!(draft.request_text, "Update the header");
    assert_eq!(draft.repo_name.as_deref(), Some("elowen-api"));
    assert_eq!(draft.base_branch, "main");
    assert_eq!(draft.execution_intent, ExecutionIntent::WorkspaceChange);
    assert_eq!(draft.source_message_id, "u2");
    assert_eq!(
        draft.rationale,
        "Prepared from the latest user request so it can be reviewed before dispatch."
    );
    let inspect = maybe_build_execution_draft(&[user_message("u1", "run a review of what changed")], &[])
        .expect("a draft");
    assert_eq!(inspect.repo_name, None);
    assert_eq!(inspect.execution_intent, ExecutionIntent::ReadOnly);
    assert_eq!(
        inspect.rationale,
        "Prepared as a read-only repository investigation so the laptop can inspect and report without creating durable repo changes."
    );
    assert!(maybe_build_execution_draft(&[user_message("u1", "thanks")], &[]).is_none());
    assert!(maybe_build_execution_draft(&[user_message("u1", "use repo x")], &[]).is_none());
    assert!(maybe_build_execution_draft(&[], &[]).is_none());
}

#[test]
fn last_user_message_is_found() {
    let draft = previous_draft();
    let messages = vec![
        user_message("u1", "a"),
        user_message("u2", "b"),
        assistant_draft_message("a1", &draft),
    ];
    assert_eq!(last_user_index(&messages), Some(1));
    assert_eq!(last_user_index(&messages[2..]), None);
}
