use elowen_api::error::{AppError, ErrorStatus};
use elowen_api::json::Json;
use elowen_api::models::{
    JobRecord, MessageRecord, NoteRecord, Relevance, SummaryRecord, ThreadRecord,
};
use elowen_api::note_memory::{
    detail_note_ids, memory_role_boost, memory_role_reason, merge_related_note_contexts,
    note_candidate, related_notes_bundle, score_bits, score_key, MemorySource,
    NoteContextCandidate,
};
use elowen_api::notes::{
    build_job_notes_context, build_job_notes_query, build_thread_notes_context,
    build_thread_notes_query, job_discovery_search, job_memory_search, join_terms, note_url,
    promoted_note_value, promotions_url, push_query_value, search_query, search_url,
    summarize_text, thread_discovery_search, thread_job_memory_search, thread_memory_search,
    SearchNotesRequest,
};
use elowen_api::time::{now, Timestamp};

fn relevance(score: f64) -> Relevance {
    Relevance { key: score_key(score.to_bits()), label: format!("{score:.0}") }
}

fn score_of(relevance: &Relevance) -> f64 {
    f64::from_bits(score_bits(relevance.key))
}

fn note(note_id: &str, relevance_score: f64, reasons: &[&str]) -> NoteRecord {
    NoteRecord {
        note_id: note_id.to_string(),
        title: format!("Note {note_id}"),
        slug: format!("note-{note_id}"),
        summary: "summary".to_string(),
        tags: Vec::new(),
        aliases: Vec::new(),
        note_type: "general".to_string(),
        source_kind: None,
        source_id: None,
        current_revision_id: format!("rev-{note_id}"),
        updated_at: now(),
        relevance: relevance(relevance_score),
        match_reasons: reasons.iter().map(|value| value.to_string()).collect(),
    }
}

fn candidate(note: NoteRecord, memory_role: &str, source_label: &str) -> NoteContextCandidate {
    let boosted = score_of(&note.relevance) + f64::from(memory_role_boost(memory_role));
    NoteContextCandidate {
        note,
        memory_role: memory_role.to_string(),
        source_label: source_label.to_string(),
        effective: relevance(boosted),
    }
}

fn message(role: &str, content: &str) -> MessageRecord {
    MessageRecord {
        id: "message-1".to_string(),
        thread_id: "thread-1".to_string(),
        role: role.to_string(),
        content: content.to_string(),
        status: "conversation.user".to_string(),
        payload_json: Json::Object(Vec::new()),
        created_at: now(),
        updated_at: now(),
    }
}

fn job(short_id: &str, title: &str, repo_name: &str) -> JobRecord {
    JobRecord {
        id: format!("job-{short_id}"),
        short_id: short_id.to_string(),
        correlation_id: "corr-1".to_string(),
        thread_id: "thread-1".to_string(),
        title: title.to_string(),
        status: "completed".to_string(),
        result: Some("success".to_string()),
        failure_class: None,
        target_kind: "repository".to_string(),
        repo_name: repo_name.to_string(),
        capability_name: None,
        device_id: None,
        branch_name: Some("main".to_string()),
        base_branch: Some("main".to_string()),
        parent_job_id: None,
        created_at: now(),
        updated_at: now(),
        completed_at: None,
    }
}

#[test]
fn merging_prefers_direct_memory_and_accumulates_reasons() {
    let merged = merge_related_note_contexts(vec![
        candidate(note("note-1", 0.0, &[]), "direct_thread_memory", "Promoted from thread"),
        candidate(
            note("note-1", 45.0, &["query_summary"]),
            "retrieved_memory",
            "Retrieved by note search",
        ),
    ]);

    assert_eq!(merged.len(), 1);
    assert_eq!(merged[0].memory_role, "direct_thread_memory");
    assert!(score_of(&merged[0].note.relevance) >= 1_000.0);
    assert!(merged[0]
        .note
        .match_reasons
        .contains(&"direct_thread_memory".to_string()));
    assert!(merged[0]
        .note
        .match_reasons
        .contains(&"query_summary".to_string()));
}

#[test]
fn thread_context_includes_recent_messages_and_jobs() {
    let thread = ThreadRecord {
        id: "thread-1".to_string(),
        title: "Notes retrieval polish".to_string(),
        status: "open".to_string(),
        current_summary_id: None,
        created_at: now(),
        updated_at: now(),
    };

    let context = build_thread_notes_context(
        &thread,
        &[
            message(
                "user",
                "Improve note ranking and better use promoted memory.",
            ),
            message(
                "assistant",
                "I can expand the assistant memory bundle next.",
            ),
        ],
        &[job("job-1", "Previous API work", "elowen-api")],
    )
    .unwrap();

    assert!(context.contains("Notes retrieval polish"));
    assert!(context.contains("Improve note ranking"));
    assert!(context.contains("Previous API work elowen-api"));
}

fn strings(values: &[&str]) -> Vec<String> {
    values.iter().map(|value| value.to_string()).collect()
}

fn some(value: &str) -> Option<String> {
    Some(value.to_string())
}

fn thread(title: &str) -> ThreadRecord {
    ThreadRecord {
        id: "thread-1".to_string(),
        title: title.to_string(),
        status: "open".to_string(),
        current_summary_id: None,
        created_at: now(),
        updated_at: now(),
    }
}

fn summary(content: &str) -> SummaryRecord {
    SummaryRecord {
        id: "summary-1".to_string(),
        scope: "job".to_string(),
        source_id: "job-1".to_string(),
        version: 1,
        content: content.to_string(),
        created_at: now(),
    }
}

fn found(note_id: &str, score: f64, role: &str) -> NoteContextCandidate {
    candidate(note(note_id, score, &[]), role, role)
}

#[test]
fn keys_are_ordered_like_scores() {
    let scores = [
        f64::NEG_INFINITY, -1e300, -900.5, -1.0, -1e-310, 0.0, 1e-310, 0.1, 1.0, 45.0, 900.0, 1_000.0,
        1e300, f64::INFINITY,
    ];
    for a in scores {
        for b in scores {
            assert_eq!(score_key(a.to_bits()) < score_key(b.to_bits()), a < b, "{a} and {b}");
        }
        assert_eq!(f64::from_bits(score_bits(score_key(a.to_bits()))).to_bits(), a.to_bits());
    }
    assert_eq!(score_key((-0.0f64).to_bits()), score_key(0.0f64.to_bits()));
}

#[test]
fn roles_count() {
    assert_eq!(memory_role_boost("direct_thread_memory"), 1_000);
    assert_eq!(memory_role_boost("direct_job_memory"), 900);
    assert_eq!(memory_role_boost("retrieved_memory"), 0);
    assert_eq!(memory_role_reason("direct_thread_memory"), "direct_thread_memory");
    assert_eq!(memory_role_reason("direct_job_memory"), "direct_job_memory");
    assert_eq!(memory_role_reason("other"), "retrieved_memory");
    let source = MemorySource::Thread("T".to_string());
    assert_eq!(source.source_label(), "Promoted from thread `T`");
    let source = MemorySource::Job("01abc".to_string());
    assert_eq!(source.source_label(), "Promoted from job `01abc`");
    let made = note_candidate(note("n", 1.0, &[]), relevance(901.0), &source);
    assert_eq!(made.memory_role, "direct_job_memory");
    assert_eq!(made.effective.label, "901");
    assert_eq!(MemorySource::Search.source_label(), "Retrieved by note search");
    assert_eq!(MemorySource::Search.memory_role(), "retrieved_memory");
}

#[test]
fn merged_notes_are_ranked() {
    let at = |secs: i64| Timestamp::from_parts(secs, 0).expect("the calendar holds it");
    let mut older = found("older", 5.0, "retrieved_memory");
    older.note.updated_at = at(1);
    let mut newer = found("newer", 5.0, "retrieved_memory");
    newer.note.updated_at = at(2);
    let merged = merge_related_note_contexts(vec![
        older,
        found("job", 0.0, "direct_job_memory"),
        newer,
        found("thread", -5.0, "direct_thread_memory"),
        found("best", 950.0, "retrieved_memory"),
    ]);
    let ids: Vec<&str> = merged.iter().map(|entry| entry.note.note_id.as_str()).collect();
    assert_eq!(ids, vec!["thread", "best", "job", "newer", "older"]);
    assert_eq!(detail_note_ids(&merged), strings(&["thread", "best", "job"]));
}

#[test]
fn merging_keeps_all_reasons_and_shows_the_best() {
    let mut best = candidate(note("n", 50.0, &["b", "a"]), "retrieved_memory", "second");
    best.note.summary = "best summary".to_string();
    best.note.title = "other title".to_string();
    let merged = merge_related_note_contexts(vec![
        candidate(note("n", 10.0, &["a"]), "retrieved_memory", "first"),
        best,
        candidate(note("n", 20.0, &["c", "retrieved_memory"]), "retrieved_memory", "third"),
    ]);
    assert_eq!(merged.len(), 1);
    let entry = &merged[0];
    assert_eq!(entry.note.match_reasons, strings(&["a", "retrieved_memory", "b", "c"]));
    assert_eq!(entry.note.summary, "best summary");
    assert_eq!(entry.note.title, "Note n");
    assert_eq!(entry.source_label, "second");
    assert_eq!(score_of(&entry.note.relevance), 50.0);
}

#[test]
fn bundles_show_excerpts() {
    let merged = merge_related_note_contexts(vec![
        found("a", 2.0, "retrieved_memory"),
        found("b", 1.0, "retrieved_memory"),
    ]);
    let details = [("a".to_string(), " line one \n\n line two ".to_string())];
    let bundle = related_notes_bundle(merged, &details);
    assert_eq!(bundle.notes.len(), 2);
    assert_eq!(bundle.notes[0].note_id, "a");
    assert_eq!(bundle.conversation_context[0].detail_excerpt.as_deref(), Some("line one line two"));
    assert_eq!(bundle.conversation_context[1].detail_excerpt, None);
    assert_eq!(bundle.conversation_context[1].memory_role, "retrieved_memory");
    assert_eq!(summarize_text(&"ab ".repeat(200), 280).chars().count(), 280);
}

#[test]
fn searches_are_built() {
    let messages = [message("user", " Improve it "), message("assistant", "ok")];
    let work = job("01abc", "Work", "elowen-api");
    let thread = thread("Title");
    let search = thread_memory_search(&thread);
    assert_eq!((search.source_kind.as_deref(), search.source_id.as_deref(), search.limit), (Some("thread"), Some("thread-1"), 8));
    let search = thread_job_memory_search(&work);
    assert_eq!((search.source_kind.as_deref(), search.source_id.as_deref(), search.limit), (Some("job"), Some("job-01abc"), 4));
    assert_eq!(job_memory_search(&work).limit, 8);
    let search = thread_discovery_search(&thread, &messages, &[], strings(&["n1", "n2"]));
    assert_eq!(search.q.as_deref(), Some("Improve it"));
    assert_eq!(search.context.as_deref(), Some("Title ok Improve it"));
    assert_eq!(
        search_query(&search),
        vec![
            ("limit".to_string(), "8".to_string()),
            ("q".to_string(), "Improve it".to_string()),
            ("context".to_string(), "Title ok Improve it".to_string()),
            ("prefer_source_kind".to_string(), "thread".to_string()),
            ("prefer_source_id".to_string(), "thread-1".to_string()),
            ("prefer_note_ids".to_string(), "n1,n2".to_string()),
        ]
    );
    let search = job_discovery_search(&work, Some(&summary(" Sum ")), Vec::new());
    assert_eq!(search.q.as_deref(), Some("Work elowen-api Sum"));
    assert_eq!(search.context.as_deref(), Some("Work elowen-api main Sum"));
    let source = SearchNotesRequest { q: some("  "), ..job_memory_search(&work) };
    assert_eq!(
        search_query(&source),
        vec![
            ("limit".to_string(), "8".to_string()),
            ("source_kind".to_string(), "job".to_string()),
            ("source_id".to_string(), "job-01abc".to_string()),
        ]
    );
}

#[test]
fn search_terms_are_joined() {
    assert_eq!(join_terms(strings(&[" a ", "", "b c"])).as_deref(), Some("a b c"));
    assert_eq!(join_terms(strings(&["  "])), None);
    assert_eq!(build_thread_notes_query(&thread("Title"), &[]).as_deref(), Some("Title"));
    assert_eq!(build_thread_notes_query(&thread(" "), &[]), None);
    let work = job("01abc", "Work", "");
    assert_eq!(build_job_notes_query(&work, None).as_deref(), Some("Work"));
    assert_eq!(build_job_notes_context(&work, None).as_deref(), Some("Work main"));
    let mut query = Vec::new();
    push_query_value(&mut query, "k", Some(" v "));
    push_query_value(&mut query, "k", Some("  "));
    push_query_value(&mut query, "k", None);
    assert_eq!(query, vec![("k".to_string(), "v".to_string())]);
}

#[test]
fn the_notes_service_has_its_addresses() {
    assert_eq!(search_url("http://n"), "http://n/api/v1/notes/search");
    assert_eq!(note_url("http://n", "n1"), "http://n/api/v1/notes/n1");
    assert_eq!(promotions_url("http://n"), "http://n/api/v1/notes/promotions");
    let inner = Json::Object(vec![("note_id".to_string(), Json::Text("n1".to_string()))]);
    let wrapped = Json::Object(vec![("note".to_string(), inner.copy())]);
    assert_eq!(format!("{:?}", promoted_note_value(wrapped)), format!("{inner:?}"));
    assert_eq!(format!("{:?}", promoted_note_value(inner.copy())), format!("{inner:?}"));
}

#[test]
fn errors_are_answered_with_their_status() {
    let cases = [
        (AppError::bad_request("m"), ErrorStatus::BadRequest, 400),
        (AppError::unauthorized("m"), ErrorStatus::Unauthorized, 401),
        (AppError::forbidden("m"), ErrorStatus::Forbidden, 403),
        (AppError::not_found("m"), ErrorStatus::NotFound, 404),
        (AppError::conflict("m"), ErrorStatus::Conflict, 409),
        (AppError::internal("m"), ErrorStatus::Internal, 500),
        (AppError::gateway_timeout("m"), ErrorStatus::GatewayTimeout, 504),
    ];
    for (error, status, code) in cases {
        assert_eq!(error.status, status);
        let (answered, body) = error.into_response();
        assert_eq!(answered, code);
        assert_eq!(body.error, "m");
        assert_eq!(body.code, None);
    }
    let (_, body) = AppError::conflict("m").with_code("c").into_response();
    assert_eq!(body.code.as_deref(), Some("c"));
}
