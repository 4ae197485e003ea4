use elowen_api::formatting::{
    compact_disposable_worktree_paths, compact_file_reference, compact_markdown_file_links,
    execution_intent_note, execution_report_changed_entries, execution_report_last_message,
    execution_report_status, format_failure_reply, format_failure_result_summary,
    format_read_only_success_reply, format_success_reply, format_success_without_push_reply,
    primary_result_excerpt, sanitize_chat_result_text, sanitize_optional_string,
    sanitize_string_list, slugify, truncate_text,
};
use elowen_api::json::Json;
use elowen_api::models::{ExecutionIntent, JobRecord, SummaryRecord};
use elowen_api::time::now;
use elowen_api::titles::{
    derive_job_title_from_message, extract_backticked_filename, extract_title_action,
    extract_title_target, normalize_title_input, simplify_title_target, split_title_target,
};

#[test]
fn title_synthesis_uses_concise_labels() {
    assert_eq!(
        derive_job_title_from_message(
            "For repo `elowen-api`, update README.md by appending one sentence."
        ),
        "Update README"
    );
}

#[test]
fn primary_result_excerpt_uses_first_paragraph_only() {
    assert_eq!(
        primary_result_excerpt("The answer is 42.\n\nExtra operational context."),
        "The answer is 42."
    );
}

#[test]
fn sanitize_chat_result_text_compacts_markdown_file_links() {
    assert_eq!(
        sanitize_chat_result_text(
            "The Cargo package name is `elowen-api`, from [Cargo.toml](D:/Projects/elowen/.elowen/worktrees/elowen-api/01knactp/Cargo.toml#L2)."
        ),
        "The Cargo package name is `elowen-api`, from `Cargo.toml#L2`."
    );
}

fn strings(values: &[&str]) -> Vec<String> {
    values.iter().map(|value| value.to_string()).collect()
}

fn text(value: &str) -> Json {
    Json::Text(value.to_string())
}

fn object(fields: Vec<(&str, Json)>) -> Json {
    Json::Object(fields.into_iter().map(|(key, value)| (key.to_string(), value)).collect())
}

fn job(branch_name: Option<&str>) -> JobRecord {
    JobRecord {
        id: "job-1".to_string(),
        short_id: "01abc".to_string(),
        correlation_id: "corr-1".to_string(),
        thread_id: "thread-1".to_string(),
        title: "Title".to_string(),
        status: "completed".to_string(),
        result: Some("success".to_string()),
        failure_class: None,
        target_kind: "repository".to_string(),
        repo_name: "elowen-api".to_string(),
        capability_name: None,
        device_id: None,
        branch_name: branch_name.map(|value| value.to_string()),
        base_branch: None,
        parent_job_id: None,
        created_at: now(),
        updated_at: now(),
        completed_at: None,
    }
}

fn summary(content: &str) -> SummaryRecord {
    SummaryRecord {
        id: "summary-1".to_string(),
        scope: "job".to_string(),
        source_id: "job-1".to_string(),
        version: 1,
        content: content.to_string(),
        created_at: now(),
    }
}

#[test]
fn titles_are_never_empty_and_never_too_long() {
    for content in [
        "",
        "   ",
        "...",
        "!?",
        "fix",
        "Please ",
        "For repo `x`, ",
        "`a` `b`",
        "Look here!\nand there.",
        "update the docs\r\nnow?",
    ] {
        let title = derive_job_title_from_message(content);
        let length = title.chars().count();
        assert!(0 < length && length <= 72, "{content:?} gives {title:?}");
        assert!(!title.contains('\n'), "{content:?} gives {title:?}");
        assert!(!title.ends_with(['.', '!', '?']), "{content:?} gives {title:?}");
    }
    assert_eq!(derive_job_title_from_message("Look here!\nand there."), "Look here");
    let long = derive_job_title_from_message(&"long ".repeat(40));
    assert_eq!(long.chars().count(), 72);
    assert_eq!(derive_job_title_from_message(" \n \n"), "New coding task");
    assert_eq!(derive_job_title_from_message("..."), "New coding task");
}

#[test]
fn titles_name_the_action_and_its_target() {
    assert_eq!(
        derive_job_title_from_message("Please fix the login flow by checking the token."),
        "Fix the login flow"
    );
    assert_eq!(derive_job_title_from_message("refactor `src/main.rs` now"), "Refactor src/main.rs");
    assert_eq!(derive_job_title_from_message("append a line to readme"), "Update README");
    assert_eq!(
        derive_job_title_from_message("add one two three four five six seven"),
        "Add one two three four five six"
    );
    assert_eq!(derive_job_title_from_message("Hello there!"), "Hello there");
    assert_eq!(derive_job_title_from_message("\n\nIn repo `x`: fix"), "Fix");
    assert_eq!(normalize_title_input("For repo `elowen-api`, do it."), "do it");
    assert_eq!(normalize_title_input("`only`"), "`only`");
    assert_eq!(normalize_title_input("`open"), "`open");
    assert_eq!(split_title_target("the page, and more"), "the page");
    assert_eq!(simplify_title_target(" `README.md` "), "README");
    assert_eq!(simplify_title_target("Cargo.TOML"), "Cargo.TOML");
    assert_eq!(extract_title_action("please edit and update"), Some("Update"));
    assert_eq!(extract_title_action("nothing"), None);
    assert_eq!(extract_backticked_filename("`a` and `b/c`").as_deref(), Some("b/c"));
    assert_eq!(extract_backticked_filename("`a`"), None);
    assert_eq!(extract_title_target("see it", "see it"), None);
}

#[test]
fn reports_are_read() {
    let report = object(vec![
        ("build", object(vec![("status", text("passed"))])),
        ("test", object(vec![("status", Json::Bool(true))])),
        ("changed_files", Json::Array(vec![text("a"), text("b")])),
        ("last_message", text("  done ")),
    ]);
    assert_eq!(execution_report_status(&report, "build").as_deref(), Some("passed"));
    assert_eq!(execution_report_status(&report, "test"), None);
    assert_eq!(execution_report_status(&report, "lint"), None);
    assert_eq!(execution_report_changed_entries(&report), Some(2));
    assert_eq!(execution_report_last_message(&report).as_deref(), Some("done"));
    let empty = object(vec![("changed_files", Json::Null), ("last_message", text("  "))]);
    assert_eq!(execution_report_changed_entries(&empty), None);
    assert_eq!(execution_report_last_message(&empty), None);
}

#[test]
fn links_and_paths_are_compacted() {
    assert_eq!(compact_file_reference("main.rs", "C:\\src\\main.rs#L7"), "main.rs#L7");
    assert_eq!(compact_file_reference("main.rs", "/src/main.rs"), "main.rs");
    assert_eq!(compact_file_reference("a", "x/b#c#d"), "a#c#d");
    assert_eq!(
        compact_markdown_file_links("see [a](x/a#L1) and [b](y) end"),
        "see `a#L1` and `b` end"
    );
    assert_eq!(compact_markdown_file_links("no [link here"), "no [link here");
    assert_eq!(compact_markdown_file_links("[a](open"), "[a](open");
    assert_eq!(compact_markdown_file_links("[x] [a](b)"), "`x] [a`");
    assert_eq!(
        compact_disposable_worktree_paths("D:\\p\\.elowen\\worktrees\\x"),
        "D:/p/.elowen/worktrees/x"
    );
    assert_eq!(compact_disposable_worktree_paths("D:\\p\\other"), "D:\\p\\other");
}

#[test]
fn truncated_texts_fit() {
    assert_eq!(truncate_text("abcdef", 3), "abc...");
    assert_eq!(truncate_text("abc", 3), "abc");
    assert_eq!(truncate_text("  ab  ", 3), "ab...");
    assert_eq!(truncate_text(" é ", 5), "é");
    for limit in 0..10 {
        assert!(truncate_text("some longer text", limit).chars().count() <= limit + 3);
    }
    let long = "x".repeat(700);
    assert_eq!(primary_result_excerpt(&long), format!("{}...", "x".repeat(600)));
    assert_eq!(primary_result_excerpt(" \n\n first \n\n second"), "first");
    assert_eq!(primary_result_excerpt("  "), "");
}

#[test]
fn replies_to_finished_jobs() {
    assert_eq!(
        format_success_reply(
            &job(Some("codex/x")),
            Some("passed"),
            Some("failed"),
            Some(2),
            Some("All done."),
            "Approve the push.",
        ),
        "I finished job `01abc` for repo `elowen-api` successfully.\nBranch: `codex/x`\nBuild: passed\nTest: failed\nChanged entries: 2\n\nFinal result:\nAll done.\n\nApprove the push."
    );
    assert_eq!(
        format_success_without_push_reply(&job(None), None, None, None, None),
        "I finished job `01abc` for repo `elowen-api` successfully.\n\nNo committed repository changes were produced, so no push approval was required."
    );
    assert_eq!(
        format_read_only_success_reply(&job(None), None, None, Some(0), None),
        "I finished read-only job `01abc` for repo `elowen-api` successfully.\nChanged entries: 0\n\nThis ran in read-only mode, so no repository changes were produced and no push approval was required."
    );
    assert_eq!(
        format_read_only_success_reply(&job(None), None, None, Some(1), Some("x")),
        "I finished read-only job `01abc` for repo `elowen-api` successfully.\nChanged entries: 1\n\nFinal result:\nx\n\nThis ran in read-only mode. Any tracked changes were left uncommitted in the disposable worktree, and no push approval was opened."
    );
}

#[test]
fn replies_to_failed_jobs() {
    let headline = "I couldn't complete job `01abc` for repo `elowen-api`.";
    assert_eq!(
        format_failure_reply(&job(None), Some("failed"), None, None, Some(" broken "), None),
        format!("{headline}\nBuild: failed\nDetail: broken")
    );
    assert_eq!(
        format_failure_reply(&job(None), None, None, None, None, Some(&summary("why"))),
        format!("{headline}\nSummary: why")
    );
    assert_eq!(
        format_failure_reply(&job(None), None, None, None, None, Some(&summary("  "))),
        headline
    );
    assert_eq!(format_failure_result_summary(Some("a"), Some(&summary("b"))), "a");
    assert_eq!(format_failure_result_summary(None, Some(&summary(" b "))), "b");
    assert_eq!(
        format_failure_result_summary(None, Some(&summary("  "))),
        "The job did not complete successfully."
    );
    let long = "y".repeat(300);
    assert_eq!(
        format_failure_result_summary(Some(&long), None),
        format!("{}...", "y".repeat(240))
    );
}

#[test]
fn sanitized_lists_are_clean_and_stay_so() {
    let list = sanitize_string_list(strings(&[" b ", "a", "", "b", "  ", "a "]));
    assert_eq!(list, strings(&["b", "a"]));
    assert_eq!(sanitize_string_list(list), strings(&["b", "a"]));
    assert_eq!(sanitize_optional_string(Some("  x ".to_string())).as_deref(), Some("x"));
    assert_eq!(sanitize_optional_string(Some("   ".to_string())), None);
    assert_eq!(sanitize_optional_string(None), None);
    assert_eq!(execution_intent_note(&ExecutionIntent::ReadOnly), "read-only");
    assert_eq!(execution_intent_note(&ExecutionIntent::WorkspaceChange), "workspace-change");
}

#[test]
fn slugs_are_short_and_plain() {
    assert_eq!(slugify("Fix the Login -- flow!"), "fix-the-login-flow");
    assert_eq!(slugify("é"), "job");
    assert_eq!(slugify(""), "job");
    assert_eq!(slugify("-- ?"), "job");
    assert_eq!(slugify("abc -"), "abc");
    let cut = slugify(&format!("{} b", "a".repeat(31)));
    assert_eq!(cut, format!("{}-", "a".repeat(31)));
    let long = slugify("A very long title that would not fit a branch name");
    assert_eq!(long, "a-very-long-title-that-would-not");
    assert!(long.chars().count() <= 32);
}
