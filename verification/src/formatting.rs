//! Texts that the conversation shows for jobs and their results.

use crate::json::{Json, JsonView};
use crate::models::{ExecutionIntent, JobRecord, SummaryRecord};
use crate::scan;
use crate::scan::{chars_of, copy_chars, extend, push_line, text_of, CharClass};
use crate::text;
use crate::text_lemmas;
use vstd::prelude::*;
use vstd::slice::slice_subrange;

verus! {

/// Longest excerpt of a result, in characters.
pub const RESULT_LIMIT: usize = 600;

/// Longest detail of a failure, in characters.
pub const DETAIL_LIMIT: usize = 240;

/// Longest slug, in characters.
pub const SLUG_LIMIT: usize = 32;

/// Paths below these are disposable worktrees.
pub const WORKTREE_MARKERS: [&'static str; 4] = [
    "/.elowen/worktrees/",
    "\\.elowen\\worktrees\\",
    "/.elowen-sandbox/",
    "\\.elowen-sandbox\\",
];

// ---------------------------------------------------------------------------
// Execution reports
// ---------------------------------------------------------------------------

/// The status of one step of a report.
pub open spec fn report_status(report: JsonView, key: Seq<char>) -> Option<Seq<char>> {
    match report.field(key) {
        Some(step) => step.field_text("status"@),
        None => None,
    }
}

/// How many files a report lists as changed.
pub open spec fn report_changes(report: JsonView) -> Option<nat> {
    match report.field("changed_files"@) {
        Some(JsonView::Array(items)) => Some(items.len()),
        _ => None,
    }
}

/// The last message of a report, where it says anything.
pub open spec fn report_message(report: JsonView) -> Option<Seq<char>> {
    text::present(report.field_text("last_message"@))
}

/// The status of one step of a report.
pub fn execution_report_status(report: &Json, key: &str) -> (r: Option<String>)
    ensures
        text::opt(r) == report_status(report.model(), key@),
{
    match report.get(key) {
        Some(step) => match step.get("status") {
            Some(status) => match status.as_str() {
                Some(value) => Some(value.to_string()),
                None => None,
            },
            None => None,
        },
        None => None,
    }
}

/// How many files a report lists as changed.
pub fn execution_report_changed_entries(report: &Json) -> (r: Option<usize>)
    ensures
        match r {
            Some(n) => report_changes(report.model()) == Some(n as nat),
            None => report_changes(report.model()) is None,
        },
{
    match report.get("changed_files") {
        Some(Json::Array(items)) => Some(items.len()),
        _ => None,
    }
}

/// The last message of a report, where it says anything.
pub fn execution_report_last_message(report: &Json) -> (r: Option<String>)
    ensures
        text::opt(r) == report_message(report.model()),
{
    report.present_text("last_message")
}

// ---------------------------------------------------------------------------
// Results
// ---------------------------------------------------------------------------

/// The label of a link to a file, with the anchor of the path where it has one.
pub open spec fn file_reference(label: Seq<char>, path: Seq<char>) -> Seq<char> {
    let name = text::split_by(text::replace_char(path, '\\', '/'), text::just('/')).last();
    match text::find_char(name, '#') {
        Some(i) => label + "#"@ + name.skip(i + 1),
        None => label,
    }
}

/// The label of a link to a file, with the anchor of the path where it has one.
pub fn compact_file_reference(label: &str, path: &str) -> (r: String)
    ensures
        r@ == file_reference(label@, path@),
{
    let normalized = scan::replace_char(chars_of(path).as_slice(), '\\', '/');
    let parts = scan::split_by(normalized.as_slice(), &CharClass::Just('/'));
    let name = parts[parts.len() - 1].as_slice();
    assert(name@ == scan::lists(parts@).last());
    match scan::find_char(name, '#') {
        Some(i) => {
            let end = name.len();
            let anchor = slice_subrange(name, i + 1, end);
            assert(anchor@ =~= name@.skip(i + 1));
            label.to_string().concat("#").concat(text_of(anchor).as_str())
        },
        None => label.to_string(),
    }
}

/// The text with each Markdown link replaced by its quoted file reference. What
/// follows a bracket that opens no link stays as it is.
pub open spec fn links_compacted(s: Seq<char>) -> Seq<char>
    decreases s.len(),
{
    match text::find_char(s, '[') {
        Some(start) => if 0 <= start < s.len() {
            let inner = s.skip(start + 1);
            match text::find(inner, "]("@) {
                Some(end) => if 0 <= end && end + 2 <= inner.len() {
                    let after = inner.skip(end + 2);
                    match text::find_char(after, ')') {
                        Some(close) => if 0 <= close < after.len() {
                            s.take(start) + "`"@ + file_reference(
                                inner.take(end),
                                after.take(close),
                            ) + "`"@ + links_compacted(after.skip(close + 1))
                        } else {
                            s
                        },
                        None => s,
                    }
                } else {
                    s
                },
                None => s,
            }
        } else {
            s
        },
        None => s,
    }
}

/// The text up to the end of its first link, with the link replaced, and how
/// many characters that took; `None` where the text stays as it is.
fn first_link(s: &[char]) -> (r: Option<(Vec<char>, usize)>)
    ensures
        match r {
            Some(link) => 0 < link.1 <= s@.len() && links_compacted(s@) == link.0@
                + links_compacted(s@.skip(link.1 as int)),
            None => links_compacted(s@) == s@,
        },
{
    proof {
        reveal_strlit("](");
    }
    let total = s.len();
    let start = match scan::find_char(s, '[') {
        Some(start) => start,
        None => return None,
    };
    let inner = slice_subrange(s, start + 1, total);
    assert(inner@ =~= s@.skip(start + 1));
    let end = match scan::find(inner, chars_of("](").as_slice()) {
        Some(end) => end,
        None => return None,
    };
    let after = slice_subrange(inner, end + 2, inner.len());
    assert(after@ =~= inner@.skip(end + 2));
    let close = match scan::find_char(after, ')') {
        Some(close) => close,
        None => return None,
    };
    let label = text_of(slice_subrange(inner, 0, end));
    assert(label@ =~= inner@.take(end as int));
    let path = text_of(slice_subrange(after, 0, close));
    assert(path@ =~= after@.take(close as int));
    let reference = compact_file_reference(label.as_str(), path.as_str());
    let head = slice_subrange(s, 0, start);
    assert(head@ =~= s@.take(start as int));
    let mut piece = copy_chars(head);
    extend(&mut piece, chars_of("`").as_slice());
    extend(&mut piece, chars_of(reference.as_str()).as_slice());
    extend(&mut piece, chars_of("`").as_slice());
    assert(after@.len() == total - start - 1 - end - 2);
    let used = start + 1 + end + 2 + close + 1;
    assert(after@.skip(close + 1) =~= s@.skip(used as int));
    Some((piece, used))
}

/// The text with each Markdown link replaced by its quoted file reference.
pub fn compact_markdown_file_links(value: &str) -> (r: String)
    ensures
        r@ == links_compacted(value@),
{
    let chars = chars_of(value);
    let mut output: Vec<char> = Vec::new();
    let mut from: usize = 0;
    assert(chars@.skip(0) =~= chars@);
    assert(output@ + links_compacted(chars@.skip(0)) =~= links_compacted(chars@));
    loop
        invariant
            from <= chars@.len(),
            output@ + links_compacted(chars@.skip(from as int)) == links_compacted(chars@),
        ensures
            output@ + chars@.skip(from as int) == links_compacted(chars@),
        decreases chars@.len() - from,
    {
        let rest = slice_subrange(chars.as_slice(), from, chars.len());
        assert(rest@ =~= chars@.skip(from as int));
        match first_link(rest) {
            Some((piece, used)) => {
                let ghost before = output@;
                extend(&mut output, piece.as_slice());
                assert(rest@.skip(used as int) =~= chars@.skip(from + used));
                assert(output@ + links_compacted(chars@.skip(from + used)) =~= before + (piece@
                    + links_compacted(chars@.skip(from + used))));
                from = from + used;
            },
            None => {
                break;
            },
        }
    }
    let rest = slice_subrange(chars.as_slice(), from, chars.len());
    assert(rest@ =~= chars@.skip(from as int));
    extend(&mut output, rest);
    text_of(output.as_slice())
}

/// The text with forward slashes where it names a disposable worktree.
pub open spec fn paths_compacted(s: Seq<char>) -> Seq<char> {
    if text::contains_any(s, WORKTREE_MARKERS@) {
        text::replace_char(s, '\\', '/')
    } else {
        s
    }
}

/// The text with forward slashes where it names a disposable worktree.
pub fn compact_disposable_worktree_paths(value: &str) -> (r: String)
    ensures
        r@ == paths_compacted(value@),
{
    let chars = chars_of(value);
    let markers = WORKTREE_MARKERS;
    if scan::contains_any(chars.as_slice(), markers.as_slice()) {
        text_of(scan::replace_char(chars.as_slice(), '\\', '/').as_slice())
    } else {
        value.to_string()
    }
}

/// A result as the conversation shows it.
pub open spec fn sanitized_result(s: Seq<char>) -> Seq<char> {
    paths_compacted(links_compacted(text::trim(s)))
}

/// A result as the conversation shows it.
pub fn sanitize_chat_result_text(value: &str) -> (r: String)
    ensures
        r@ == sanitized_result(value@),
{
    let trimmed = scan::trim_text(value);
    let compact_links = compact_markdown_file_links(trimmed.as_str());
    compact_disposable_worktree_paths(compact_links.as_str())
}

/// The first `limit` characters of the trimmed text, with an ellipsis where
/// the text is longer than that.
pub open spec fn truncated(s: Seq<char>, limit: nat) -> Seq<char> {
    if s.len() > limit {
        text::prefix(text::trim(s), limit) + "..."@
    } else {
        text::prefix(text::trim(s), limit)
    }
}

/// The first `max_chars` characters of the trimmed text, with an ellipsis
/// where the text is longer than that.
pub fn truncate_text(value: &str, max_chars: usize) -> (r: String)
    ensures
        r@ == truncated(value@, max_chars as nat),
{
    let chars = chars_of(value);
    let head = text_of(scan::prefix(scan::trim(chars.as_slice()), max_chars));
    if chars.len() > max_chars {
        head.concat("...")
    } else {
        head
    }
}

/// The first paragraph that is not blank, sanitized and cut.
pub open spec fn result_excerpt(s: Seq<char>) -> Seq<char> {
    let first = text::trim(
        text::or_value(text::first_present(text::split_at(s, "\n\n"@)), text::trim(s)),
    );
    truncated(sanitized_result(first), RESULT_LIMIT as nat)
}

/// The first paragraph that is not blank, sanitized and cut.
pub fn primary_result_excerpt(value: &str) -> (r: String)
    ensures
        r@ == result_excerpt(value@),
{
    proof {
        reveal_strlit("\n\n");
        text_lemmas::lemma_trim_idempotent(value@, text::space());
    }
    let chars = chars_of(value);
    let parts = scan::split_at(chars.as_slice(), chars_of("\n\n").as_slice());
    let first = match scan::first_present(parts.as_slice()) {
        Some(part) => text_of(scan::trim(part.as_slice())),
        None => scan::trim_text(value),
    };
    truncate_text(sanitize_chat_result_text(first.as_str()).as_str(), RESULT_LIMIT)
}

// ---------------------------------------------------------------------------
// Replies
// ---------------------------------------------------------------------------

/// What a reply says of a job.
pub struct ReplyFacts {
    /// Status of the build.
    pub build: Option<Seq<char>>,
    /// Status of the tests.
    pub test: Option<Seq<char>>,
    /// How many entries changed.
    pub changed: Option<nat>,
}

/// A line that starts with a label.
pub open spec fn labelled(label: Seq<char>, value: Option<Seq<char>>) -> Option<Seq<char>> {
    match value {
        Some(v) => Some(label + v),
        None => None,
    }
}

/// The branch of the job, quoted.
pub open spec fn branch_line(job: JobRecord) -> Option<Seq<char>> {
    match job.branch_name {
        Some(branch) => Some("Branch: `"@ + branch@ + "`"@),
        None => None,
    }
}

/// How many entries changed.
pub open spec fn changes_line(changed: Option<nat>) -> Option<Seq<char>> {
    match changed {
        Some(n) => Some("Changed entries: "@ + text::decimal(n)),
        None => None,
    }
}

/// The lines that open every reply about a job.
pub open spec fn opening_lines(headline: Seq<char>, job: JobRecord, facts: ReplyFacts) -> text::Texts {
    text::with_line(
        text::with_line(
            text::with_line(
                text::with_line(seq![headline], branch_line(job)),
                labelled("Build: "@, facts.build),
            ),
            labelled("Test: "@, facts.test),
        ),
        changes_line(facts.changed),
    )
}

/// The lines with the final result after them, where there is one.
pub open spec fn with_result(lines: text::Texts, last_message: Option<Seq<char>>) -> text::Texts {
    match last_message {
        Some(message) => lines.push(Seq::<char>::empty()).push("Final result:"@).push(
            truncated(message, RESULT_LIMIT as nat),
        ),
        None => lines,
    }
}

/// The lines, with a closing remark after an empty line.
pub open spec fn with_closing(lines: text::Texts, closing: Seq<char>) -> text::Texts {
    lines.push(Seq::<char>::empty()).push(closing)
}

/// The reply to a success: its lines joined.
pub open spec fn success_reply(
    headline: Seq<char>,
    job: JobRecord,
    facts: ReplyFacts,
    last_message: Option<Seq<char>>,
    closing: Seq<char>,
) -> Seq<char> {
    text::join(
        with_closing(with_result(opening_lines(headline, job, facts), last_message), closing),
        "\n"@,
    )
}

/// The headline of a success.
pub open spec fn success_headline(job: JobRecord) -> Seq<char> {
    "I finished job `"@ + job.short_id@ + "` for repo `"@ + job.repo_name@ + "` successfully."@
}

/// The headline of a success without changes.
pub open spec fn read_only_headline(job: JobRecord) -> Seq<char> {
    "I finished read-only job `"@ + job.short_id@ + "` for repo `"@ + job.repo_name@
        + "` successfully."@
}

/// The headline of a failure.
pub open spec fn failure_headline(job: JobRecord) -> Seq<char> {
    "I couldn't complete job `"@ + job.short_id@ + "` for repo `"@ + job.repo_name@ + "`."@
}

/// The facts in executable form.
pub open spec fn facts(
    build_status: Option<&str>,
    test_status: Option<&str>,
    changed_entries: Option<usize>,
) -> ReplyFacts {
    ReplyFacts {
        build: text::opt_str(build_status),
        test: text::opt_str(test_status),
        changed: match changed_entries {
            Some(n) => Some(n as nat),
            None => None,
        },
    }
}

fn open_reply(
    headline: String,
    job: &JobRecord,
    build_status: Option<&str>,
    test_status: Option<&str>,
    changed_entries: Option<usize>,
) -> (r: Vec<String>)
    ensures
        text::views(r@) == opening_lines(
            headline@,
            *job,
            facts(build_status, test_status, changed_entries),
        ),
{
    let mut lines: Vec<String> = Vec::new();
    assert(text::views(lines@) =~= Seq::<Seq<char>>::empty());
    push_line(&mut lines, headline);
    assert(text::views(lines@) =~= seq![headline@]);
    if let Some(branch) = &job.branch_name {
        push_line(&mut lines, "Branch: `".to_string().concat(branch.as_str()).concat("`"));
    }
    if let Some(status) = build_status {
        push_line(&mut lines, "Build: ".to_string().concat(status));
    }
    if let Some(status) = test_status {
        push_line(&mut lines, "Test: ".to_string().concat(status));
    }
    if let Some(n) = changed_entries {
        push_line(
            &mut lines,
            "Changed entries: ".to_string().concat(scan::decimal(n as u64).as_str()),
        );
    }
    lines
}

fn close_reply(lines: Vec<String>, last_message: Option<&str>, closing: &str) -> (r: String)
    ensures
        r@ == text::join(
            with_closing(with_result(text::views(lines@), text::opt_str(last_message)), closing@),
            "\n"@,
        ),
{
    let mut lines = lines;
    if let Some(message) = last_message {
        push_line(&mut lines, scan::empty_text());
        push_line(&mut lines, "Final result:".to_string());
        push_line(&mut lines, truncate_text(message, RESULT_LIMIT));
    }
    push_line(&mut lines, scan::empty_text());
    push_line(&mut lines, closing.to_string());
    scan::join_texts(lines.as_slice(), "\n")
}

/// The reply to a success whose push waits for approval.
pub fn format_success_reply(
    job: &JobRecord,
    build_status: Option<&str>,
    test_status: Option<&str>,
    changed_entries: Option<usize>,
    last_message: Option<&str>,
    approval_summary: &str,
) -> (r: String)
    ensures
        r@ == success_reply(
            success_headline(*job),
            *job,
            facts(build_status, test_status, changed_entries),
            text::opt_str(last_message),
            approval_summary@,
        ),
{
    let headline = "I finished job `".to_string().concat(job.short_id.as_str()).concat(
        "` for repo `",
    ).concat(job.repo_name.as_str()).concat("` successfully.");
    let lines = open_reply(headline, job, build_status, test_status, changed_entries);
    close_reply(lines, last_message, approval_summary)
}

/// The reply to a success that left nothing to push.
pub fn format_success_without_push_reply(
    job: &JobRecord,
    build_status: Option<&str>,
    test_status: Option<&str>,
    changed_entries: Option<usize>,
    last_message: Option<&str>,
) -> (r: String)
    ensures
        r@ == success_reply(
            success_headline(*job),
            *job,
            facts(build_status, test_status, changed_entries),
            text::opt_str(last_message),
            "No committed repository changes were produced, so no push approval was required."@,
        ),
{
    let headline = "I finished job `".to_string().concat(job.short_id.as_str()).concat(
        "` for repo `",
    ).concat(job.repo_name.as_str()).concat("` successfully.");
    let lines = open_reply(headline, job, build_status, test_status, changed_entries);
    close_reply(
        lines,
        last_message,
        "No committed repository changes were produced, so no push approval was required.",
    )
}

/// What a reply to a read-only job closes with.
pub open spec fn read_only_closing(changed: Option<nat>) -> Seq<char> {
    if text::or_value(changed, 0) == 0 {
        "This ran in read-only mode, so no repository changes were produced and no push approval was required."@
    } else {
        "This ran in read-only mode. Any tracked changes were left uncommitted in the disposable worktree, and no push approval was opened."@
    }
}

/// The reply to a success in read-only mode.
pub fn format_read_only_success_reply(
    job: &JobRecord,
    build_status: Option<&str>,
    test_status: Option<&str>,
    changed_entries: Option<usize>,
    last_message: Option<&str>,
) -> (r: String)
    ensures
        r@ == success_reply(
            read_only_headline(*job),
            *job,
            facts(build_status, test_status, changed_entries),
            text::opt_str(last_message),
            read_only_closing(facts(build_status, test_status, changed_entries).changed),
        ),
{
    let headline = "I finished read-only job `".to_string().concat(job.short_id.as_str()).concat(
        "` for repo `",
    ).concat(job.repo_name.as_str()).concat("` successfully.");
    let lines = open_reply(headline, job, build_status, test_status, changed_entries);
    let changed = match changed_entries {
        Some(n) => n > 0,
        None => false,
    };
    if changed {
        close_reply(
            lines,
            last_message,
            "This ran in read-only mode. Any tracked changes were left uncommitted in the disposable worktree, and no push approval was opened.",
        )
    } else {
        close_reply(
            lines,
            last_message,
            "This ran in read-only mode, so no repository changes were produced and no push approval was required.",
        )
    }
}

/// The line of a failure that says why: its detail, else a summary that says
/// anything.
pub open spec fn failure_line(
    detail: Option<Seq<char>>,
    summary: Option<Seq<char>>,
) -> Option<Seq<char>> {
    match detail {
        Some(d) => Some("Detail: "@ + truncated(d, DETAIL_LIMIT as nat)),
        None => match summary {
            Some(content) => if text::is_blank(content) {
                None
            } else {
                Some("Summary: "@ + truncated(content, DETAIL_LIMIT as nat))
            },
            None => None,
        },
    }
}

/// The content of a summary that may be absent.
pub open spec fn summary_content(summary: Option<&SummaryRecord>) -> Option<Seq<char>> {
    match summary {
        Some(s) => Some(s.content@),
        None => None,
    }
}

/// The reply to a failure.
pub fn format_failure_reply(
    job: &JobRecord,
    build_status: Option<&str>,
    test_status: Option<&str>,
    changed_entries: Option<usize>,
    detail: Option<&str>,
    summary: Option<&SummaryRecord>,
) -> (r: String)
    ensures
        r@ == text::join(
            text::with_line(
                opening_lines(
                    failure_headline(*job),
                    *job,
                    facts(build_status, test_status, changed_entries),
                ),
                failure_line(text::opt_str(detail), summary_content(summary)),
            ),
            "\n"@,
        ),
{
    let headline = "I couldn't complete job `".to_string().concat(job.short_id.as_str()).concat(
        "` for repo `",
    ).concat(job.repo_name.as_str()).concat("`.");
    let mut lines = open_reply(headline, job, build_status, test_status, changed_entries);
    match detail {
        Some(detail) => {
            let cut = truncate_text(detail, DETAIL_LIMIT);
            push_line(&mut lines, "Detail: ".to_string().concat(cut.as_str()));
        },
        None => {
            if let Some(summary) = summary {
                if !scan::is_blank(summary.content.as_str()) {
                    let cut = truncate_text(summary.content.as_str(), DETAIL_LIMIT);
                    push_line(&mut lines, "Summary: ".to_string().concat(cut.as_str()));
                }
            }
        },
    }
    scan::join_texts(lines.as_slice(), "\n")
}

/// What a failure is reported with: its detail, else a summary that says
/// anything.
pub open spec fn failure_summary(
    detail: Option<Seq<char>>,
    summary: Option<Seq<char>>,
) -> Seq<char> {
    match detail {
        Some(d) => truncated(d, DETAIL_LIMIT as nat),
        None => match text::present(summary) {
            Some(content) => truncated(content, DETAIL_LIMIT as nat),
            None => "The job did not complete successfully."@,
        },
    }
}

/// What a failure is reported with: its detail, else a summary that says
/// anything.
pub fn format_failure_result_summary(detail: Option<&str>, summary: Option<&SummaryRecord>) -> (r:
    String)
    ensures
        r@ == failure_summary(text::opt_str(detail), summary_content(summary)),
{
    match detail {
        Some(detail) => truncate_text(detail, DETAIL_LIMIT),
        None => {
            if let Some(summary) = summary {
                let trimmed = scan::trim_text(summary.content.as_str());
                if chars_of(trimmed.as_str()).len() > 0 {
                    return truncate_text(trimmed.as_str(), DETAIL_LIMIT);
                }
            }
            "The job did not complete successfully.".to_string()
        },
    }
}

/// The intent as texts name it.
pub open spec fn intent_note(intent: ExecutionIntent) -> Seq<char> {
    match intent {
        ExecutionIntent::WorkspaceChange => "workspace-change"@,
        ExecutionIntent::ReadOnly => "read-only"@,
    }
}

/// The intent as texts name it.
pub fn execution_intent_note(intent: &ExecutionIntent) -> (r: &'static str)
    ensures
        r@ == intent_note(*intent),
{
    match intent {
        ExecutionIntent::WorkspaceChange => "workspace-change",
        ExecutionIntent::ReadOnly => "read-only",
    }
}

// ---------------------------------------------------------------------------
// Input
// ---------------------------------------------------------------------------

/// The trimmed texts in their order, blank ones and repetitions left out.
pub open spec fn sanitized_list(values: text::Texts) -> text::Texts
    decreases values.len(),
{
    if values.len() == 0 {
        values
    } else {
        let before = sanitized_list(values.drop_last());
        let item = text::trim(values.last());
        if item.len() == 0 || before.contains(item) {
            before
        } else {
            before.push(item)
        }
    }
}

/// Whether one of the strings holds exactly these characters.
pub fn holds_text(values: &[String], item: &str) -> (r: bool)
    ensures
        r == text::views(values@).contains(item@),
{
    let chars = chars_of(item);
    let mut i: usize = 0;
    while i < values.len()
        invariant
            i <= values@.len(),
            chars@ == item@,
            forall|j: int| 0 <= j < i ==> text::views(values@)[j] != item@,
        decreases values@.len() - i,
    {
        if scan::same(chars_of(values[i].as_str()).as_slice(), chars.as_slice()) {
            assert(text::views(values@)[i as int] == item@);
            return true;
        }
        i += 1;
    }
    false
}

/// The trimmed texts in their order, blank ones and repetitions left out.
pub fn sanitize_string_list(values: Vec<String>) -> (r: Vec<String>)
    ensures
        text::views(r@) == sanitized_list(text::views(values@)),
{
    let ghost model = text::views(values@);
    let mut out: Vec<String> = Vec::new();
    let mut i: usize = 0;
    assert(text::views(out@) =~= model.take(0));
    while i < values.len()
        invariant
            i <= values@.len(),
            model == text::views(values@),
            text::views(out@) == sanitized_list(model.take(i as int)),
        decreases values@.len() - i,
    {
        assert(model.take(i + 1).drop_last() =~= model.take(i as int));
        let item = scan::trim_text(values[i].as_str());
        if chars_of(item.as_str()).len() > 0 && !holds_text(out.as_slice(), item.as_str()) {
            push_line(&mut out, item);
        }
        i += 1;
    }
    assert(model.take(i as int) =~= model);
    out
}

/// The trimmed text, where anything is left of it.
pub fn sanitize_optional_string(value: Option<String>) -> (r: Option<String>)
    ensures
        text::opt(r) == text::present(text::opt(value)),
{
    match value {
        Some(candidate) => {
            let trimmed = scan::trim_text(candidate.as_str());
            if chars_of(trimmed.as_str()).len() == 0 {
                None
            } else {
                Some(trimmed)
            }
        },
        None => None,
    }
}

/// ASCII letters and digits in lower case; each run of other characters
/// becomes one dash.
pub open spec fn dashed(s: Seq<char>) -> Seq<char>
    decreases s.len(),
{
    if s.len() == 0 {
        s
    } else {
        let before = dashed(s.drop_last());
        if text::is_ascii_alphanumeric(s.last()) {
            before.push(text::ascii_lower(s.last()))
        } else if before.len() > 0 && before.last() == '-' {
            before
        } else {
            before.push('-')
        }
    }
}

/// A name for branches: lower-case letters, digits and single dashes.
pub open spec fn slug(s: Seq<char>) -> Seq<char> {
    let trimmed = text::trim_by(dashed(s), text::just('-'));
    if trimmed.len() == 0 {
        "job"@
    } else {
        text::prefix(trimmed, SLUG_LIMIT as nat)
    }
}

/// A name for branches: lower-case letters, digits and single dashes.
pub fn slugify(value: &str) -> (r: String)
    ensures
        r@ == slug(value@),
{
    let chars = chars_of(value);
    let mut out: Vec<char> = Vec::new();
    let mut i: usize = 0;
    assert(out@ =~= chars@.take(0));
    while i < chars.len()
        invariant
            i <= chars@.len(),
            out@ == dashed(chars@.take(i as int)),
        decreases chars@.len() - i,
    {
        assert(chars@.take(i + 1).drop_last() =~= chars@.take(i as int));
        let c = chars[i];
        if ('a' <= c && c <= 'z') || ('A' <= c && c <= 'Z') || ('0' <= c && c <= '9') {
            out.push(scan::ascii_lower(c));
        } else if out.len() == 0 || out[out.len() - 1] != '-' {
            out.push('-');
        }
        i += 1;
    }
    assert(chars@.take(i as int) =~= value@);
    let trimmed = scan::trim_by(out.as_slice(), &CharClass::Just('-'));
    if trimmed.len() == 0 {
        "job".to_string()
    } else {
        text_of(scan::prefix(trimmed, SLUG_LIMIT))
    }
}

// ---------------------------------------------------------------------------
// Laws
// ---------------------------------------------------------------------------

/// Every text is trimmed and not empty, and none occurs twice.
pub open spec fn is_clean_list(values: text::Texts) -> bool {
    &&& values.no_duplicates()
    &&& forall|i: int| #![trigger values[i]]
        0 <= i < values.len() ==> values[i].len() > 0 && text::trim(values[i]) == values[i]
}

/// A sanitized list holds trimmed texts that are not empty, each once, and
/// sanitizing it again changes nothing.
pub proof fn law_sanitized_list(values: text::Texts)
    ensures
        is_clean_list(sanitized_list(values)),
        sanitized_list(sanitized_list(values)) == sanitized_list(values),
    decreases values.len(),
{
    lemma_sanitized_is_clean(values);
    lemma_clean_stays(sanitized_list(values));
}

proof fn lemma_sanitized_is_clean(values: text::Texts)
    ensures
        is_clean_list(sanitized_list(values)),
    decreases values.len(),
{
    if values.len() > 0 {
        lemma_sanitized_is_clean(values.drop_last());
        text_lemmas::lemma_trim_idempotent(values.last(), text::space());
    }
}

/// A list that is clean is its own sanitized form.
pub proof fn lemma_clean_stays(values: text::Texts)
    requires
        is_clean_list(values),
    ensures
        sanitized_list(values) == values,
    decreases values.len(),
{
    if values.len() > 0 {
        let before = values.drop_last();
        assert forall|i: int| #![trigger before[i]] 0 <= i < before.len() implies before[i].len()
            > 0 && text::trim(before[i]) == before[i] by {
            assert(before[i] == values[i]);
        }
        lemma_clean_stays(before);
        let item = values[values.len() - 1];
        assert(!before.contains(item)) by {
            if before.contains(item) {
                let i = choose|i: int| 0 <= i < before.len() && before[i] == item;
                assert(values[i] == values[values.len() - 1]);
            }
        }
        assert(before.push(item) =~= values);
    }
}

/// Sanitizing keeps exactly the trimmed texts that are not empty.
pub proof fn law_sanitized_members(values: text::Texts, item: Seq<char>)
    ensures
        sanitized_list(values).contains(item) <==> item.len() > 0 && exists|i: int|
            0 <= i < values.len() && text::trim(#[trigger] values[i]) == item,
    decreases values.len(),
{
    if values.len() > 0 {
        let before = values.drop_last();
        law_sanitized_members(before, item);
        let result = sanitized_list(values);
        let last = text::trim(values.last());
        if item.len() > 0 && exists|i: int|
            0 <= i < values.len() && text::trim(#[trigger] values[i]) == item {
            let i = choose|i: int| 0 <= i < values.len() && text::trim(#[trigger] values[i]) == item;
            if i < before.len() {
                assert(before[i] == values[i]);
            }
            if sanitized_list(before).contains(item) {
                let k = choose|k: int|
                    0 <= k < sanitized_list(before).len() && sanitized_list(before)[k] == item;
                assert(result[k] == item);
            } else {
                assert(last == item);
                assert(result[result.len() - 1] == item);
            }
        }
        if result.contains(item) {
            let k = choose|k: int| 0 <= k < result.len() && result[k] == item;
            if sanitized_list(before).contains(item) {
                let i = choose|i: int|
                    0 <= i < before.len() && text::trim(#[trigger] before[i]) == item;
                assert(values[i] == before[i]);
            } else {
                if k < sanitized_list(before).len() {
                    assert(sanitized_list(before)[k] == item);
                }
                assert(text::trim(values[values.len() - 1]) == item);
            }
        }
    }
}

/// A cut text has at most its limit of characters and an ellipsis.
pub proof fn law_truncated_fits(s: Seq<char>, limit: nat)
    ensures
        truncated(s, limit).len() <= limit + 3,
        s.len() <= limit ==> truncated(s, limit) == text::trim(s),
{
    reveal_strlit("...");
    let r = text_lemmas::trim_range(s, text::space());
}

/// The characters of a slug.
pub open spec fn is_slug_char(c: char) -> bool {
    'a' <= c <= 'z' || '0' <= c <= '9' || c == '-'
}

proof fn lemma_dashed(s: Seq<char>)
    ensures
        forall|i: int| 0 <= i < dashed(s).len() ==> is_slug_char(#[trigger] dashed(s)[i]),
        forall|i: int|
            0 <= i < dashed(s).len() - 1 ==> !(#[trigger] dashed(s)[i] == '-' && dashed(s)[i + 1]
                == '-'),
    decreases s.len(),
{
    if s.len() > 0 {
        lemma_dashed(s.drop_last());
        let c = s.last();
        if text::is_ascii_alphanumeric(c) {
            assert(is_slug_char(text::ascii_lower(c)));
            assert(text::ascii_lower(c) != '-');
        }
        let before = dashed(s.drop_last());
        let result = dashed(s);
        assert forall|i: int| 0 <= i < result.len() implies is_slug_char(#[trigger] result[i]) by {
            if i < before.len() {
                assert(result[i] == before[i]);
            }
        }
        assert forall|i: int| 0 <= i < result.len() - 1 implies !(#[trigger] result[i] == '-'
            && result[i + 1] == '-') by {
            assert(result[i] == before[i]);
            if i + 1 < before.len() {
                assert(result[i + 1] == before[i + 1]);
            }
        }
    }
}

proof fn lemma_only_dashes(s: Seq<char>)
    requires
        forall|i: int| 0 <= i < s.len() ==> !text::is_ascii_alphanumeric(#[trigger] s[i]),
    ensures
        forall|i: int| 0 <= i < dashed(s).len() ==> #[trigger] dashed(s)[i] == '-',
    decreases s.len(),
{
    if s.len() > 0 {
        let before = s.drop_last();
        assert forall|i: int| 0 <= i < before.len() implies !text::is_ascii_alphanumeric(
            #[trigger] before[i],
        ) by {
            assert(before[i] == s[i]);
        }
        lemma_only_dashes(before);
        assert(!text::is_ascii_alphanumeric(s[s.len() - 1]));
        assert forall|i: int| 0 <= i < dashed(s).len() implies #[trigger] dashed(s)[i] == '-' by {
            if i < dashed(before).len() {
                assert(dashed(s)[i] == dashed(before)[i]);
            }
        }
    }
}

/// A slug holds lower-case letters, digits and single dashes, does not begin
/// with a dash, ends with one only where it was cut, and has between one and its
/// limit of characters. A text without ASCII letters and digits gives `job`.
pub proof fn law_slug(s: Seq<char>)
    ensures
        0 < slug(s).len() <= SLUG_LIMIT,
        slug(s)[0] != '-',
        forall|i: int| 0 <= i < slug(s).len() ==> is_slug_char(#[trigger] slug(s)[i]),
        forall|i: int|
            0 <= i < slug(s).len() - 1 ==> !(#[trigger] slug(s)[i] == '-' && slug(s)[i + 1]
                == '-'),
        slug(s).last() == '-' ==> slug(s).len() == SLUG_LIMIT,
        (forall|i: int| 0 <= i < s.len() ==> !text::is_ascii_alphanumeric(#[trigger] s[i]))
            ==> slug(s) == "job"@,
{
    reveal_strlit("job");
    if forall|i: int| 0 <= i < s.len() ==> !text::is_ascii_alphanumeric(#[trigger] s[i]) {
        lemma_only_dashes(s);
    }
    lemma_dashed(s);
    let d = dashed(s);
    let r = text_lemmas::trim_range(d, text::just('-'));
    let t = text::trim_by(d, text::just('-'));
    if t.len() > 0 {
        assert(t == d.subrange(r.0, r.1));
        assert forall|i: int| 0 <= i < slug(s).len() implies is_slug_char(#[trigger] slug(s)[i]) by {
            assert(slug(s)[i] == d[r.0 + i]);
        }
        assert forall|i: int| 0 <= i < slug(s).len() - 1 implies !(#[trigger] slug(s)[i] == '-'
            && slug(s)[i + 1] == '-') by {
            assert(slug(s)[i] == d[r.0 + i]);
            assert(slug(s)[i + 1] == d[r.0 + i + 1]);
        }
    }
}

} // verus!
