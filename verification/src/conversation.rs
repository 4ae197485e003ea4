//! Replies of the assistant in a conversation, and what it is told for them.

use crate::draft_payload;
use crate::draft_payload::message_execution_draft;
use crate::drafts;
use crate::drafts::{last_user_index, looks_like_execution_request};
use crate::json::{Json, JsonObject, JsonView};
use crate::models::{
    ApprovalRecord, DraftView, ExecutionDraft, JobRecord, MessageRecord, RelatedNoteContext,
    RelatedNoteView, SummaryRecord, ThreadRecord,
};
use crate::note_memory;
use crate::notes;
use crate::scan;
use crate::scan::{chars_of, empty_text, push_line, same_text, text_of};
use crate::text;
use crate::time;
use vstd::prelude::*;

verus! {

/// What the assistant is told about its task.
pub const INSTRUCTIONS: &'static str = "You are Elowen, the orchestrator-side assistant in conversational mode. Reply conversationally and concisely. Use only the provided thread, job, and notes context. Do not claim to have dispatched a laptop job, modified code, run tests, or inspected a worktree unless the context explicitly says that already happened. When the user appears to want real code execution, planning, or repo changes, explain that execution happens through an explicit handoff and suggest using the dispatch controls when they are ready. If a current execution draft is present, treat it as editable planning context and help refine it without pretending a job has already been dispatched. Preserve a read-only draft as read-only unless the user clearly asks to make repository changes. If the context is incomplete, say so plainly rather than inventing details. When prior jobs, approvals, summaries, or notes materially support the answer, mention them briefly using labels like [Job 01abcd12] or [Note Title].";

/// Most messages that the assistant sees.
pub const MESSAGE_LIMIT: usize = 10;

/// Most jobs that the assistant sees.
pub const JOB_LIMIT: usize = 4;

/// Most notes that the assistant sees.
pub const NOTE_LIMIT: usize = 4;

/// The trimmed text, cut to a number of characters.
pub open spec fn summarized(s: Seq<char>, limit: nat) -> Seq<char> {
    text::prefix(text::trim(s), limit)
}

/// The trimmed text, cut to a number of characters.
pub fn summarize_text(value: &str, limit: usize) -> (r: String)
    ensures
        r@ == summarized(value@, limit as nat),
{
    text_of(scan::prefix(scan::trim(chars_of(value).as_slice()), limit))
}

/// What the assistant is told about its task.
pub fn build_conversation_instructions() -> (r: &'static str)
    ensures
        r@ == INSTRUCTIONS@,
{
    INSTRUCTIONS
}

// ---------------------------------------------------------------------------
// Context
// ---------------------------------------------------------------------------

/// How a message came about.
pub open spec fn message_mode(message: MessageRecord) -> Seq<char> {
    if message.status@ == "conversation.reply"@ && draft_payload::message_draft(message) is Some {
        "conversation-draft"@
    } else if message.status@ == "conversation.reply"@ {
        "conversation"@
    } else if message.status@ == "workflow.handoff.created"@ {
        "handoff"@
    } else if message.status@ == "workflow.dispatch.created"@ {
        "dispatch"@
    } else if text::starts_with(message.status@, "job_event:"@) {
        "job-update"@
    } else {
        "message"@
    }
}

/// How a message came about.
pub fn format_message_mode_label(message: &MessageRecord) -> (r: &'static str)
    ensures
        r@ == message_mode(*message),
{
    let status = message.status.as_str();
    if same_text(status, "conversation.reply") {
        if message_execution_draft(message).is_some() {
            "conversation-draft"
        } else {
            "conversation"
        }
    } else if same_text(status, "workflow.handoff.created") {
        "handoff"
    } else if same_text(status, "workflow.dispatch.created") {
        "dispatch"
    } else if scan::starts_with(chars_of(status).as_slice(), chars_of("job_event:").as_slice()) {
        "job-update"
    } else {
        "message"
    }
}

/// One line for a message.
pub open spec fn message_line(message: MessageRecord) -> Seq<char> {
    "- ["@ + message.role@ + " | "@ + message_mode(message) + "] "@ + summarized(
        message.content@,
        280,
    )
}

/// The last messages, one line each.
pub open spec fn message_lines(messages: Seq<MessageRecord>, limit: nat) -> text::Texts {
    let n = notes::at_most(messages.len(), limit);
    Seq::new(n, |i: int| message_line(messages[messages.len() - n + i]))
}

/// The lines, or a word that there is nothing to list.
pub open spec fn listed(count: nat, lines: text::Texts) -> Seq<char> {
    if count == 0 {
        "- none"@
    } else {
        text::join(lines, "\n"@)
    }
}

fn show_lines(count: usize, lines: Vec<String>) -> (r: String)
    ensures
        r@ == listed(count as nat, text::views(lines@)),
{
    if count == 0 {
        "- none".to_string()
    } else {
        scan::join_texts(lines.as_slice(), "\n")
    }
}

/// The last messages, one line each.
pub fn format_message_context(messages: &[MessageRecord], limit: usize) -> (r: String)
    ensures
        r@ == listed(messages@.len(), message_lines(messages@, limit as nat)),
{
    let ghost model = message_lines(messages@, limit as nat);
    let n = if messages.len() <= limit {
        messages.len()
    } else {
        limit
    };
    let start = messages.len() - n;
    let mut lines: Vec<String> = Vec::new();
    let mut i: usize = 0;
    assert(text::views(lines@) =~= model.take(0));
    while i < n
        invariant
            i <= n,
            n == notes::at_most(messages@.len(), limit as nat),
            start == messages@.len() - n,
            model == message_lines(messages@, limit as nat),
            text::views(lines@) == model.take(i as int),
        decreases n - i,
    {
        assert(start + i < messages.len());
        let message = &messages[start + i];
        let summary = summarize_text(message.content.as_str(), 280);
        let line = "- [".to_string().concat(message.role.as_str()).concat(" | ").concat(
            format_message_mode_label(message),
        ).concat("] ").concat(summary.as_str());
        push_line(&mut lines, line);
        assert(model.take(i + 1) =~= model.take(i as int).push(model[i as int]));
        i += 1;
    }
    assert(model.take(i as int) =~= model);
    show_lines(messages.len(), lines)
}

/// One line for the draft.
pub open spec fn draft_context(draft: Option<DraftView>) -> Seq<char> {
    match draft {
        Some(d) => "- title `"@ + d.title + "`; repo `"@ + text::or_value(
            d.repo_name,
            "unspecified"@,
        ) + "`; branch `"@ + d.base_branch + "`; intent `"@ + d.execution_intent.name()
            + "`; request "@ + summarized(d.request_text, 220) + "; rationale "@ + summarized(
            d.rationale,
            160,
        ),
        None => "- none"@,
    }
}

fn repo_or_unspecified(draft: &ExecutionDraft) -> (r: String)
    ensures
        r@ == text::or_value(draft@.repo_name, "unspecified"@),
{
    match &draft.repo_name {
        Some(name) => name.clone(),
        None => "unspecified".to_string(),
    }
}

/// One line for the draft.
pub fn format_execution_draft_context(execution_draft: Option<&ExecutionDraft>) -> (r: String)
    ensures
        r@ == draft_context(draft_payload::opt_draft_ref(execution_draft)),
{
    match execution_draft {
        Some(draft) => {
            let repo = repo_or_unspecified(draft);
            let request = summarize_text(draft.request_text.as_str(), 220);
            let rationale = summarize_text(draft.rationale.as_str(), 160);
            "- title `".to_string().concat(draft.title.as_str()).concat("`; repo `").concat(
                repo.as_str(),
            ).concat("`; branch `").concat(draft.base_branch.as_str()).concat(
                "`; intent `",
            ).concat(draft.execution_intent.as_str()).concat("`; request ").concat(
                request.as_str(),
            ).concat("; rationale ").concat(rationale.as_str())
        },
        None => "- none".to_string(),
    }
}

/// A job with what is known of it.
#[derive(Debug)]
pub struct ConversationJobContext {
    pub job: JobRecord,
    pub summary: Option<SummaryRecord>,
    pub pending_approval: Option<ApprovalRecord>,
}

/// The first approval that is still open.
pub open spec fn first_pending(approvals: Seq<ApprovalRecord>) -> Option<int>
    decreases approvals.len(),
{
    if approvals.len() == 0 {
        None
    } else {
        match first_pending(approvals.drop_last()) {
            Some(i) => Some(i),
            None => if approvals.last().status@ == "pending"@ {
                Some(approvals.len() - 1)
            } else {
                None
            },
        }
    }
}

/// The position of the first approval that is still open.
pub fn pending_approval_index(approvals: &[ApprovalRecord]) -> (r: Option<usize>)
    ensures
        match r {
            Some(i) => i < approvals@.len() && first_pending(approvals@) == Some(i as int),
            None => first_pending(approvals@) is None,
        },
{
    let mut found: Option<usize> = None;
    let mut i: usize = 0;
    while i < approvals.len()
        invariant
            i <= approvals@.len(),
            match found {
                Some(k) => k < i && first_pending(approvals@.take(i as int)) == Some(k as int),
                None => first_pending(approvals@.take(i as int)) is None,
            },
        decreases approvals@.len() - i,
    {
        assert(approvals@.take(i + 1).drop_last() =~= approvals@.take(i as int));
        if found.is_none() && same_text(approvals[i].status.as_str(), "pending") {
            found = Some(i);
        }
        i += 1;
    }
    assert(approvals@.take(i as int) =~= approvals@);
    found
}

/// A text between backticks after a label.
pub open spec fn quoted(label: Seq<char>, value: Option<Seq<char>>) -> Option<Seq<char>> {
    match value {
        Some(v) => Some(label + " `"@ + v + "`"@),
        None => None,
    }
}

/// The parts of the line for a job.
pub open spec fn job_parts(entry: ConversationJobContext) -> text::Texts {
    text::with_line(
        text::with_line(
            text::with_line(
                text::with_line(
                    seq![
                        "- [Job "@ + entry.job.short_id@ + "] repo `"@ + entry.job.repo_name@
                            + "` is `"@ + entry.job.status@ + "`"@,
                    ],
                    quoted("result"@, text::opt(entry.job.result)),
                ),
                quoted("branch"@, text::opt(entry.job.branch_name)),
            ),
            match entry.summary {
                Some(s) => Some("summary "@ + summarized(s.content@, 160)),
                None => None,
            },
        ),
        match entry.pending_approval {
            Some(a) => Some("pending approval "@ + summarized(a.summary@, 120)),
            None => None,
        },
    )
}

/// One line for each job.
pub open spec fn job_lines(entries: Seq<ConversationJobContext>) -> text::Texts {
    entries.map_values(|e: ConversationJobContext| text::join(job_parts(e), ", "@))
}

fn job_line(entry: &ConversationJobContext) -> (r: String)
    ensures
        r@ == text::join(job_parts(*entry), ", "@),
{
    let mut parts: Vec<String> = Vec::new();
    let head = "- [Job ".to_string().concat(entry.job.short_id.as_str()).concat("] repo `").concat(
        entry.job.repo_name.as_str(),
    ).concat("` is `").concat(entry.job.status.as_str()).concat("`");
    parts.push(head);
    assert(text::views(parts@) =~= seq![head@]);
    if let Some(result) = &entry.job.result {
        push_line(
            &mut parts,
            "result".to_string().concat(" `").concat(result.as_str()).concat("`"),
        );
    }
    if let Some(branch) = &entry.job.branch_name {
        push_line(
            &mut parts,
            "branch".to_string().concat(" `").concat(branch.as_str()).concat("`"),
        );
    }
    if let Some(summary) = &entry.summary {
        let cut = summarize_text(summary.content.as_str(), 160);
        push_line(&mut parts, "summary ".to_string().concat(cut.as_str()));
    }
    if let Some(approval) = &entry.pending_approval {
        let cut = summarize_text(approval.summary.as_str(), 120);
        push_line(&mut parts, "pending approval ".to_string().concat(cut.as_str()));
    }
    scan::join_texts(parts.as_slice(), ", ")
}

/// One line for each job.
pub fn format_job_context(job_context: &[ConversationJobContext]) -> (r: String)
    ensures
        r@ == listed(job_context@.len(), job_lines(job_context@)),
{
    let ghost model = job_lines(job_context@);
    let mut lines: Vec<String> = Vec::new();
    let mut i: usize = 0;
    assert(text::views(lines@) =~= model.take(0));
    while i < job_context.len()
        invariant
            i <= job_context@.len(),
            model == job_lines(job_context@),
            text::views(lines@) == model.take(i as int),
        decreases job_context@.len() - i,
    {
        push_line(&mut lines, job_line(&job_context[i]));
        assert(model.take(i + 1) =~= model.take(i as int).push(model[i as int]));
        i += 1;
    }
    assert(model.take(i as int) =~= model);
    show_lines(job_context.len(), lines)
}

/// Why a note is shown, in one line.
pub open spec fn reasons_text(reasons: text::Texts) -> Seq<char> {
    if reasons.len() == 0 {
        "none"@
    } else {
        text::join(reasons, ", "@)
    }
}

/// One line for a note; `updated` is the text of the instant of its last change.
pub open spec fn note_entry(note: RelatedNoteView, updated: Seq<char>) -> Seq<char> {
    "- [Note "@ + note.note.title + "] role `"@ + note.memory_role + "` source `"@
        + note.source_label + "` kind `"@ + text::or_value(note.note.source_kind, "general"@)
        + "` score `"@ + note.note.relevance.label + "` reasons ["@ + reasons_text(
        note.note.match_reasons,
    ) + "] updated `"@ + updated + "`: "@ + summarized(note.note.summary, 200)
        + match note.detail_excerpt {
        Some(e) => " | excerpt "@ + summarized(e, 180),
        None => Seq::<char>::empty(),
    }
}

/// One line for a note.
pub open spec fn note_line(note: RelatedNoteView) -> Seq<char> {
    note_entry(
        note,
        time::rfc3339_text(note.note.updated_at.secs(), note.note.updated_at.nanos()),
    )
}

/// The first notes, one line each.
pub open spec fn note_lines(related: Seq<RelatedNoteView>, limit: nat) -> text::Texts {
    Seq::new(notes::at_most(related.len(), limit), |i: int| note_line(related[i]))
}

/// One line for a note, given the text of the instant of its last change.
pub fn describe_note_at(note: &RelatedNoteContext, updated: &str) -> (r: String)
    ensures
        r@ == note_entry(note@, updated@),
{
    let kind = match &note.note.source_kind {
        Some(kind) => kind.clone(),
        None => "general".to_string(),
    };
    let reasons = if note.note.match_reasons.len() == 0 {
        "none".to_string()
    } else {
        scan::join_texts(note.note.match_reasons.as_slice(), ", ")
    };
    let summary = summarize_text(note.note.summary.as_str(), 200);
    let excerpt = match &note.detail_excerpt {
        Some(excerpt) => {
            let cut = summarize_text(excerpt.as_str(), 180);
            " | excerpt ".to_string().concat(cut.as_str())
        },
        None => empty_text(),
    };
    "- [Note ".to_string().concat(note.note.title.as_str()).concat("] role `").concat(
        note.memory_role.as_str(),
    ).concat("` source `").concat(note.source_label.as_str()).concat("` kind `").concat(
        kind.as_str(),
    ).concat("` score `").concat(note.note.relevance.label.as_str()).concat("` reasons [").concat(
        reasons.as_str(),
    ).concat("] updated `").concat(updated).concat("`: ").concat(summary.as_str()).concat(
        excerpt.as_str(),
    )
}

fn describe_note(note: &RelatedNoteContext) -> (r: String)
    ensures
        r@ == note_line(note@),
{
    let updated = note.note.updated_at.to_rfc3339();
    describe_note_at(note, updated.as_str())
}

/// The first notes, one line each.
pub fn format_note_context(related: &[RelatedNoteContext], limit: usize) -> (r: String)
    ensures
        r@ == listed(
            related@.len(),
            note_lines(note_memory::related_views(related@), limit as nat),
        ),
{
    let ghost model = note_lines(note_memory::related_views(related@), limit as nat);
    let mut lines: Vec<String> = Vec::new();
    let mut i: usize = 0;
    assert(text::views(lines@) =~= model.take(0));
    while i < limit && i < related.len()
        invariant
            i <= limit,
            i <= related@.len(),
            model == note_lines(note_memory::related_views(related@), limit as nat),
            text::views(lines@) == model.take(i as int),
        decreases limit - i,
    {
        push_line(&mut lines, describe_note(&related[i]));
        assert(model.take(i + 1) =~= model.take(i as int).push(model[i as int]));
        i += 1;
    }
    assert(model.take(i as int) =~= model);
    show_lines(related.len(), lines)
}

/// What the assistant is told about the thread; `note_text` is what it is told
/// about the notes.
pub open spec fn conversation_text(
    thread: ThreadRecord,
    messages: Seq<MessageRecord>,
    jobs: Seq<ConversationJobContext>,
    note_text: Seq<char>,
    draft: Option<DraftView>,
) -> Seq<char> {
    "Thread title: "@ + thread.title@ + "\nThread status: "@ + thread.status@
        + "\n\nLatest user message:\n"@ + match drafts::last_user(messages) {
        Some(message) => summarized(message.content@, 600),
        None => Seq::<char>::empty(),
    } + "\n\nRecent thread messages:\n"@ + listed(
        messages.len(),
        message_lines(messages, MESSAGE_LIMIT as nat),
    ) + "\n\nCurrent execution draft:\n"@ + draft_context(draft) + "\n\nRecent related jobs:\n"@
        + listed(jobs.len(), job_lines(jobs)) + "\n\nRelated notes:\n"@ + note_text + "\n"@
}

/// What the assistant is told about the thread.
pub open spec fn conversation_input(
    thread: ThreadRecord,
    messages: Seq<MessageRecord>,
    jobs: Seq<ConversationJobContext>,
    related: Seq<RelatedNoteView>,
    draft: Option<DraftView>,
) -> Seq<char> {
    conversation_text(
        thread,
        messages,
        jobs,
        listed(related.len(), note_lines(related, NOTE_LIMIT as nat)),
        draft,
    )
}

/// What the assistant is told about the thread.
pub fn build_conversation_input(
    thread: &ThreadRecord,
    messages: &[MessageRecord],
    job_context: &[ConversationJobContext],
    related_notes: &[RelatedNoteContext],
    execution_draft: Option<&ExecutionDraft>,
) -> (r: String)
    ensures
        r@ == conversation_input(
            *thread,
            messages@,
            job_context@,
            note_memory::related_views(related_notes@),
            draft_payload::opt_draft_ref(execution_draft),
        ),
{
    let note_text = format_note_context(related_notes, NOTE_LIMIT);
    conversation_input_with(thread, messages, job_context, note_text.as_str(), execution_draft)
}

/// What the assistant is told about the thread, given what it is told about the
/// notes.
pub fn conversation_input_with(
    thread: &ThreadRecord,
    messages: &[MessageRecord],
    job_context: &[ConversationJobContext],
    note_text: &str,
    execution_draft: Option<&ExecutionDraft>,
) -> (r: String)
    ensures
        r@ == conversation_text(
            *thread,
            messages@,
            job_context@,
            note_text@,
            draft_payload::opt_draft_ref(execution_draft),
        ),
{
    let latest_user = match last_user_index(messages) {
        Some(i) => summarize_text(messages[i].content.as_str(), 600),
        None => empty_text(),
    };
    let message_text = format_message_context(messages, MESSAGE_LIMIT);
    let draft_text = format_execution_draft_context(execution_draft);
    let job_text = format_job_context(job_context);
    "Thread title: ".to_string().concat(thread.title.as_str()).concat("\nThread status: ").concat(
        thread.status.as_str(),
    ).concat("\n\nLatest user message:\n").concat(latest_user.as_str()).concat(
        "\n\nRecent thread messages:\n",
    ).concat(message_text.as_str()).concat("\n\nCurrent execution draft:\n").concat(
        draft_text.as_str(),
    ).concat("\n\nRecent related jobs:\n").concat(job_text.as_str()).concat(
        "\n\nRelated notes:\n",
    ).concat(note_text).concat("\n")
}

// ---------------------------------------------------------------------------
// The assistant service
// ---------------------------------------------------------------------------

/// The address of the assistant service.
pub fn assistant_url(base_url: &str) -> (r: String)
    ensures
        r@ == base_url@ + "/responses"@,
{
    base_url.to_string().concat("/responses")
}

/// The body of a request to the assistant service.
pub fn assistant_request(model: &str, input: &str) -> (r: Json)
    ensures
        r.model() == JsonView::Object(
            seq![
                ("model"@, JsonView::Text(model@)),
                ("instructions"@, JsonView::Text(INSTRUCTIONS@)),
                ("input"@, JsonView::Text(input@)),
                ("max_output_tokens"@, JsonView::Number("600"@)),
            ],
        ),
{
    let object = JsonObject::new().with_text("model", model).with_text(
        "instructions",
        build_conversation_instructions(),
    ).with_text("input", input).with("max_output_tokens", Json::Number("600".to_string()));
    assert(object.entries() =~= seq![
        ("model"@, JsonView::Text(model@)),
        ("instructions"@, JsonView::Text(INSTRUCTIONS@)),
        ("input"@, JsonView::Text(input@)),
        ("max_output_tokens"@, JsonView::Number("600"@)),
    ]);
    object.build()
}

/// The texts of the parts of one output.
pub open spec fn part_texts(parts: Seq<JsonView>) -> text::Texts
    decreases parts.len(),
{
    if parts.len() == 0 {
        Seq::empty()
    } else {
        text::with_line(
            part_texts(parts.drop_last()),
            text::present(parts.last().field_text("text"@)),
        )
    }
}

/// The parts of one output.
pub open spec fn output_parts(output: JsonView) -> Seq<JsonView> {
    match output.field("content"@) {
        Some(JsonView::Array(parts)) => parts,
        _ => Seq::empty(),
    }
}

/// The texts of all outputs, in order.
pub open spec fn output_texts(outputs: Seq<JsonView>) -> text::Texts
    decreases outputs.len(),
{
    if outputs.len() == 0 {
        Seq::empty()
    } else {
        output_texts(outputs.drop_last()) + part_texts(output_parts(outputs.last()))
    }
}

/// The text in an answer of the assistant service: its short form where that
/// says anything, else the texts of its outputs.
pub open spec fn response_text(answer: JsonView) -> Option<Seq<char>> {
    match text::present(answer.field_text("output_text"@)) {
        Some(t) => Some(t),
        None => text::present(
            Some(
                text::join(
                    match answer.field("output"@) {
                        Some(JsonView::Array(outputs)) => output_texts(outputs),
                        _ => Seq::empty(),
                    },
                    "\n"@,
                ),
            ),
        ),
    }
}

fn push_part_texts(texts: &mut Vec<String>, parts: &Vec<Json>)
    ensures
        text::views(final(texts)@) == text::views(old(texts)@) + part_texts(
            crate::json::values_view(parts@),
        ),
{
    let ghost start = text::views(texts@);
    let ghost model = crate::json::values_view(parts@);
    let mut i: usize = 0;
    assert(part_texts(model.take(0)) =~= Seq::empty());
    assert(text::views(texts@) =~= start + part_texts(model.take(0)));
    while i < parts.len()
        invariant
            i <= parts@.len(),
            model == crate::json::values_view(parts@),
            text::views(texts@) == start + part_texts(model.take(i as int)),
        decreases parts@.len() - i,
    {
        assert(model.take(i + 1).drop_last() =~= model.take(i as int));
        assert(model[i as int] == parts@[i as int].model());
        if let Some(t) = parts[i].present_text("text") {
            push_line(texts, t);
        }
        assert(text::views(texts@) =~= start + part_texts(model.take(i + 1)));
        i += 1;
    }
    assert(model.take(i as int) =~= model);
}

/// The text in an answer of the assistant service.
pub fn extract_response_text(value: &Json) -> (r: Option<String>)
    ensures
        text::opt(r) == response_text(value.model()),
{
    if let Some(t) = value.present_text("output_text") {
        return Some(t);
    }
    let mut texts: Vec<String> = Vec::new();
    assert(text::views(texts@) =~= Seq::empty());
    if let Some(Json::Array(outputs)) = value.get("output") {
        let ghost model = crate::json::values_view(outputs@);
        let mut i: usize = 0;
        assert(model.take(0) =~= Seq::empty());
        while i < outputs.len()
            invariant
                i <= outputs@.len(),
                model == crate::json::values_view(outputs@),
                text::views(texts@) == output_texts(model.take(i as int)),
            decreases outputs@.len() - i,
        {
            assert(model.take(i + 1).drop_last() =~= model.take(i as int));
            assert(model[i as int] == outputs@[i as int].model());
            if let Some(Json::Array(parts)) = outputs[i].get("content") {
                push_part_texts(&mut texts, parts);
            } else {
                assert(part_texts(output_parts(model[i as int])) =~= Seq::empty());
            }
            assert(text::views(texts@) =~= output_texts(model.take(i + 1)));
            i += 1;
        }
        assert(model.take(i as int) =~= model);
    }
    let joined = scan::join_texts(texts.as_slice(), "\n");
    let trimmed = scan::trim_text(joined.as_str());
    if chars_of(trimmed.as_str()).len() > 0 {
        Some(trimmed)
    } else {
        None
    }
}

// ---------------------------------------------------------------------------
// Replies
// ---------------------------------------------------------------------------

/// What the user asked last.
pub open spec fn latest_request(messages: Seq<MessageRecord>) -> Seq<char> {
    match drafts::last_user(messages) {
        Some(message) => text::trim(message.content@),
        None => Seq::<char>::empty(),
    }
}

/// A remark on the most recent job.
pub open spec fn job_remark(jobs: Seq<JobRecord>) -> Seq<char> {
    if jobs.len() > 0 {
        " The most recent job in this thread targeted repo `"@ + jobs[0].repo_name@ + "`."@
    } else {
        Seq::<char>::empty()
    }
}

/// The repository that a draft names.
pub open spec fn draft_repo(draft: DraftView) -> Seq<char> {
    text::or_value(draft.repo_name, "unspecified"@)
}

/// The result of a job, as part of a sentence.
pub open spec fn result_remark(job: JobRecord) -> Seq<char> {
    match job.result {
        Some(result) => ", with result `"@ + result@ + "`"@,
        None => Seq::<char>::empty(),
    }
}

/// The reply without the assistant service.
pub open spec fn fallback_reply(
    thread: ThreadRecord,
    messages: Seq<MessageRecord>,
    jobs: Seq<JobRecord>,
    related: Seq<RelatedNoteView>,
    draft: Option<DraftView>,
) -> Seq<char> {
    if drafts::asks_for_execution(latest_request(messages)) {
        match draft {
            Some(d) => "I'm still in conversational mode for thread `"@ + thread.title@
                + "`. I prepared a draft for repo `"@ + draft_repo(d) + "` on base branch `"@
                + d.base_branch
                + "` below so you can refine it before you dispatch anything."@ + job_remark(jobs),
            None => "I'm in conversational mode for thread `"@ + thread.title@
                + "` right now, so I have not created a laptop job yet. I can help refine the request or you can use the explicit dispatch controls when you're ready."@
                + job_remark(jobs),
        }
    } else if let Some(d) = draft {
        "I'm still in conversational mode, and I prepared an execution draft for repo `"@
            + draft_repo(d) + "` on base branch `"@ + d.base_branch
            + "` from the latest request. You can keep refining it here before explicitly dispatching it."@
    } else if jobs.len() > 0 {
        "I'm here in conversational mode. The latest job in this thread is `"@ + jobs[0].short_id@
            + "` for repo `"@ + jobs[0].repo_name@ + "`, currently `"@ + jobs[0].status@ + "`"@
            + result_remark(jobs[0])
            + ".\n\nI can help you reason about the next step, summarize what happened, or prepare an explicit handoff into laptop execution when you want it."@
    } else if related.len() > 0 {
        "I'm here in conversational mode. I can answer questions about this thread, help plan work, or prepare an explicit laptop dispatch when needed.\n\nThe closest related note I found is `"@
            + related[0].note.title + "`: "@ + summarized(related[0].note.summary, 160)
    } else {
        "I'm here in conversational mode. Ask me questions, work through a plan with me, or use the explicit dispatch controls when you want me to create a real laptop job."@
    }
}

/// The reply without the assistant service.
pub fn build_fallback_conversational_reply(
    thread: &ThreadRecord,
    messages: &[MessageRecord],
    jobs: &[JobRecord],
    related_notes: &[RelatedNoteContext],
    execution_draft: Option<&ExecutionDraft>,
) -> (r: String)
    ensures
        r@ == fallback_reply(
            *thread,
            messages@,
            jobs@,
            note_memory::related_views(related_notes@),
            draft_payload::opt_draft_ref(execution_draft),
        ),
{
    let latest_user = match last_user_index(messages) {
        Some(i) => scan::trim_text(messages[i].content.as_str()),
        None => empty_text(),
    };
    if looks_like_execution_request(latest_user.as_str()) {
        let remark = if jobs.len() > 0 {
            " The most recent job in this thread targeted repo `".to_string().concat(
                jobs[0].repo_name.as_str(),
            ).concat("`.")
        } else {
            empty_text()
        };
        return match execution_draft {
            Some(draft) => {
                let repo = repo_or_unspecified(draft);
                "I'm still in conversational mode for thread `".to_string().concat(
                    thread.title.as_str(),
                ).concat("`. I prepared a draft for repo `").concat(repo.as_str()).concat(
                    "` on base branch `",
                ).concat(draft.base_branch.as_str()).concat(
                    "` below so you can refine it before you dispatch anything.",
                ).concat(remark.as_str())
            },
            None => "I'm in conversational mode for thread `".to_string().concat(
                thread.title.as_str(),
            ).concat(
                "` right now, so I have not created a laptop job yet. I can help refine the request or you can use the explicit dispatch controls when you're ready.",
            ).concat(remark.as_str()),
        };
    }
    if let Some(draft) = execution_draft {
        let repo = repo_or_unspecified(draft);
        return "I'm still in conversational mode, and I prepared an execution draft for repo `".to_string().concat(
            repo.as_str(),
        ).concat("` on base branch `").concat(draft.base_branch.as_str()).concat(
            "` from the latest request. You can keep refining it here before explicitly dispatching it.",
        );
    }
    if jobs.len() > 0 {
        let job = &jobs[0];
        let remark = match &job.result {
            Some(result) => ", with result `".to_string().concat(result.as_str()).concat("`"),
            None => empty_text(),
        };
        return "I'm here in conversational mode. The latest job in this thread is `".to_string().concat(
            job.short_id.as_str(),
        ).concat("` for repo `").concat(job.repo_name.as_str()).concat("`, currently `").concat(
            job.status.as_str(),
        ).concat("`").concat(remark.as_str()).concat(
            ".\n\nI can help you reason about the next step, summarize what happened, or prepare an explicit handoff into laptop execution when you want it.",
        );
    }
    if related_notes.len() > 0 {
        let note = &related_notes[0].note;
        assert(note_memory::related_views(related_notes@)[0].note == note@);
        let summary = summarize_text(note.summary.as_str(), 160);
        return "I'm here in conversational mode. I can answer questions about this thread, help plan work, or prepare an explicit laptop dispatch when needed.\n\nThe closest related note I found is `".to_string().concat(
            note.title.as_str(),
        ).concat("`: ").concat(summary.as_str());
    }
    "I'm here in conversational mode. Ask me questions, work through a plan with me, or use the explicit dispatch controls when you want me to create a real laptop job.".to_string()
}

/// The reply of the assistant service where it gave one, else the one that
/// needs no service.
pub fn generate_conversational_reply(
    assistant_reply: Option<String>,
    thread: &ThreadRecord,
    messages: &[MessageRecord],
    jobs: &[JobRecord],
    related_notes: &[RelatedNoteContext],
    execution_draft: Option<&ExecutionDraft>,
) -> (r: String)
    ensures
        r@ == match assistant_reply {
            Some(reply) => reply@,
            None => fallback_reply(
                *thread,
                messages@,
                jobs@,
                note_memory::related_views(related_notes@),
                draft_payload::opt_draft_ref(execution_draft),
            ),
        },
{
    match assistant_reply {
        Some(reply) => reply,
        None => build_fallback_conversational_reply(
            thread,
            messages,
            jobs,
            related_notes,
            execution_draft,
        ),
    }
}

/// The reply that goes with a draft: trimmed, and never empty.
pub fn maybe_annotate_draft_reply(reply: String, execution_draft: Option<&ExecutionDraft>) -> (r:
    String)
    ensures
        r@ == if execution_draft is None {
            reply@
        } else if text::is_blank(reply@) {
            "I prepared an execution draft below so you can keep refining it before dispatch."@
        } else {
            text::trim(reply@)
        },
{
    match execution_draft {
        None => reply,
        Some(_) => {
            let trimmed = scan::trim_text(reply.as_str());
            if chars_of(trimmed.as_str()).len() == 0 {
                "I prepared an execution draft below so you can keep refining it before dispatch.".to_string()
            } else {
                trimmed
            }
        },
    }
}

} // verus!
