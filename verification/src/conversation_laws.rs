//! What conversations promise: what the assistant is told, how its answer is
//! read, and what is said where there is none.

use crate::conversation;
use crate::conversation::ConversationJobContext;
use crate::draft_payload;
use crate::drafts;
use crate::json;
use crate::json::{Json, JsonView};
use crate::models::{
    ApprovalRecord, ExecutionDraft, JobRecord, MessageRecord, RelatedNoteContext, RelatedNoteView,
    ThreadRecord,
};
use crate::note_memory;
use crate::text;
use crate::text_laws;
use crate::text_lemmas;
use vstd::prelude::*;

verus! {

// ---------------------------------------------------------------------------
// Parts of a text
// ---------------------------------------------------------------------------

/// A joined text holds every one of its parts.
#[verifier::rlimit(60)]
pub proof fn law_joined_text_holds_parts(parts: text::Texts, sep: Seq<char>, k: int)
    requires
        0 <= k < parts.len(),
    ensures
        text::contains(text::join(parts, sep), parts[k]),
    decreases parts.len(),
{
    let front = parts.drop_last();
    let last = parts[parts.len() - 1];
    assert(parts =~= front.push(last));
    text_lemmas::lemma_join_push(front, last, sep);
    if k < front.len() {
        assert(front[k] == parts[k]);
        law_joined_text_holds_parts(front, sep, k);
        lemma_still_holds(Seq::empty(), text::join(front, sep), sep + last, parts[k]);
        assert(Seq::<char>::empty() + text::join(front, sep) + (sep + last) =~= text::join(
            front,
            sep,
        ) + sep + last);
    } else if front.len() > 0 {
        text_laws::law_contains(text::join(front, sep) + sep, last, Seq::empty());
        assert(text::join(front, sep) + sep + last + Seq::empty() =~= text::join(front, sep) + sep
            + last);
    } else {
        text_laws::law_contains(Seq::empty(), last, Seq::empty());
        assert(Seq::<char>::empty() + last + Seq::<char>::empty() =~= last);
    }
}

proof fn lemma_still_holds(a: Seq<char>, s: Seq<char>, b: Seq<char>, p: Seq<char>)
    requires
        text::contains(s, p),
    ensures
        text::contains(a + s + b, p),
{
    let i = choose|i: int| #[trigger] text::occurs_at(s, p, i);
    let whole = a + s + b;
    let j = a.len() + i;
    assert(whole.subrange(j, (j + p.len()) as int) =~= s.subrange(i, (i + p.len()) as int));
    assert(text::occurs_at(whole, p, j));
}

// ---------------------------------------------------------------------------
// Messages
// ---------------------------------------------------------------------------

/// Each kind of message is shown under a mode of its own. A reply counts as a
/// draft where it holds one.
#[verifier::rlimit(60)]
pub proof fn law_message_modes(message: MessageRecord, mode: &'static str)
    requires
        call_ensures(conversation::format_message_mode_label, (&message,), mode),
    ensures
        message.status@ == "conversation.reply"@ && draft_payload::message_draft(message) is Some
            ==> mode@ == "conversation-draft"@,
        message.status@ == "conversation.reply"@ && draft_payload::message_draft(message) is None
            ==> mode@ == "conversation"@,
        message.status@ == "workflow.handoff.created"@ ==> mode@ == "handoff"@,
        message.status@ == "workflow.dispatch.created"@ ==> mode@ == "dispatch"@,
        text::starts_with(message.status@, "job_event:"@) ==> mode@ == "job-update"@,
        message.status@ != "conversation.reply"@ && message.status@ != "workflow.handoff.created"@
            && message.status@ != "workflow.dispatch.created"@ && !text::starts_with(
            message.status@,
            "job_event:"@,
        ) ==> mode@ == "message"@,
{
    reveal_strlit("conversation.reply");
    reveal_strlit("workflow.handoff.created");
    reveal_strlit("workflow.dispatch.created");
    reveal_strlit("job_event:");
    assert("conversation.reply"@.len() == 18);
    assert("workflow.handoff.created"@.len() == 24);
    assert("workflow.dispatch.created"@.len() == 25);
    if text::starts_with(message.status@, "job_event:"@) {
        let lead = message.status@.take("job_event:"@.len() as int);
        assert(lead[0] == message.status@[0]);
        assert("job_event:"@[0] == 'j');
        assert("conversation.reply"@[0] == 'c');
        assert("workflow.handoff.created"@[0] == 'w');
        assert("workflow.dispatch.created"@[0] == 'w');
    }
}

/// The assistant sees the latest messages, as many as the limit allows, in the
/// order in which they were written.
pub proof fn law_latest_messages_are_shown(
    messages: &[MessageRecord],
    limit: usize,
    r: String,
    k: int,
)
    requires
        call_ensures(conversation::format_message_context, (messages, limit), r),
    ensures
        messages@.len() == 0 ==> r@ == "- none"@,
        messages@.len() > 0 ==> r@ == text::join(
            messages@.skip(
                if messages@.len() > limit {
                    messages@.len() - limit
                } else {
                    0
                },
            ).map_values(|m: MessageRecord| conversation::message_line(m)),
            "\n"@,
        ),
        0 <= k < messages@.len() && messages@.len() - limit <= k ==> text::contains(
            r@,
            conversation::message_line(messages@[k]),
        ),
{
    let from: int = if messages@.len() > limit {
        messages@.len() - limit
    } else {
        0
    };
    let shown = messages@.skip(from).map_values(
        |m: MessageRecord| conversation::message_line(m),
    );
    assert(conversation::message_lines(messages@, limit as nat) =~= shown);
    if 0 <= k < messages@.len() && messages@.len() - limit <= k {
        assert(shown[k - from] == conversation::message_line(messages@[k]));
        law_joined_text_holds_parts(shown, "\n"@, k - from);
    }
}

/// A shown message says who wrote it and how it begins.
pub proof fn law_shown_message(message: MessageRecord)
    ensures
        text::starts_with(conversation::message_line(message), "- ["@ + message.role@ + " | "@),
        text::ends_with(
            conversation::message_line(message),
            text::prefix(text::trim(message.content@), 280),
        ),
{
    let lead = "- ["@ + message.role@ + " | "@;
    let line = conversation::message_line(message);
    assert(line.take(lead.len() as int) =~= lead);
    text_laws::law_contains(
        lead + conversation::message_mode(message) + "] "@,
        text::prefix(text::trim(message.content@), 280),
        Seq::empty(),
    );
}

/// A summary is the beginning of the trimmed text.
pub proof fn law_summary(value: &str, limit: usize, r: String)
    requires
        call_ensures(conversation::summarize_text, (value, limit), r),
    ensures
        r@.len() <= limit,
        text::starts_with(text::trim(value@), r@),
        text::trim(value@).len() <= limit ==> r@ == text::trim(value@),
{
    text_laws::law_prefix(text::trim(value@), limit as nat);
}

// ---------------------------------------------------------------------------
// Drafts and jobs
// ---------------------------------------------------------------------------

/// A draft is shown with everything that it decides.
#[verifier::rlimit(60)]
pub proof fn law_shown_draft(draft: ExecutionDraft, r: String, none: String)
    requires
        call_ensures(conversation::format_execution_draft_context, (Some(&draft),), r),
        call_ensures(conversation::format_execution_draft_context, (None,), none),
    ensures
        none@ == "- none"@,
        text::starts_with(
            r@,
            "- title `"@ + draft.title@ + "`; repo `"@ + (match draft.repo_name {
                Some(name) => name@,
                None => "unspecified"@,
            }) + "`; branch `"@ + draft.base_branch@ + "`; intent `"@
                + draft.execution_intent.name() + "`; request "@ + text::prefix(
                text::trim(draft.request_text@),
                220,
            ),
        ),
        text::ends_with(
            r@,
            "; rationale "@ + text::prefix(text::trim(draft.rationale@), 160),
        ),
{
    let repo = match draft.repo_name {
        Some(name) => name@,
        None => "unspecified"@,
    };
    let lead = "- title `"@ + draft.title@ + "`; repo `"@ + repo + "`; branch `"@
        + draft.base_branch@ + "`; intent `"@ + draft.execution_intent.name() + "`; request "@
        + text::prefix(text::trim(draft.request_text@), 220);
    let why = text::prefix(text::trim(draft.rationale@), 160);
    assert(r@ == lead + "; rationale "@ + why);
    assert(r@ =~= lead + ("; rationale "@ + why));
    text_laws::law_contains(lead, "; rationale "@ + why, Seq::empty());
    assert(r@.take(lead.len() as int) =~= lead);
}

/// The first approval that is pending counts.
pub proof fn law_pending_approval(approvals: &[ApprovalRecord], r: Option<usize>, k: int)
    requires
        call_ensures(conversation::pending_approval_index, (approvals,), r),
    ensures
        r matches Some(i) ==> i < approvals@.len() && approvals@[i as int].status@ == "pending"@,
        0 <= k < approvals@.len() && approvals@[k].status@ == "pending"@ ==> (r matches Some(i)
            && i <= k),
{
    lemma_first_pending(approvals@);
}

proof fn lemma_first_pending(approvals: Seq<ApprovalRecord>)
    ensures
        match conversation::first_pending(approvals) {
            Some(i) => 0 <= i < approvals.len() && approvals[i].status@ == "pending"@ && forall|
                j: int,
            |
                0 <= j < i ==> (#[trigger] approvals[j]).status@ != "pending"@,
            None => forall|j: int|
                0 <= j < approvals.len() ==> (#[trigger] approvals[j]).status@ != "pending"@,
        },
    decreases approvals.len(),
{
    if approvals.len() > 0 {
        let front = approvals.drop_last();
        lemma_first_pending(front);
        assert(approvals.last() == approvals[approvals.len() - 1]);
        assert forall|j: int| 0 <= j < front.len() implies #[trigger] approvals[j]
            == front[j] by {}
    }
}

/// A job is shown with its repository and status, and with its result, branch,
/// summary and pending approval where it has them.
#[verifier::rlimit(60)]
pub proof fn law_shown_jobs(entries: &[ConversationJobContext], r: String, k: int)
    requires
        call_ensures(conversation::format_job_context, (entries,), r),
    ensures
        entries@.len() == 0 ==> r@ == "- none"@,
        0 <= k < entries@.len() ==> {
            let e = entries@[k];
            &&& text::contains(
                r@,
                "- [Job "@ + e.job.short_id@ + "] repo `"@ + e.job.repo_name@ + "` is `"@
                    + e.job.status@ + "`"@,
            )
            &&& e.job.result matches Some(x) ==> text::contains(r@, "result"@ + " `"@ + x@ + "`"@)
            &&& e.job.branch_name matches Some(x) ==> text::contains(
                r@,
                "branch"@ + " `"@ + x@ + "`"@,
            )
            &&& e.summary matches Some(s) ==> text::contains(
                r@,
                "summary "@ + text::prefix(text::trim(s.content@), 160),
            )
            &&& e.pending_approval matches Some(a) ==> text::contains(
                r@,
                "pending approval "@ + text::prefix(text::trim(a.summary@), 120),
            )
        },
{
    if 0 <= k < entries@.len() {
        let e = entries@[k];
        let lines = conversation::job_lines(entries@);
        let parts = conversation::job_parts(e);
        assert(lines[k] == text::join(parts, ", "@));
        assert forall|x: Seq<char>| #[trigger] parts.contains(x) implies text::contains(r@, x) by {
            lemma_part_of_line(lines, k, parts, x);
        }
        lemma_job_parts(e);
    }
}

#[verifier::rlimit(60)]
proof fn lemma_part_of_line(lines: text::Texts, k: int, parts: text::Texts, x: Seq<char>)
    requires
        0 <= k < lines.len(),
        lines[k] == text::join(parts, ", "@),
        parts.contains(x),
    ensures
        text::contains(text::join(lines, "\n"@), x),
{
    let whole = text::join(lines, "\n"@);
    let line = lines[k];
    let i = choose|i: int| 0 <= i < parts.len() && parts[i] == x;
    law_joined_text_holds_parts(parts, ", "@, i);
    law_joined_text_holds_parts(lines, "\n"@, k);
    let j = choose|j: int| #[trigger] text::occurs_at(whole, line, j);
    let a = whole.take(j);
    let b = whole.skip((j + line.len()) as int);
    assert(whole.subrange(j, (j + line.len()) as int) == line);
    assert(whole =~= a + line + b);
    lemma_still_holds(a, line, b, x);
}

#[verifier::rlimit(60)]
proof fn lemma_job_parts(e: ConversationJobContext)
    ensures
        ({
            let parts = conversation::job_parts(e);
            &&& parts.contains(
                "- [Job "@ + e.job.short_id@ + "] repo `"@ + e.job.repo_name@ + "` is `"@
                    + e.job.status@ + "`"@,
            )
            &&& e.job.result matches Some(x) ==> parts.contains("result"@ + " `"@ + x@ + "`"@)
            &&& e.job.branch_name matches Some(x) ==> parts.contains(
                "branch"@ + " `"@ + x@ + "`"@,
            )
            &&& e.summary matches Some(s) ==> parts.contains(
                "summary "@ + text::prefix(text::trim(s.content@), 160),
            )
            &&& e.pending_approval matches Some(a) ==> parts.contains(
                "pending approval "@ + text::prefix(text::trim(a.summary@), 120),
            )
        }),
{
    let parts = conversation::job_parts(e);
    let p1 = seq![
        "- [Job "@ + e.job.short_id@ + "] repo `"@ + e.job.repo_name@ + "` is `"@ + e.job.status@
            + "`"@,
    ];
    let p2 = text::with_line(p1, conversation::quoted("result"@, text::opt(e.job.result)));
    let p3 = text::with_line(p2, conversation::quoted("branch"@, text::opt(e.job.branch_name)));
    let p4 = text::with_line(
        p3,
        match e.summary {
            Some(s) => Some("summary "@ + conversation::summarized(s.content@, 160)),
            None => None,
        },
    );
    assert(parts[0] == p1[0]);
    if e.job.result is Some {
        assert(parts[p1.len() as int] == p2.last());
    }
    if e.job.branch_name is Some {
        assert(parts[p2.len() as int] == p3.last());
    }
    if e.summary is Some {
        assert(parts[p3.len() as int] == p4.last());
    }
    if e.pending_approval is Some {
        assert(parts[p4.len() as int] == parts.last());
    }
}

/// The first notes are shown, as many as the limit allows, each with its title,
/// its role and where it comes from.
#[verifier::rlimit(60)]
pub proof fn law_shown_notes(
    related: Seq<RelatedNoteView>,
    limit: nat,
    note: RelatedNoteView,
    updated: Seq<char>,
)
    ensures
        conversation::note_lines(related, limit).len() == if related.len() < limit {
            related.len()
        } else {
            limit
        },
        forall|i: int|
            0 <= i < conversation::note_lines(related, limit).len()
                ==> #[trigger] conversation::note_lines(related, limit)[i]
                == conversation::note_line(related[i]),
        text::starts_with(
            conversation::note_entry(note, updated),
            "- [Note "@ + note.note.title + "] role `"@ + note.memory_role + "` source `"@
                + note.source_label + "` kind `"@,
        ),
        note.detail_excerpt matches Some(e) ==> text::ends_with(
            conversation::note_entry(note, updated),
            " | excerpt "@ + text::prefix(text::trim(e), 180),
        ),
        note.detail_excerpt is None ==> text::ends_with(
            conversation::note_entry(note, updated),
            text::prefix(text::trim(note.note.summary), 200),
        ),
        text::contains(
            conversation::note_entry(note, updated),
            text::prefix(text::trim(note.note.summary), 200),
        ),
{
    let lead = "- [Note "@ + note.note.title + "] role `"@ + note.memory_role + "` source `"@
        + note.source_label + "` kind `"@;
    let entry = conversation::note_entry(note, updated);
    assert(entry.take(lead.len() as int) =~= lead);
    let head = "- [Note "@ + note.note.title + "] role `"@ + note.memory_role + "` source `"@
        + note.source_label + "` kind `"@ + text::or_value(note.note.source_kind, "general"@)
        + "` score `"@ + note.note.relevance.label + "` reasons ["@ + conversation::reasons_text(
        note.note.match_reasons,
    ) + "] updated `"@ + updated + "`: "@;
    let summary = text::prefix(text::trim(note.note.summary), 200);
    let end = match note.detail_excerpt {
        Some(e) => " | excerpt "@ + text::prefix(text::trim(e), 180),
        None => Seq::<char>::empty(),
    };
    assert(entry == head + summary + end);
    text_laws::law_contains(head, summary, end);
    text_laws::law_contains(head + summary, end, Seq::empty());
    if note.detail_excerpt is None {
        assert(entry =~= head + summary);
        text_laws::law_contains(head, summary, Seq::empty());
    }
}

// ---------------------------------------------------------------------------
// What the assistant is told
// ---------------------------------------------------------------------------

/// The assistant is told the thread, what the user said last, the recent
/// messages, the draft, the jobs and the notes, in this order.
#[verifier::rlimit(60)]
pub proof fn law_conversation_input(
    thread: ThreadRecord,
    messages: &[MessageRecord],
    jobs: &[ConversationJobContext],
    note_text: &str,
    draft: Option<&ExecutionDraft>,
    r: String,
    message_text: String,
    draft_text: String,
    job_text: String,
)
    requires
        call_ensures(
            conversation::conversation_input_with,
            (&thread, messages, jobs, note_text, draft),
            r,
        ),
        call_ensures(conversation::format_message_context, (messages, 10), message_text),
        call_ensures(conversation::format_execution_draft_context, (draft,), draft_text),
        call_ensures(conversation::format_job_context, (jobs,), job_text),
    ensures
        r@ == "Thread title: "@ + thread.title@ + "\nThread status: "@ + thread.status@
            + "\n\nLatest user message:\n"@ + (match drafts::last_user(messages@) {
            Some(message) => text::prefix(text::trim(message.content@), 600),
            None => Seq::<char>::empty(),
        }) + "\n\nRecent thread messages:\n"@ + message_text@ + "\n\nCurrent execution draft:\n"@
            + draft_text@ + "\n\nRecent related jobs:\n"@ + job_text@ + "\n\nRelated notes:\n"@
            + note_text@ + "\n"@,
{
}

/// A request to the assistant names the model and holds the input.
pub proof fn law_assistant_request(model: &str, input: &str, r: Json, instructions: &'static str)
    requires
        call_ensures(conversation::assistant_request, (model, input), r),
        call_ensures(conversation::build_conversation_instructions, (), instructions),
    ensures
        r.model().field_text("model"@) == Some(model@),
        r.model().field_text("input"@) == Some(input@),
        r.model().field_text("instructions"@) == Some(instructions@),
        r.model().field("max_output_tokens"@) == Some(JsonView::Number("600"@)),
{
    reveal_with_fuel(json::lookup, 6);
    reveal_strlit("model");
    reveal_strlit("instructions");
    reveal_strlit("input");
    reveal_strlit("max_output_tokens");
    assert("model"@.len() == 5);
    assert("instructions"@.len() == 12);
    assert("input"@.len() == 5);
    assert("model"@[0] != "input"@[0]);
    assert("max_output_tokens"@.len() == 17);
}

// ---------------------------------------------------------------------------
// What the assistant says
// ---------------------------------------------------------------------------

/// The text of an answer is its output text where that is not blank; otherwise
/// the texts of its outputs, one to a line.
pub proof fn law_answer_text(answer: Json, r: Option<String>, outputs: Seq<JsonView>)
    requires
        call_ensures(conversation::extract_response_text, (&answer,), r),
    ensures
        answer.model().field_text("output_text"@) is Some && !text::is_blank(
            answer.model().field_text("output_text"@).unwrap(),
        ) ==> text::opt(r) == Some(
            text::trim(answer.model().field_text("output_text"@).unwrap()),
        ),
        (answer.model().field_text("output_text"@) is None || text::is_blank(
            answer.model().field_text("output_text"@).unwrap(),
        )) && answer.model().field("output"@) == Some(JsonView::Array(outputs)) ==> text::opt(r)
            == text::present(Some(text::join(conversation::output_texts(outputs), "\n"@))),
        (answer.model().field_text("output_text"@) is None || text::is_blank(
            answer.model().field_text("output_text"@).unwrap(),
        )) && !(answer.model().field("output"@) matches Some(JsonView::Array(_))) ==> r is None,
{
    text_laws::law_trimmed(Seq::empty());
    assert(text::join(seq![], "\n"@) =~= Seq::<char>::empty());
}

/// The texts of an answer stand in its order; what is blank or no text is left
/// out.
#[verifier::rlimit(60)]
pub proof fn law_answer_parts(
    a: Seq<JsonView>,
    b: Seq<JsonView>,
    part: JsonView,
    output: JsonView,
    parts: Seq<JsonView>,
)
    ensures
        conversation::part_texts(a + b) == conversation::part_texts(a) + conversation::part_texts(
            b,
        ),
        conversation::output_texts(a + b) == conversation::output_texts(a)
            + conversation::output_texts(b),
        part.field_text("text"@) is Some && !text::is_blank(part.field_text("text"@).unwrap())
            ==> conversation::part_texts(seq![part]) == seq![
            text::trim(part.field_text("text"@).unwrap()),
        ],
        part.field_text("text"@) is None || text::is_blank(part.field_text("text"@).unwrap())
            ==> conversation::part_texts(seq![part]) == text::Texts::empty(),
        output.field("content"@) == Some(JsonView::Array(parts)) ==> conversation::output_texts(
            seq![output],
        ) == conversation::part_texts(parts),
    decreases b.len(),
{
    if b.len() == 0 {
        assert(a + b =~= a);
        assert(conversation::part_texts(a) + conversation::part_texts(b)
            =~= conversation::part_texts(a));
        assert(conversation::output_texts(a) + conversation::output_texts(b)
            =~= conversation::output_texts(a));
    } else {
        law_answer_parts(a, b.drop_last(), part, output, parts);
        assert((a + b).drop_last() =~= a + b.drop_last());
        assert(conversation::part_texts(a + b) =~= conversation::part_texts(a)
            + conversation::part_texts(b));
        assert(conversation::output_texts(a + b) =~= conversation::output_texts(a)
            + conversation::output_texts(b));
    }
    assert(seq![part].drop_last() =~= Seq::<JsonView>::empty());
    assert(seq![output].drop_last() =~= Seq::<JsonView>::empty());
    assert(conversation::part_texts(Seq::empty()) =~= text::Texts::empty());
    assert(conversation::output_texts(Seq::empty()) =~= text::Texts::empty());
    if part.field_text("text"@) is Some && !text::is_blank(part.field_text("text"@).unwrap()) {
        assert(conversation::part_texts(seq![part]) =~= seq![
            text::trim(part.field_text("text"@).unwrap()),
        ]);
    }
    if output.field("content"@) == Some(JsonView::Array(parts)) {
        assert(conversation::output_texts(seq![output]) =~= conversation::part_texts(parts));
    }
}

/// What the assistant said is the reply as it stands.
pub proof fn law_assistant_is_heard(
    reply: String,
    thread: ThreadRecord,
    messages: &[MessageRecord],
    jobs: &[JobRecord],
    related: &[RelatedNoteContext],
    draft: Option<&ExecutionDraft>,
    r: String,
    alone: String,
    fallback: String,
)
    requires
        call_ensures(
            conversation::generate_conversational_reply,
            (Some(reply), &thread, messages, jobs, related, draft),
            r,
        ),
        call_ensures(
            conversation::generate_conversational_reply,
            (None, &thread, messages, jobs, related, draft),
            alone,
        ),
        call_ensures(
            conversation::build_fallback_conversational_reply,
            (&thread, messages, jobs, related, draft),
            fallback,
        ),
    ensures
        r@ == reply@,
        alone@ == fallback@,
{
}

/// Without the assistant, a draft is announced with its repository and branch. A
/// request for work without a draft is told that no job was made. Otherwise the
/// latest job is named, or the closest note.
#[verifier::rlimit(60)]
pub proof fn law_fallback_reply(
    thread: ThreadRecord,
    messages: &[MessageRecord],
    jobs: &[JobRecord],
    related: &[RelatedNoteContext],
    draft: Option<&ExecutionDraft>,
    r: String,
)
    requires
        call_ensures(
            conversation::build_fallback_conversational_reply,
            (&thread, messages, jobs, related, draft),
            r,
        ),
    ensures
        draft matches Some(d) ==> text::contains(
            r@,
            "` on base branch `"@ + d.base_branch@ + "`"@,
        ) && (d.repo_name matches Some(name) ==> text::contains(r@, "for repo `"@ + name@ + "`"@)),
        draft is None && drafts::last_user(messages@) is Some && drafts::asks_for_execution(
            text::trim(drafts::last_user(messages@).unwrap().content@),
        ) ==> text::contains(r@, "` right now, so I have not created a laptop job yet."@)
            && text::contains(r@, thread.title@),
        draft is None && (drafts::last_user(messages@) matches Some(m)
            ==> !drafts::asks_for_execution(text::trim(m.content@))) && (drafts::last_user(
            messages@,
        ) is None ==> !drafts::asks_for_execution(Seq::empty())) ==> {
            &&& jobs@.len() > 0 ==> text::contains(
                r@,
                "The latest job in this thread is `"@ + jobs@[0].short_id@ + "` for repo `"@
                    + jobs@[0].repo_name@ + "`, currently `"@ + jobs@[0].status@ + "`"@,
            )
            &&& jobs@.len() == 0 && related@.len() > 0 ==> text::contains(
                r@,
                "The closest related note I found is `"@ + related@[0].note.title@ + "`: "@
                    + text::prefix(text::trim(related@[0].note.summary@), 160),
            )
        },
{
    let q = "`"@;
    reveal_strlit("`");
    if let Some(d) = draft {
        let repo = conversation::draft_repo(d@);
        reveal_strlit("` on base branch `");
        reveal_strlit("for repo `");
        if drafts::asks_for_execution(conversation::latest_request(messages@)) {
            let tail = "` below so you can refine it before you dispatch anything."@;
            reveal_strlit("`. I prepared a draft for repo `");
            reveal_strlit("` below so you can refine it before you dispatch anything.");
            lemma_ends_in("`. I prepared a draft for repo `"@, "for repo `"@, 22);
            let lead = "I'm still in conversational mode for thread `"@ + thread.title@;
            lemma_announced(
                lead,
                "`. I prepared a draft for repo `"@,
                22,
                repo,
                d.base_branch@,
                tail,
                conversation::job_remark(jobs@),
            );
            assert(r@ =~= lead + "`. I prepared a draft for repo `"@ + repo + "` on base branch `"@
                + d.base_branch@ + tail + conversation::job_remark(jobs@));
        } else {
            let head =
                "I'm still in conversational mode, and I prepared an execution draft for repo `"@;
            let tail =
                "` from the latest request. You can keep refining it here before explicitly dispatching it."@;
            reveal_strlit(
                "I'm still in conversational mode, and I prepared an execution draft for repo `",
            );
            reveal_strlit(
                "` from the latest request. You can keep refining it here before explicitly dispatching it.",
            );
            let n = (head.len() - 10) as int;
            lemma_ends_in(head, "for repo `"@, n);
            lemma_announced(Seq::empty(), head, n, repo, d.base_branch@, tail, Seq::empty());
            assert(r@ =~= Seq::<char>::empty() + head + repo + "` on base branch `"@
                + d.base_branch@ + tail + Seq::<char>::empty());
        }
    } else if drafts::asks_for_execution(conversation::latest_request(messages@)) {
        let a = "I'm in conversational mode for thread `"@;
        let b =
            "` right now, so I have not created a laptop job yet. I can help refine the request or you can use the explicit dispatch controls when you're ready."@;
        let said = "` right now, so I have not created a laptop job yet."@;
        let more = conversation::job_remark(jobs@);
        reveal_strlit(
            "` right now, so I have not created a laptop job yet. I can help refine the request or you can use the explicit dispatch controls when you're ready.",
        );
        reveal_strlit("` right now, so I have not created a laptop job yet.");
        assert(b.take(said.len() as int) =~= said);
        let rest = b.skip(said.len() as int);
        assert(r@ =~= (a + thread.title@) + said + (rest + more)) by {
            assert(b =~= said + rest);
        }
        text_laws::law_contains(a + thread.title@, said, rest + more);
        assert(r@ =~= a + thread.title@ + (b + more));
        text_laws::law_contains(a, thread.title@, b + more);
    } else if jobs@.len() > 0 {
        let a = "I'm here in conversational mode. The latest job in this thread is `"@;
        let lead = "I'm here in conversational mode. "@;
        let said = "The latest job in this thread is `"@;
        reveal_strlit("I'm here in conversational mode. The latest job in this thread is `");
        reveal_strlit("I'm here in conversational mode. ");
        reveal_strlit("The latest job in this thread is `");
        assert(a =~= lead + said);
        let named = said + jobs@[0].short_id@ + "` for repo `"@ + jobs@[0].repo_name@
            + "`, currently `"@ + jobs@[0].status@ + q;
        let rest = conversation::result_remark(jobs@[0])
            + ".\n\nI can help you reason about the next step, summarize what happened, or prepare an explicit handoff into laptop execution when you want it."@;
        assert(r@ =~= lead + named + rest);
        text_laws::law_contains(lead, named, rest);
    } else if related@.len() > 0 {
        let views = note_memory::related_views(related@);
        assert(views[0] == related@[0]@);
        let a =
            "I'm here in conversational mode. I can answer questions about this thread, help plan work, or prepare an explicit laptop dispatch when needed.\n\nThe closest related note I found is `"@;
        let said = "The closest related note I found is `"@;
        reveal_strlit(
            "I'm here in conversational mode. I can answer questions about this thread, help plan work, or prepare an explicit laptop dispatch when needed.\n\nThe closest related note I found is `",
        );
        reveal_strlit("The closest related note I found is `");
        let n = (a.len() - said.len()) as int;
        assert(a.skip(n) =~= said);
        let lead = a.take(n);
        assert(a =~= lead + said);
        let named = said + related@[0].note.title@ + "`: "@ + text::prefix(
            text::trim(related@[0].note.summary@),
            160,
        );
        assert(r@ =~= lead + named + Seq::<char>::empty());
        text_laws::law_contains(lead, named, Seq::empty());
    }
}

proof fn lemma_ends_in(s: Seq<char>, end: Seq<char>, n: int)
    requires
        0 <= n,
        n + end.len() == s.len(),
        forall|i: int| 0 <= i < end.len() ==> #[trigger] end[i] == s[n + i],
    ensures
        s == s.take(n) + end,
{
    assert(s =~= s.take(n) + end);
}

#[verifier::rlimit(60)]
proof fn lemma_announced(
    lead: Seq<char>,
    head: Seq<char>,
    n: int,
    repo: Seq<char>,
    branch: Seq<char>,
    tail: Seq<char>,
    rest: Seq<char>,
)
    requires
        0 <= n <= head.len(),
        head == head.take(n) + "for repo `"@,
        tail.len() > 0,
        tail[0] == '`',
    ensures
        text::contains(
            lead + head + repo + "` on base branch `"@ + branch + tail + rest,
            "for repo `"@ + repo + "`"@,
        ),
        text::contains(
            lead + head + repo + "` on base branch `"@ + branch + tail + rest,
            "` on base branch `"@ + branch + "`"@,
        ),
{
    let whole = lead + head + repo + "` on base branch `"@ + branch + tail + rest;
    let q = "`"@;
    reveal_strlit("`");
    reveal_strlit("` on base branch `");
    let on = "` on base branch `"@;
    assert(on.take(1) =~= q);
    assert(tail.take(1) =~= q);
    let named = "for repo `"@ + repo + q;
    assert(whole =~= (lead + head.take(n)) + named + (on.skip(1) + branch + tail + rest)) by {
        assert(on =~= q + on.skip(1));
    }
    text_laws::law_contains(lead + head.take(n), named, on.skip(1) + branch + tail + rest);
    let placed = on + branch + q;
    assert(whole =~= (lead + head + repo) + placed + (tail.skip(1) + rest)) by {
        assert(tail =~= q + tail.skip(1));
    }
    text_laws::law_contains(lead + head + repo, placed, tail.skip(1) + rest);
}

/// A reply without a draft stays as it is. With one it is trimmed, and a blank
/// reply is replaced by a word on the draft.
pub proof fn law_annotated_reply(reply: String, draft: Option<&ExecutionDraft>, r: String)
    requires
        call_ensures(conversation::maybe_annotate_draft_reply, (reply, draft), r),
    ensures
        draft is None ==> r@ == reply@,
        draft is Some && !text::is_blank(reply@) ==> r@ == text::trim(reply@),
        draft is Some && text::is_blank(reply@) ==> r@
            == "I prepared an execution draft below so you can keep refining it before dispatch."@,
{
}

/// The assistant is asked below the address that is configured, and is told of at
/// most four notes.
pub proof fn law_assistant_is_asked(
    base: &str,
    url: String,
    thread: ThreadRecord,
    messages: &[MessageRecord],
    jobs: &[ConversationJobContext],
    related: &[RelatedNoteContext],
    draft: Option<&ExecutionDraft>,
    input: String,
    notes: String,
    note_text: &str,
    same: String,
)
    requires
        call_ensures(conversation::assistant_url, (base,), url),
        call_ensures(
            conversation::build_conversation_input,
            (&thread, messages, jobs, related, draft),
            input,
        ),
        call_ensures(conversation::format_note_context, (related, 4), notes),
        note_text@ == notes@,
        call_ensures(
            conversation::conversation_input_with,
            (&thread, messages, jobs, note_text, draft),
            same,
        ),
    ensures
        url@ == base@ + "/responses"@,
        input@ == same@,
{
    assert(note_memory::related_views(related@).len() == related@.len());
}

/// Where there are no notes that is said; otherwise each note has a line, the
/// first ones first.
pub proof fn law_note_context(related: &[RelatedNoteContext], limit: usize, r: String, k: int)
    requires
        call_ensures(conversation::format_note_context, (related, limit), r),
    ensures
        related@.len() == 0 ==> r@ == "- none"@,
        0 <= k < related@.len() && k < limit ==> text::contains(
            r@,
            conversation::note_line(related@[k]@),
        ),
{
    let views = note_memory::related_views(related@);
    if 0 <= k < related@.len() && k < limit {
        let lines = conversation::note_lines(views, limit as nat);
        assert(views[k] == related@[k]@);
        assert(lines[k] == conversation::note_line(related@[k]@));
        law_joined_text_holds_parts(lines, "\n"@, k);
    }
}

} // verus!
