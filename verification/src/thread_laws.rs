//! What threads promise: which messages are taken, what becomes of a message that
//! is handed off, what a promoted note says, and who is told of a change.

use crate::auth::SessionActor;
use crate::dispatch::CreateJobRequest;
use crate::draft_payload;
use crate::drafts;
use crate::error::AppError;
use crate::json;
use crate::models::{DraftView, JobRecord, MessageRecord, NoteRecord, SummaryRecord};
use crate::notes::SearchNotesRequest;
use crate::promotion;
use crate::promotion::{PromoteJobNoteRequest, PromoteNoteRequest};
use crate::text;
use crate::threads;
use crate::threads::{CreateChatDispatchRequest, DispatchThreadMessageRequest};
use crate::time;
use crate::time::Timestamp;
use crate::titles;
use crate::ui_events;
use crate::ui_events::UiEvent;
use vstd::prelude::*;

verus! {

// ---------------------------------------------------------------------------
// Messages
// ---------------------------------------------------------------------------

/// A title and a message need text, and are kept without the spaces around them.
pub proof fn law_text_is_required(
    value: &str,
    title: Result<String, AppError>,
    content: Result<String, AppError>,
)
    requires
        call_ensures(threads::thread_title, (value,), title),
        call_ensures(threads::chat_content, (value,), content),
    ensures
        title is Ok <==> !text::is_blank(value@),
        content is Ok <==> !text::is_blank(value@),
        title matches Ok(t) ==> t@ == text::trim(value@),
        content matches Ok(c) ==> c@ == text::trim(value@),
        title matches Err(e) ==> e.status is BadRequest,
        content matches Err(e) ==> e.status is BadRequest,
{
}

/// A message is from the user, the assistant or the system, and from no other.
pub proof fn law_message_roles(role: &str, content: &str, r: Result<String, AppError>)
    requires
        call_ensures(threads::message_content, (role, content), r),
    ensures
        r is Ok <==> !text::is_blank(content@) && (role@ == "user"@ || role@ == "assistant"@
            || role@ == "system"@),
        r matches Ok(c) ==> c@ == text::trim(content@),
        r matches Err(e) ==> e.status is BadRequest,
{
    let list = threads::MESSAGE_ROLES@;
    assert(list.len() == 3);
    assert(list[0] == "user");
    assert(list[1] == "assistant");
    assert(list[2] == "system");
}

// ---------------------------------------------------------------------------
// Handing off
// ---------------------------------------------------------------------------

proof fn lemma_dispatch_roles(role: Seq<char>)
    ensures
        text::is_any(role, threads::DISPATCH_ROLES@) <==> role == "user"@ || role == "assistant"@,
{
    let list = threads::DISPATCH_ROLES@;
    assert(list.len() == 2);
    assert(list[0] == "user");
    assert(list[1] == "assistant");
}

/// The caller said something.
pub open spec fn is_said(value: Option<String>) -> bool {
    value is Some && !text::is_blank(value.unwrap()@)
}

/// A message of the user or the assistant can be handed off where there is
/// something to do; a message of the system never.
pub proof fn law_what_can_be_handed_off(
    request: DispatchThreadMessageRequest,
    source: MessageRecord,
    r: Result<CreateJobRequest, AppError>,
)
    requires
        call_ensures(threads::handoff_request, (request, &source), r),
    ensures
        r is Ok <==> (source.role@ == "user"@ || source.role@ == "assistant"@) && (is_said(
            request.prompt,
        ) || match draft_payload::message_draft(source) {
            Some(draft) => draft.request_text.len() > 0,
            None => !text::is_blank(source.content@),
        }),
        r matches Err(e) ==> e.status is BadRequest,
{
    lemma_dispatch_roles(source.role@);
}

/// What the caller says in handing off a message counts first, then the draft in
/// the message, then the message itself.
pub proof fn law_handoff_takes_what_is_said(
    request: DispatchThreadMessageRequest,
    source: MessageRecord,
    job: CreateJobRequest,
)
    requires
        call_ensures(threads::handoff_request, (request, &source), Ok(job)),
    ensures
        is_said(request.prompt) ==> job.prompt@ == text::trim(request.prompt.unwrap()@),
        is_said(request.title) ==> job.title@ == text::trim(request.title.unwrap()@),
        is_said(request.target_name) ==> text::opt(job.target_name) == Some(
            text::trim(request.target_name.unwrap()@),
        ),
        is_said(request.base_branch) ==> text::opt(job.base_branch) == Some(
            text::trim(request.base_branch.unwrap()@),
        ),
        request.execution_intent is Some ==> job.execution_intent == request.execution_intent,
        job.target_kind == request.target_kind,
        text::opt(job.device_id) == text::opt(request.device_id),
        job.execution_intent is Some,
{
    lemma_dispatch_roles(source.role@);
}

/// A draft that is handed off as it stands becomes the job as it stands.
pub proof fn law_draft_is_handed_off(
    request: DispatchThreadMessageRequest,
    source: MessageRecord,
    job: CreateJobRequest,
    draft: DraftView,
)
    requires
        call_ensures(threads::handoff_request, (request, &source), Ok(job)),
        draft_payload::message_draft(source) == Some(draft),
    ensures
        !is_said(request.prompt) ==> job.prompt@ == draft.request_text,
        !is_said(request.title) ==> job.title@ == draft.title,
        !is_said(request.target_name) ==> text::opt(job.target_name) == draft.repo_name,
        !is_said(request.base_branch) ==> text::opt(job.base_branch) == Some(draft.base_branch),
        request.execution_intent is None ==> job.execution_intent == Some(draft.execution_intent),
{
    lemma_dispatch_roles(source.role@);
}

/// A message without a draft is handed off as its own text: that is the prompt,
/// and what the caller leaves open is read from the prompt or stays open.
pub proof fn law_message_is_handed_off(
    request: DispatchThreadMessageRequest,
    source: MessageRecord,
    job: CreateJobRequest,
)
    requires
        call_ensures(threads::handoff_request, (request, &source), Ok(job)),
        draft_payload::message_draft(source) is None,
    ensures
        !is_said(request.prompt) ==> job.prompt@ == text::trim(source.content@),
        !is_said(request.title) ==> job.title@ == titles::job_title(job.prompt@),
        !is_said(request.target_name) ==> job.target_name is None,
        !is_said(request.base_branch) ==> job.base_branch is None,
        request.execution_intent is None ==> (job.execution_intent == Some(
            crate::models::ExecutionIntent::ReadOnly,
        ) <==> drafts::asks_for_reading(job.prompt@)),
{
    lemma_dispatch_roles(source.role@);
}

/// A chat message that is dispatched becomes the prompt of a job. What the caller
/// says counts; a title and an intent that they leave open are read from the
/// message.
pub proof fn law_chat_dispatch(
    request: CreateChatDispatchRequest,
    r: Result<CreateJobRequest, AppError>,
)
    requires
        call_ensures(threads::chat_dispatch_request, (request,), r),
    ensures
        r is Ok <==> !text::is_blank(request.content@),
        r matches Err(e) ==> e.status is BadRequest,
        r matches Ok(job) ==> {
            &&& job.prompt@ == text::trim(request.content@)
            &&& job.title@ == if is_said(request.title) {
                text::trim(request.title.unwrap()@)
            } else {
                titles::job_title(text::trim(request.content@))
            }
            &&& job.target_kind == request.target_kind
            &&& job.target_name is Some <==> is_said(request.target_name)
            &&& job.target_name matches Some(name) ==> name@ == text::trim(
                request.target_name.unwrap()@,
            )
            &&& job.base_branch is Some <==> is_said(request.base_branch)
            &&& job.base_branch matches Some(name) ==> name@ == text::trim(
                request.base_branch.unwrap()@,
            )
            &&& text::opt(job.device_id) == text::opt(request.device_id)
            &&& request.execution_intent is Some ==> job.execution_intent
                == request.execution_intent
            &&& request.execution_intent is None ==> (job.execution_intent == Some(
                crate::models::ExecutionIntent::ReadOnly,
            ) <==> drafts::asks_for_reading(text::trim(request.content@)))
            &&& job.execution_intent is Some
        },
{
}

// ---------------------------------------------------------------------------
// Promoted notes
// ---------------------------------------------------------------------------

/// A job is promoted into the note that was made of it before, if any, and that
/// note is looked up by the job alone.
pub proof fn law_promotion_updates_one_note(
    job: JobRecord,
    search: SearchNotesRequest,
    found: &[NoteRecord],
    id: Option<String>,
)
    requires
        call_ensures(promotion::existing_note_search, (&job,), search),
        call_ensures(promotion::existing_note_id, (found,), id),
    ensures
        search@.source_kind == Some("job"@),
        search@.source_id == Some(job.id@),
        search@.q is None && search@.context is None,
        search.limit == 1,
        id is Some <==> found@.len() > 0,
        id matches Some(x) ==> x@ == found@[0].note_id@,
{
}

/// A promoted note names its job, its author and where it comes from. What the
/// caller says of it counts; otherwise it takes the title of the job, the
/// beginning of the summary and the summary itself.
#[verifier::rlimit(60)]
pub proof fn law_promoted_job(
    request: PromoteJobNoteRequest,
    job: JobRecord,
    summary: Option<&SummaryRecord>,
    actor: SessionActor,
    found: &[NoteRecord],
    note: PromoteNoteRequest,
)
    requires
        call_ensures(promotion::promote_job, (request, &job, summary, actor, found), note),
    ensures
        found@.len() > 0 ==> text::opt(note.note_id) == Some(found@[0].note_id@),
        found@.len() == 0 ==> note.note_id is None,
        text::opt(note.source_kind) == Some("job"@),
        text::opt(note.source_id) == Some(job.id@),
        request.title is Some ==> text::opt(note.title) == text::opt(request.title),
        request.title is None ==> text::opt(note.title) == Some(job.title@),
        request.summary is Some ==> text::opt(note.summary) == text::opt(request.summary),
        request.summary is None && summary is Some ==> text::opt(note.summary) == Some(
            text::prefix(text::trim(summary.unwrap().content@), 240),
        ),
        request.summary is None && summary is None ==> note.summary is None,
        is_said(request.body_markdown) ==> note.body_markdown@ == text::trim(
            request.body_markdown.unwrap()@,
        ),
        !is_said(request.body_markdown) && summary is Some ==> note.body_markdown@
            == summary.unwrap().content@,
        !is_said(request.body_markdown) && summary is None ==> text::starts_with(
            note.body_markdown@,
            "# "@ + job.title@,
        ),
        note.tags == request.tags,
        note.aliases == request.aliases,
        note.note_type == request.note_type,
        note.slug is None,
        note.authored_by matches Some(a) && a.actor_id@ == actor.username@ && text::opt(
            a.display_name,
        ) == Some(actor.display_name@) && a.actor_type@ == "operator"@,
        note.frontmatter matches Some(f) && f.model().field_text("job_id"@) == Some(job.id@)
            && f.model().field_text("repo_name"@) == Some(job.repo_name@) && f.model().field_text(
            "branch_name"@,
        ) == text::opt(job.branch_name),
        note.source_references@.len() == if summary is Some {
            3int
        } else {
            2
        },
        note.source_references@[0].source_kind@ == "job"@,
        note.source_references@[0].source_id@ == job.id@,
        note.source_references@[1].source_kind@ == "thread"@,
        note.source_references@[1].source_id@ == job.thread_id@,
        summary matches Some(s) ==> note.source_references@[2].source_kind@ == "summary"@
            && note.source_references@[2].source_id@ == s.id@,
{
    reveal_with_fuel(json::lookup, 5);
    reveal_strlit("job_id");
    reveal_strlit("repo_name");
    reveal_strlit("branch_name");
    assert("job_id"@.len() == 6);
    assert("repo_name"@.len() == 9);
    assert("branch_name"@.len() == 11);
    let views = promotion::source_views(note.source_references@);
    assert(views.len() == note.source_references@.len());
    assert(views[0] == note.source_references@[0]@);
    assert(views[1] == note.source_references@[1]@);
    if summary is Some {
        assert(views[2] == note.source_references@[2]@);
    }
    if !is_said(request.body_markdown) && summary is None {
        let lead = "# "@ + job.title@;
        assert(note.body_markdown@.take(lead.len() as int) =~= lead);
    }
}

// ---------------------------------------------------------------------------
// Events for the user interface
// ---------------------------------------------------------------------------

/// An event names the kind of thing that changed and its id, and nothing that it
/// does not belong to.
#[verifier::rlimit(60)]
pub proof fn law_ui_events(
    id: &str,
    thread_id: &str,
    device_id: Option<&str>,
    thread: UiEvent,
    job: UiEvent,
    device: UiEvent,
    signer: UiEvent,
)
    requires
        call_ensures(ui_events::thread_ui_event, (id,), thread),
        call_ensures(ui_events::job_ui_event, (thread_id, id, device_id), job),
        call_ensures(ui_events::device_ui_event, (id,), device),
        call_ensures(ui_events::signer_ui_event, (id,), signer),
    ensures
        thread.event_type@ == "thread.changed"@ && thread.resource_kind@ == "thread"@,
        job.event_type@ == "job.changed"@ && job.resource_kind@ == "job"@,
        device.event_type@ == "device.changed"@ && device.resource_kind@ == "device"@,
        signer.event_type@ == "trust.signers.changed"@ && signer.resource_kind@ == "trust.signer"@,
        forall|e: UiEvent|
            e == thread || e == job || e == device || e == signer ==> #[trigger] text::opt(
                e.resource_id,
            ) == Some(id@) && e.action@ == "changed"@ && crate::ids::is_id(e.event_id@),
        text::opt(thread.thread_id) == Some(id@) && thread.job_id is None
            && thread.device_id is None,
        text::opt(job.thread_id) == Some(thread_id@) && text::opt(job.job_id) == Some(id@)
            && text::opt(job.device_id) == text::opt_str(device_id),
        device.thread_id is None && device.job_id is None && text::opt(device.device_id) == Some(
            id@,
        ),
        signer.thread_id is None && signer.job_id is None && signer.device_id is None,
{
    assert(thread.subject().event_type == thread.event_type@);
    assert(job.subject().event_type == job.event_type@);
    assert(device.subject().event_type == device.event_type@);
    assert(signer.subject().event_type == signer.event_type@);
}

// ---------------------------------------------------------------------------
// Time
// ---------------------------------------------------------------------------

/// Instants are in one line: no instant is after itself, and of two different ones
/// exactly one is after the other.
pub proof fn law_instants_are_ordered(a: Timestamp, b: Timestamp, c: Timestamp)
    ensures
        !time::after(a, a),
        time::after(a, b) && time::after(b, c) ==> time::after(a, c),
        !(time::after(a, b) && time::after(b, a)),
        !time::after(a, b) && !time::after(b, a) ==> a.secs() == b.secs() && a.nanos()
            == b.nanos(),
        a.secs() > b.secs() ==> time::after(a, b),
{
}

/// Outside of leap seconds the time between two instants counts the whole seconds
/// that have passed, and going back and forth cancels out.
pub proof fn law_seconds_between(later: Timestamp, earlier: Timestamp, s: i64)
    requires
        later.nanos() < time::SECOND_NANOS,
        earlier.nanos() < time::SECOND_NANOS,
        call_ensures(Timestamp::seconds_since, (&later, earlier), s),
    ensures
        later.secs() >= earlier.secs() && later.nanos() >= earlier.nanos() ==> s == later.secs()
            - earlier.secs(),
        later.secs() > earlier.secs() && later.nanos() < earlier.nanos() ==> s == later.secs()
            - earlier.secs() - 1,
        time::after(later, earlier) ==> s >= 0,
        time::after(earlier, later) ==> s <= 0,
        time::whole_seconds_between(later, earlier) == -time::whole_seconds_between(
            earlier,
            later,
        ),
{
    let d = later.secs() - earlier.secs();
    let n = later.nanos() - earlier.nanos();
    assert(d * 1_000_000_000 + n == -((-d) * 1_000_000_000 + (-n)));
}

/// An instant that is so many seconds later is that many seconds away, where the
/// calendar goes so far.
pub proof fn law_later_by(
    t: Timestamp,
    seconds: u64,
    r: Option<Timestamp>,
    between: i64,
)
    requires
        t.nanos() < time::SECOND_NANOS,
        call_ensures(Timestamp::later_by, (&t, seconds), r),
        r matches Some(u) ==> call_ensures(Timestamp::seconds_since, (&u, t), between),
    ensures
        r is Some <==> t.secs() + seconds <= time::LAST_SECOND,
        r matches Some(u) ==> between == seconds && u.nanos() == t.nanos() && (seconds > 0
            ==> time::after(u, t)),
{
    if let Some(u) = r {
        let d = u.secs() - t.secs();
        assert(u.nanos() - t.nanos() == 0);
        assert((d * 1_000_000_000) / 1_000_000_000 == d);
    }
}

/// What is acknowledged names the job, what it works on and in which mode, and
/// how the request begins.
#[verifier::rlimit(60)]
pub proof fn law_acknowledgements(
    source: MessageRecord,
    job: JobRecord,
    intent: crate::models::ExecutionIntent,
    prompt: &str,
    handed_off: String,
    dispatched: String,
)
    requires
        call_ensures(
            threads::handoff_acknowledgement,
            (&source, &job, &intent, prompt),
            handed_off,
        ),
        call_ensures(threads::dispatch_acknowledgement, (&job, &intent), dispatched),
    ensures
        text::starts_with(
            handed_off@,
            "Escalated "@ + source.role@ + " message `"@ + source.id@ + "` into job `"@
                + job.short_id@ + "` for "@ + job.kind().name() + " `"@ + job.target() + "` in "@ + (
            if intent is ReadOnly {
                "read-only"@
            } else {
                "workspace-change"@
            }) + " mode."@,
        ),
        text::ends_with(
            handed_off@,
            "Request summary: "@ + text::prefix(text::trim(prompt@), 160),
        ),
        dispatched@ == "Created job `"@ + job.short_id@ + "` with status `"@ + job.status@
            + "` on device `"@ + (match job.device_id {
            Some(id) => id@,
            None => "unassigned"@,
        }) + "` for "@ + job.kind().name() + " `"@ + job.target() + "` in "@ + (
        if intent is ReadOnly {
            "read-only"@
        } else {
            "workspace-change"@
        }) + " mode."@,
{
    let note = if intent is ReadOnly {
        "read-only"@
    } else {
        "workspace-change"@
    };
    let lead = "Escalated "@ + source.role@ + " message `"@ + source.id@ + "` into job `"@
        + job.short_id@ + "` for "@ + job.kind().name() + " `"@ + job.target() + "` in "@ + note;
    let end = text::prefix(text::trim(prompt@), 160);
    lemma_mode_words();
    let a = " mode.\nRequest summary: "@;
    let b = " mode."@;
    let c = "\n"@;
    let d = "Request summary: "@;
    assert(handed_off@ == lead + a + end);
    assert(handed_off@ =~= (lead + b) + (c + d + end));
    assert(handed_off@.take((lead + b).len() as int) =~= lead + b);
    assert(handed_off@ =~= (lead + b + c) + (d + end));
    assert(handed_off@.skip((lead + b + c).len() as int) =~= d + end);
}

proof fn lemma_mode_words()
    ensures
        " mode.\nRequest summary: "@ == " mode."@ + "\n"@ + "Request summary: "@,
{
    reveal_strlit(" mode.\nRequest summary: ");
    reveal_strlit(" mode.");
    reveal_strlit("\n");
    reveal_strlit("Request summary: ");
    assert(" mode.\nRequest summary: "@ =~= " mode."@ + "\n"@ + "Request summary: "@);
}

/// An instant is taken where the calendar has it, as it is given. Only a second
/// that ends a minute can be longer than others.
pub proof fn law_instants(secs: i64, nanos: u32, r: Option<Timestamp>)
    requires
        call_ensures(Timestamp::from_parts, (secs, nanos), r),
    ensures
        r matches Some(t) ==> t.secs() == secs && t.nanos() == nanos,
        r is Some <==> -8_334_601_228_800 <= secs <= 8_210_266_876_799 && nanos < 2_000_000_000 && (
        nanos >= 1_000_000_000 ==> secs % 60 == 59),
{
}

/// The calls that compare and read instants agree with each other.
pub proof fn law_instants_are_read(
    a: Timestamp,
    b: Timestamp,
    secs: i64,
    nanos: u32,
    later: bool,
    earlier: bool,
)
    requires
        call_ensures(Timestamp::seconds, (&a,), secs),
        call_ensures(Timestamp::nanoseconds, (&a,), nanos),
        call_ensures(Timestamp::is_after, (&a, b), later),
        call_ensures(Timestamp::is_after, (&b, a), earlier),
    ensures
        secs == a.secs() && nanos == a.nanos(),
        !(later && earlier),
        !later && !earlier ==> a.secs() == b.secs() && a.nanos() == b.nanos(),
        secs > b.secs() ==> later,
        secs == b.secs() && nanos > b.nanos() ==> later,
{
}

/// Going from one instant to another and back takes the same time, leap seconds
/// or not. An instant inside a leap second is left by any second that is added.
#[verifier::rlimit(60)]
pub proof fn law_leap_seconds(a: Timestamp, b: Timestamp, seconds: u64, r: Option<Timestamp>)
    requires
        call_ensures(Timestamp::later_by, (&a, seconds), r),
    ensures
        time::whole_seconds_between(a, b) == -time::whole_seconds_between(b, a),
        r matches Some(t) ==> t.secs() == a.secs() + seconds,
        r matches Some(t) ==> (seconds == 0 ==> t.nanos() == a.nanos()),
        r matches Some(t) ==> (a.nanos() < 1_000_000_000 ==> t.nanos() == a.nanos()),
        r matches Some(t) ==> (a.nanos() >= 1_000_000_000 && seconds > 0 ==> t.nanos() == a.nanos()
            - 1_000_000_000),
{
    let n = time::nanos_between(
        a.secs() as int,
        a.nanos() as int,
        b.secs() as int,
        b.nanos() as int,
    );
    let m = time::nanos_between(
        b.secs() as int,
        b.nanos() as int,
        a.secs() as int,
        a.nanos() as int,
    );
    let leap = time::leap_between(
        a.secs() as int,
        a.nanos() as int,
        b.secs() as int,
        b.nanos() as int,
    );
    let d = a.secs() - b.secs() + leap;
    assert(n == d * 1_000_000_000 + (a.nanos() - b.nanos()));
    assert(m == (-d) * 1_000_000_000 + (b.nanos() - a.nanos()));
    assert((-d) * 1_000_000_000 == -(d * 1_000_000_000));
}

} // verus!
