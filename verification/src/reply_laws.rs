//! What folding an event into a job, answering in its thread and deciding on its
//! approval promise.

use crate::approvals;
use crate::approvals::{
    AfterDecision, ApprovalDecision, ReopenedApproval, Resolution, ResolveApprovalRequest,
};
use crate::dispatch::JobEvent;
use crate::draft_payload;
use crate::error::AppError;
use crate::formatting;
use crate::json;
use crate::json::{Json, JsonView};
use crate::lifecycle;
use crate::lifecycle::{AssistantReply, JobLifecycleEvent, LifecyclePlan};
use crate::models::{ApprovalRecord, ExecutionIntent, JobRecord, SummaryRecord};
use crate::text;
use crate::text_laws;
use crate::time::Timestamp;
use vstd::prelude::*;

verus! {

// ---------------------------------------------------------------------------
// When the thread is told
// ---------------------------------------------------------------------------

proof fn lemma_kinds()
    ensures
        "job.started"@.len() == 11,
        "job.push_started"@.len() == 16,
        "job.push_completed"@.len() == 18,
        "job.awaiting_approval"@.len() == 21,
        "job.completed"@.len() == 13,
        "job.failed"@.len() == 10,
{
    reveal_strlit("job.started");
    reveal_strlit("job.push_started");
    reveal_strlit("job.push_completed");
    reveal_strlit("job.awaiting_approval");
    reveal_strlit("job.completed");
    reveal_strlit("job.failed");
}

/// The report says that the job only read.
pub open spec fn reports_reading(report: Option<&Json>) -> bool {
    report matches Some(r) && (r.model().field("execution_intent"@) matches Some(v)
        && draft_payload::intent_of(v) == Some(ExecutionIntent::ReadOnly))
}

/// The thread is told of a start, a push, a wait for approval, a failure and an
/// end. It is not told of anything else, nor of a successful end that a push has
/// still to follow: one whose payload says `push_required` with the value true,
/// on a job that did not only read.
#[verifier::rlimit(60)]
pub proof fn law_when_the_thread_is_told(
    job: JobRecord,
    event: JobLifecycleEvent,
    report: Option<&Json>,
    summary: Option<&SummaryRecord>,
    r: Option<AssistantReply>,
)
    requires
        call_ensures(
            lifecycle::build_thread_assistant_reply,
            (&job, &event, report, summary),
            r,
        ),
    ensures
        r is Some <==> {
            let kind = event.event_type@;
            ||| kind == "job.started"@
            ||| kind == "job.push_started"@
            ||| kind == "job.push_completed"@
            ||| kind == "job.awaiting_approval"@
            ||| kind == "job.failed"@
            ||| kind == "job.completed"@ && (text::opt(event.result) != Some("success"@)
                || reports_reading(report) || !(event.payload_json matches Some(payload)
                && payload.model().field("push_required"@) == Some(JsonView::Bool(true))))
        },
{
    lemma_kinds();
    lemma_stored_reading(report);
    assert(json::lookup(seq![], "push_required"@) is None);
}

proof fn lemma_stored_reading(report: Option<&Json>)
    ensures
        lifecycle::result_facts(lifecycle::stored_report(lifecycle::opt_json(report))).read_only
            == reports_reading(report),
{
    if let Some(r) = report {
        if let JsonView::Object(entries) = r.model() {
            if entries.len() == 0 {
                assert(json::lookup(entries, "execution_intent"@) is None);
            }
        }
    }
}

/// A successful end that no push follows is told to the thread, once, under the
/// mark of completion.
pub proof fn law_success_without_push_is_told(
    job: JobRecord,
    event: JobLifecycleEvent,
    report: Option<&Json>,
    summary: Option<&SummaryRecord>,
    r: Option<AssistantReply>,
)
    requires
        call_ensures(
            lifecycle::build_thread_assistant_reply,
            (&job, &event, report, summary),
            r,
        ),
        event.event_type@ == "job.completed"@,
        text::opt(event.result) == Some("success"@),
        event.payload_json matches Some(payload) ==> payload.model().field("push_required"@)
            != Some(JsonView::Bool(true)),
    ensures
        r matches Some(reply) && reply.status_marker@ == "job_event:"@ + event.job_id@
            + ":completed"@,
{
    lemma_kinds();
    assert(json::lookup(seq![], "push_required"@) is None);
    lemma_mark(event.job_id@);
}

#[verifier::rlimit(60)]
proof fn lemma_mark(id: Seq<char>)
    ensures
        lifecycle::marker(id, "started"@) == "job_event:"@ + id + ":started"@,
        lifecycle::marker(id, "push_started"@) == "job_event:"@ + id + ":push_started"@,
        lifecycle::marker(id, "push_completed"@) == "job_event:"@ + id + ":push_completed"@,
        lifecycle::marker(id, "awaiting_approval"@) == "job_event:"@ + id + ":awaiting_approval"@,
        lifecycle::marker(id, "completed"@) == "job_event:"@ + id + ":completed"@,
        lifecycle::marker(id, "failed"@) == "job_event:"@ + id + ":failed"@,
{
    reveal_strlit(":");
    reveal_strlit("started");
    reveal_strlit(":started");
    reveal_strlit("push_started");
    reveal_strlit(":push_started");
    reveal_strlit("push_completed");
    reveal_strlit(":push_completed");
    reveal_strlit("awaiting_approval");
    reveal_strlit(":awaiting_approval");
    reveal_strlit("completed");
    reveal_strlit(":completed");
    reveal_strlit("failed");
    reveal_strlit(":failed");
    assert(":"@ + "started"@ =~= ":started"@);
    assert(":"@ + "push_started"@ =~= ":push_started"@);
    assert(":"@ + "push_completed"@ =~= ":push_completed"@);
    assert(":"@ + "awaiting_approval"@ =~= ":awaiting_approval"@);
    assert(":"@ + "completed"@ =~= ":completed"@);
    assert(":"@ + "failed"@ =~= ":failed"@);
    assert forall|step: Seq<char>| #[trigger]
        lifecycle::marker(id, step) == "job_event:"@ + id + (":"@ + step) by {
        assert("job_event:"@ + id + ":"@ + step =~= "job_event:"@ + id + (":"@ + step));
    }
}

/// Each step of a job is told under its own mark, which names the job.
pub proof fn law_reply_marks(
    job: JobRecord,
    event: JobLifecycleEvent,
    report: Option<&Json>,
    summary: Option<&SummaryRecord>,
    reply: AssistantReply,
)
    requires
        call_ensures(
            lifecycle::build_thread_assistant_reply,
            (&job, &event, report, summary),
            Some(reply),
        ),
    ensures
        event.event_type@ == "job.started"@ ==> reply.status_marker@ == "job_event:"@ + event.job_id@
            + ":started"@,
        event.event_type@ == "job.push_started"@ ==> reply.status_marker@ == "job_event:"@
            + event.job_id@ + ":push_started"@,
        event.event_type@ == "job.push_completed"@ ==> reply.status_marker@ == "job_event:"@
            + event.job_id@ + ":push_completed"@,
        event.event_type@ == "job.awaiting_approval"@ ==> reply.status_marker@ == "job_event:"@
            + event.job_id@ + ":awaiting_approval"@,
        event.event_type@ == "job.completed"@ ==> reply.status_marker@ == "job_event:"@
            + event.job_id@ + ":completed"@,
        event.event_type@ == "job.failed"@ ==> reply.status_marker@ == "job_event:"@ + event.job_id@
            + ":failed"@,
{
    lemma_kinds();
    lemma_mark(event.job_id@);
}

// ---------------------------------------------------------------------------
// What the thread is told
// ---------------------------------------------------------------------------

/// The start of a job is told with the job, what it works on and where. The push
/// is told with the job and its branch, its start also with the device.
#[verifier::rlimit(60)]
pub proof fn law_progress_is_told(
    job: JobRecord,
    event: JobLifecycleEvent,
    report: Option<&Json>,
    summary: Option<&SummaryRecord>,
    reply: AssistantReply,
)
    requires
        call_ensures(
            lifecycle::build_thread_assistant_reply,
            (&job, &event, report, summary),
            Some(reply),
        ),
    ensures
        event.event_type@ == "job.started"@ ==> text::contains(reply.content@, job.short_id@)
            && text::contains(reply.content@, job.target()) && text::contains(
            reply.content@,
            event.device_id@,
        ) && text::contains(reply.content@, job.kind().name()),
        event.event_type@ == "job.push_started"@ ==> text::contains(reply.content@, job.short_id@)
            && text::contains(reply.content@, event.device_id@) && (job.branch_name is Some
            ==> text::contains(reply.content@, job.branch_name.unwrap()@)),
        event.event_type@ == "job.push_completed"@ ==> text::contains(reply.content@, job.short_id@)
            && (job.branch_name is Some ==> text::contains(
            reply.content@,
            job.branch_name.unwrap()@,
        )),
{
    lemma_kinds();
    let id = job.short_id@;
    let device = event.device_id@;
    let c = reply.content@;
    if event.event_type@ == "job.started"@ {
        let kind = job.kind().name();
        let target = job.target();
        let p0 = "I started working on job `"@;
        let p1 = "` for "@;
        let p2 = " `"@;
        let p3 = "` on device `"@;
        let p4 = "`."@;
        assert(c =~= p0 + id + (p1 + kind + p2 + target + p3 + device + p4));
        text_laws::law_contains(p0, id, p1 + kind + p2 + target + p3 + device + p4);
        assert(c =~= (p0 + id + p1) + kind + (p2 + target + p3 + device + p4));
        text_laws::law_contains(p0 + id + p1, kind, p2 + target + p3 + device + p4);
        assert(c =~= (p0 + id + p1 + kind + p2) + target + (p3 + device + p4));
        text_laws::law_contains(p0 + id + p1 + kind + p2, target, p3 + device + p4);
        text_laws::law_contains(p0 + id + p1 + kind + p2 + target + p3, device, p4);
    }
    if event.event_type@ == "job.push_started"@ {
        let branch = lifecycle::branch_or_unknown(job);
        let p0 = "Push approval landed for job `"@;
        let p1 = "`. I started pushing branch `"@;
        let p2 = "` from device `"@;
        let p3 = "`."@;
        assert(c =~= p0 + id + (p1 + branch + p2 + device + p3));
        text_laws::law_contains(p0, id, p1 + branch + p2 + device + p3);
        assert(c =~= (p0 + id + p1) + branch + (p2 + device + p3));
        text_laws::law_contains(p0 + id + p1, branch, p2 + device + p3);
        text_laws::law_contains(p0 + id + p1 + branch + p2, device, p3);
    }
    if event.event_type@ == "job.push_completed"@ {
        let branch = lifecycle::branch_or_unknown(job);
        let p0 = "I finished pushing branch `"@;
        let p1 = "` for job `"@;
        let p2 = "` to `origin`."@;
        assert(c =~= p0 + branch + (p1 + id + p2));
        text_laws::law_contains(p0, branch, p1 + id + p2);
        text_laws::law_contains(p0 + branch + p1, id, p2);
    }
}

/// What a job is for is its repository, or its capability where it is a
/// capability job.
pub proof fn law_job_target(job: JobRecord)
    ensures
        job.target_kind@ == "capability"@ ==> job.kind() is Capability && (job.capability_name
            matches Some(name) ==> job.target() == name@),
        job.target_kind@ != "capability"@ ==> job.kind() is Repository && job.target()
            == job.repo_name@,
{
}

/// The end of a job is told by the last message of its report, where there is
/// one, and otherwise by a sentence that names the job.
#[verifier::rlimit(60)]
pub proof fn law_success_is_told(
    job: JobRecord,
    event: JobLifecycleEvent,
    report: &Json,
    summary: Option<&SummaryRecord>,
    reply: AssistantReply,
    message: Seq<char>,
)
    requires
        call_ensures(
            lifecycle::build_thread_assistant_reply,
            (&job, &event, Some(report), summary),
            Some(reply),
        ),
        event.event_type@ == "job.completed"@,
        text::opt(event.result) == Some("success"@),
    ensures
        report.model().field_text("last_message"@) == Some(message) && !text::is_blank(message)
            ==> reply.content@ == formatting::result_excerpt(
            formatting::sanitized_result(text::trim(message)),
        ),
        formatting::report_message(report.model()) is None ==> text::contains(
            reply.content@,
            job.short_id@,
        ),
{
    lemma_kinds();
    let id = job.short_id@;
    text_laws::law_contains("Read-only job `"@, id, "` finished successfully."@);
    text_laws::law_contains("Job `"@, id, "` finished successfully. No push approval was required."@);
    if let JsonView::Object(entries) = report.model() {
        if entries.len() == 0 {
            assert(json::lookup(entries, "last_message"@) is None);
        }
    }
}

/// A failure is told by its detail; without one, by the summary of the job;
/// without that, by a sentence of its own. A job that ended without success
/// failed too.
pub proof fn law_failure_is_told(
    job: JobRecord,
    event: JobLifecycleEvent,
    report: Option<&Json>,
    summary: Option<&SummaryRecord>,
    r: Option<AssistantReply>,
)
    requires
        call_ensures(
            lifecycle::build_thread_assistant_reply,
            (&job, &event, report, summary),
            r,
        ),
        event.event_type@ == "job.failed"@ || (event.event_type@ == "job.completed"@ && text::opt(
            event.result,
        ) != Some("success"@)),
    ensures
        r matches Some(reply) && {
            &&& (event.detail is Some && !text::is_blank(event.detail.unwrap()@)) ==> reply.content@
                == formatting::truncated(text::trim(event.detail.unwrap()@), 240)
            &&& !(event.detail is Some && !text::is_blank(event.detail.unwrap()@)) ==> match summary {
                Some(s) => if text::is_blank(s.content@) {
                    reply.content@ == "The job did not complete successfully."@
                } else {
                    reply.content@ == formatting::truncated(text::trim(s.content@), 240)
                },
                None => reply.content@ == "The job did not complete successfully."@,
            }
        },
{
    lemma_kinds();
}

proof fn lemma_result_payload(job: JobRecord, details: Seq<char>)
    ensures
        lifecycle::result_payload(job, details).field("job_result"@) matches Some(v)
            && v.field_text("job_id"@) == Some(job.id@) && v.field_text("job_short_id"@) == Some(
            job.short_id@,
        ) && v.field_text("details"@) == Some(details),
{
    reveal_with_fuel(json::lookup, 5);
    reveal_strlit("job_id");
    reveal_strlit("job_short_id");
    reveal_strlit("details");
    assert("job_id"@.len() == 6);
    assert("job_short_id"@.len() == 12);
    assert("details"@.len() == 7);
}

/// A reply on a result says which job it speaks of and holds the details; one on
/// progress holds nothing more.
#[verifier::rlimit(60)]
pub proof fn law_reply_payload(
    job: JobRecord,
    event: JobLifecycleEvent,
    report: Option<&Json>,
    summary: Option<&SummaryRecord>,
    reply: AssistantReply,
)
    requires
        call_ensures(
            lifecycle::build_thread_assistant_reply,
            (&job, &event, report, summary),
            Some(reply),
        ),
    ensures
        event.event_type@ == "job.completed"@ || event.event_type@ == "job.failed"@
            || event.event_type@ == "job.awaiting_approval"@ ==> (reply.payload.model().field(
            "job_result"@,
        ) matches Some(v) && v.field_text("job_id"@) == Some(job.id@) && v.field_text(
            "job_short_id"@,
        ) == Some(job.short_id@) && v.field_text("details"@) is Some),
        event.event_type@ == "job.started"@ || event.event_type@ == "job.push_started"@
            || event.event_type@ == "job.push_completed"@ ==> reply.payload.model()
            == JsonView::Object(seq![]),
{
    lemma_kinds();
    assert forall|details: Seq<char>| #[trigger]
        lifecycle::result_payload(job, details).field("job_result"@) matches Some(v)
            && v.field_text("job_id"@) == Some(job.id@) && v.field_text("job_short_id"@) == Some(
            job.short_id@,
        ) && v.field_text("details"@) == Some(details) by {
        lemma_result_payload(job, details);
    }
}

/// A report that is an empty object says nothing; any other is taken as it is.
pub proof fn law_meaningful_report(stored: Option<&Json>, r: Option<&Json>)
    requires
        call_ensures(lifecycle::meaningful_report, (stored,), r),
    ensures
        r is Some <==> (stored matches Some(v) && v.model() != JsonView::Object(seq![])),
        r matches Some(v) ==> v.model() == stored.unwrap().model(),
{
    if let Some(v) = stored {
        if let JsonView::Object(entries) = v.model() {
            if entries.len() == 0 {
                assert(entries =~= seq![]);
            }
        }
    }
}

// ---------------------------------------------------------------------------
// What an event changes
// ---------------------------------------------------------------------------

/// A job takes the status, result and failure class that an event reports, and
/// none where the event reports no status. It is over at the instant of an event
/// that reports one of the three final states. Only an event that waits for
/// approval asks for one.
pub proof fn law_event_changes_job(event: JobLifecycleEvent, plan: LifecyclePlan)
    requires
        call_ensures(lifecycle::plan_lifecycle_event, (&event,), plan),
    ensures
        plan.change is Some <==> event.status is Some,
        plan.change matches Some(change) ==> change.status@ == event.status.unwrap()@ && text::opt(
            change.result,
        ) == text::opt(event.result) && text::opt(change.failure_class) == text::opt(
            event.failure_class,
        ),
        plan.completed_at is Some <==> (event.status matches Some(status) && (status@
            == "completed"@ || status@ == "failed"@ || status@ == "cancelled"@)),
        plan.completed_at matches Some(at) ==> at == event.created_at,
        plan.approval_summary is Some <==> event.event_type@ == "job.awaiting_approval"@,
{
}

/// The parts of an event's payload are kept: a summary that is not blank, a
/// report, and the reason for an approval.
pub proof fn law_event_payload_is_kept(
    event: JobLifecycleEvent,
    payload: Json,
    plan: LifecyclePlan,
)
    requires
        call_ensures(lifecycle::plan_lifecycle_event, (&event,), plan),
        event.payload_json == Some(payload),
    ensures
        plan.summary_markdown is Some <==> (payload.model().field_text("summary_markdown"@) matches Some(
            s,
        ) && !text::is_blank(s)),
        plan.summary_markdown matches Some(s) ==> s@ == text::trim(
            payload.model().field_text("summary_markdown"@).unwrap(),
        ),
        plan.execution_report is Some <==> payload.model().field("execution_report"@) is Some,
        plan.execution_report matches Some(report) ==> payload.model().field("execution_report"@)
            == Some(report.model()),
        plan.approval_summary matches Some(s) ==> match payload.model().field_text("summary"@) {
            Some(given) => if text::is_blank(given) {
                s@ == "Approve push for completed job"@
            } else {
                s@ == text::trim(given)
            },
            None => s@ == "Approve push for completed job"@,
        },
{
}

proof fn lemma_lookup_push(
    entries: lifecycle::Entries,
    key: Seq<char>,
    value: JsonView,
    k: Seq<char>,
)
    ensures
        json::lookup(entries.push((key, value)), k) == match json::lookup(entries, k) {
            Some(v) => Some(v),
            None => if key == k {
                Some(value)
            } else {
                None
            },
        },
    decreases entries.len(),
{
    let all = entries.push((key, value));
    if entries.len() > 0 {
        assert(all.drop_first() =~= entries.drop_first().push((key, value)));
        lemma_lookup_push(entries.drop_first(), key, value, k);
    } else {
        assert(all.drop_first() =~= Seq::empty());
        assert(json::lookup(Seq::empty(), k) is None);
    }
}

/// The stored event says which device reported it and repeats what it said, field
/// by field; what the event does not say is absent.
#[verifier::rlimit(60)]
pub proof fn law_stored_event(event: JobLifecycleEvent, plan: LifecyclePlan)
    requires
        call_ensures(lifecycle::plan_lifecycle_event, (&event,), plan),
    ensures
        ({
            let p = plan.payload.model();
            &&& p.field_text("correlation_id"@) == Some(event.correlation_id@)
            &&& p.field_text("device_id"@) == Some(event.device_id@)
            &&& p.field_text("status"@) == text::opt(event.status)
            &&& p.field_text("result"@) == text::opt(event.result)
            &&& p.field_text("failure_class"@) == text::opt(event.failure_class)
            &&& p.field_text("worktree_path"@) == text::opt(event.worktree_path)
            &&& p.field_text("detail"@) == text::opt(event.detail)
            &&& event.payload_json matches Some(payload) ==> p.field("payload"@) == Some(
                payload.model(),
            )
            &&& event.payload_json is None ==> p.field("payload"@) == Some(
                JsonView::Object(seq![]),
            )
        }),
{
    reveal_strlit("correlation_id");
    reveal_strlit("device_id");
    reveal_strlit("status");
    reveal_strlit("result");
    reveal_strlit("failure_class");
    reveal_strlit("worktree_path");
    reveal_strlit("detail");
    reveal_strlit("payload");
    assert("correlation_id"@.len() == 14);
    assert("device_id"@.len() == 9);
    assert("status"@.len() == 6);
    assert("result"@.len() == 6);
    assert("status"@[0] != "result"@[0]);
    assert("status"@[0] != "detail"@[0]);
    assert("result"@[0] != "detail"@[0]);
    assert("failure_class"@.len() == 13);
    assert("worktree_path"@.len() == 13);
    assert("failure_class"@[0] != "worktree_path"@[0]);
    assert("detail"@.len() == 6);
    assert("payload"@.len() == 7);
    let e0 = seq![
        ("correlation_id"@, JsonView::Text(event.correlation_id@)),
        ("device_id"@, JsonView::Text(event.device_id@)),
    ];
    let e1 = lifecycle::with_text(e0, "status"@, text::opt(event.status));
    let e2 = lifecycle::with_text(e1, "result"@, text::opt(event.result));
    let e3 = lifecycle::with_text(e2, "failure_class"@, text::opt(event.failure_class));
    let e4 = lifecycle::with_text(e3, "worktree_path"@, text::opt(event.worktree_path));
    let e5 = lifecycle::with_text(e4, "detail"@, text::opt(event.detail));
    let e6 = e5.push(("payload"@, lifecycle::carried(event)));
    reveal_with_fuel(json::lookup, 4);
    assert forall|k: Seq<char>| true implies #[trigger] json::lookup(e6, k) == match json::lookup(
        e0,
        k,
    ) {
        Some(v) => Some(v),
        None => if k == "status"@ && event.status is Some {
            Some(JsonView::Text(event.status.unwrap()@))
        } else if k == "result"@ && event.result is Some {
            Some(JsonView::Text(event.result.unwrap()@))
        } else if k == "failure_class"@ && event.failure_class is Some {
            Some(JsonView::Text(event.failure_class.unwrap()@))
        } else if k == "worktree_path"@ && event.worktree_path is Some {
            Some(JsonView::Text(event.worktree_path.unwrap()@))
        } else if k == "detail"@ && event.detail is Some {
            Some(JsonView::Text(event.detail.unwrap()@))
        } else if k == "payload"@ {
            Some(lifecycle::carried(event))
        } else {
            None
        },
    } by {
        if let Some(v) = event.status {
            lemma_lookup_push(e0, "status"@, JsonView::Text(v@), k);
        }
        if let Some(v) = event.result {
            lemma_lookup_push(e1, "result"@, JsonView::Text(v@), k);
        }
        if let Some(v) = event.failure_class {
            lemma_lookup_push(e2, "failure_class"@, JsonView::Text(v@), k);
        }
        if let Some(v) = event.worktree_path {
            lemma_lookup_push(e3, "worktree_path"@, JsonView::Text(v@), k);
        }
        if let Some(v) = event.detail {
            lemma_lookup_push(e4, "detail"@, JsonView::Text(v@), k);
        }
        lemma_lookup_push(e5, "payload"@, lifecycle::carried(event), k);
    }
    assert(plan.payload.model() == JsonView::Object(e6));
    assert(json::lookup(e0, "correlation_id"@) is Some);
    assert(json::lookup(e0, "device_id"@) is Some);
    assert(json::lookup(e0, "status"@) is None);
    assert(json::lookup(e0, "result"@) is None);
    assert(json::lookup(e0, "failure_class"@) is None);
    assert(json::lookup(e0, "worktree_path"@) is None);
    assert(json::lookup(e0, "detail"@) is None);
    assert(json::lookup(e0, "payload"@) is None);
}

// ---------------------------------------------------------------------------
// Approvals
// ---------------------------------------------------------------------------

/// A decision is one of two words, in any case and with any space around it.
/// Anything else is a bad request. A blank name or reason counts as none.
pub proof fn law_decision_is_read(
    request: ResolveApprovalRequest,
    r: Result<ApprovalDecision, AppError>,
)
    requires
        call_ensures(approvals::read_decision, (request,), r),
    ensures
        r is Ok <==> text::lower(text::trim(request.status@)) == "approved"@ || text::lower(
            text::trim(request.status@),
        ) == "rejected"@,
        r matches Err(e) ==> e.status is BadRequest,
        r matches Ok(d) ==> {
            &&& d.resolution.name() == text::lower(text::trim(request.status@))
            &&& d.resolution is Approved <==> text::lower(text::trim(request.status@))
                == "approved"@
            &&& d.resolved_by is Some <==> (request.resolved_by matches Some(x) && !text::is_blank(
                x@,
            ))
            &&& d.resolved_by matches Some(x) ==> x@ == text::trim(request.resolved_by.unwrap()@)
            &&& d.reason is Some <==> (request.reason matches Some(x) && !text::is_blank(x@))
            &&& d.reason matches Some(x) ==> x@ == text::trim(request.reason.unwrap()@)
        },
{
    reveal_strlit("approved");
    reveal_strlit("rejected");
    assert("approved"@[0] != "rejected"@[0]);
}

/// An approval is decided once: only one that is pending can be.
pub proof fn law_only_pending_is_decided(
    approval: ApprovalRecord,
    resolution: Resolution,
    r: Result<(), AppError>,
)
    requires
        call_ensures(approvals::ensure_pending, (&approval,), r),
    ensures
        r is Ok <==> approval.status@ == "pending"@,
        r matches Err(e) ==> e.status is Conflict,
        approval.status@ == resolution.name() ==> r is Err,
{
    approvals::law_decisions_are_final(resolution);
}

/// Only an approved push sends a command. It goes out where the job has a device
/// and a branch and works on a repository; otherwise the approval is open again.
/// A rejection, and any other action, is just recorded and ends the job.
#[verifier::rlimit(60)]
pub proof fn law_decision_is_carried_out(
    resolution: Resolution,
    approval: ApprovalRecord,
    job: JobRecord,
    now: Timestamp,
    r: AfterDecision,
    over: bool,
)
    requires
        call_ensures(approvals::after_decision, (resolution, &approval, &job, now), r),
        call_ensures(approvals::completes_job, (resolution, &approval), over),
    ensures
        r is Record <==> resolution is Rejected || approval.action_type@ != "push"@,
        over <==> r is Record,
        r is Reopen <==> !(r is Record) && (job.device_id is None || job.branch_name is None),
        r is ReopenUnsent <==> !(r is Record) && job.device_id is Some && job.branch_name is Some
            && job.target_kind@ == "capability"@,
        r is Publish <==> !(r is Record) && job.device_id is Some && job.branch_name is Some
            && job.target_kind@ != "capability"@,
        r matches AfterDecision::Publish(c) ==> c.approval_id@ == approval.id@ && c.job_id@ == job.id@
            && c.device_id@ == job.device_id.unwrap()@ && c.branch_name is Some
            && c.branch_name.unwrap()@ == job.branch_name.unwrap()@ && c.target_name@
            == job.repo_name@ && c.approved_at == now,
        r matches AfterDecision::Reopen(e) ==> e.status is Conflict,
        r matches AfterDecision::ReopenUnsent(x) ==> x.error.status is Internal,
{
}

/// An approval is open again exactly where its command could not be sent.
pub proof fn law_unsent_command_reopens(
    approval: ApprovalRecord,
    publish_error: Option<&str>,
    r: Option<ReopenedApproval>,
)
    requires
        call_ensures(approvals::after_approval_publish, (&approval, publish_error), r),
    ensures
        r is Some <==> publish_error is Some,
        r matches Some(x) ==> x.error.status is Internal && x.event.event_type@
            == "approval.dispatch_failed"@ && x.event.payload.model().field_text("error"@) == Some(
            publish_error.unwrap()@,
        ) && x.event.payload.model().field_text("approval_id"@) == Some(approval.id@),
{
    reveal_with_fuel(json::lookup, 5);
    reveal_strlit("approval_id");
    reveal_strlit("action_type");
    reveal_strlit("error");
    assert("approval_id"@.len() == 11);
    assert("action_type"@.len() == 11);
    assert("approval_id"@[1] != "action_type"@[1]);
    assert("error"@.len() == 5);
}

/// A decision is on record under its own name, with the approval, the one who
/// decided and the reason.
pub proof fn law_decision_is_recorded(
    resolution: Resolution,
    approval: ApprovalRecord,
    correlation_id: &str,
    r: JobEvent,
)
    requires
        call_ensures(approvals::resolved_event, (resolution, &approval, correlation_id), r),
    ensures
        resolution is Approved ==> r.event_type@ == "approval."@ + "approved"@,
        resolution is Rejected ==> r.event_type@ == "approval."@ + "rejected"@,
        r.payload.model().field_text("correlation_id"@) == Some(correlation_id@),
        r.payload.model().field_text("approval_id"@) == Some(approval.id@),
        r.payload.model().field_text("action_type"@) == Some(approval.action_type@),
        r.payload.model().field_text("resolved_by"@) == text::opt(approval.resolved_by),
        r.payload.model().field_text("reason"@) == text::opt(approval.resolution_reason),
{
    reveal_with_fuel(json::lookup, 7);
    reveal_strlit("correlation_id");
    reveal_strlit("approval_id");
    reveal_strlit("action_type");
    reveal_strlit("resolved_by");
    reveal_strlit("reason");
    assert("correlation_id"@.len() == 14);
    assert("approval_id"@.len() == 11);
    assert("action_type"@.len() == 11);
    assert("resolved_by"@.len() == 11);
    assert("approval_id"@[1] != "action_type"@[1]);
    assert("approval_id"@[0] != "resolved_by"@[0]);
    assert("action_type"@[0] != "resolved_by"@[0]);
    assert("reason"@.len() == 6);
}

/// A request for approval is on record with the approval that it asks for.
pub proof fn law_requested_approval(correlation_id: &str, approval: ApprovalRecord, r: JobEvent)
    requires
        call_ensures(lifecycle::approval_requested_event, (correlation_id, &approval), r),
    ensures
        r.event_type@ == "approval.requested"@,
        r.payload.model().field_text("correlation_id"@) == Some(correlation_id@),
        r.payload.model().field_text("approval_id"@) == Some(approval.id@),
        r.payload.model().field_text("action_type"@) == Some(approval.action_type@),
        r.payload.model().field_text("summary"@) == Some(approval.summary@),
{
    reveal_with_fuel(json::lookup, 6);
    reveal_strlit("correlation_id");
    reveal_strlit("approval_id");
    reveal_strlit("action_type");
    reveal_strlit("summary");
    assert("correlation_id"@.len() == 14);
    assert("approval_id"@.len() == 11);
    assert("action_type"@.len() == 11);
    assert("approval_id"@[1] != "action_type"@[1]);
    assert("summary"@.len() == 7);
}

/// A wait for approval is told with the result of the job, where it left one, and
/// with the word that the push is pending.
pub proof fn law_wait_is_told(
    job: JobRecord,
    event: JobLifecycleEvent,
    report: Option<&Json>,
    summary: Option<&SummaryRecord>,
    r: Option<AssistantReply>,
    message: Seq<char>,
)
    requires
        call_ensures(
            lifecycle::build_thread_assistant_reply,
            (&job, &event, report, summary),
            r,
        ),
        event.event_type@ == "job.awaiting_approval"@,
    ensures
        r matches Some(reply) && {
            &&& report is Some && report.unwrap().model().field_text("last_message"@) == Some(
                message,
            ) && !text::is_blank(message) ==> reply.content@ == formatting::result_excerpt(
                formatting::sanitized_result(text::trim(message)),
            ) + "\n\nPush approval is pending."@
            &&& report is None ==> reply.content@ == "Job `"@ + job.short_id@
                + "` finished its main work and is waiting for push approval."@
        },
{
    lemma_kinds();
    if let Some(v) = report {
        if let JsonView::Object(entries) = v.model() {
            if entries.len() == 0 {
                assert(json::lookup(entries, "last_message"@) is None);
            }
        }
    }
}

/// The details of a failure open with the job and end with what went wrong; those
/// of a success hold what the report says of build and tests.
#[verifier::rlimit(60)]
pub proof fn law_reply_details(
    job: JobRecord,
    event: JobLifecycleEvent,
    report: Option<&Json>,
    summary: Option<&SummaryRecord>,
    reply: AssistantReply,
    details: Seq<char>,
)
    requires
        call_ensures(
            lifecycle::build_thread_assistant_reply,
            (&job, &event, report, summary),
            Some(reply),
        ),
        reply.payload.model().field("job_result"@) matches Some(v) && v.field_text("details"@)
            == Some(details),
    ensures
        event.event_type@ == "job.failed"@ ==> text::starts_with(
            details,
            "I couldn't complete job `"@ + job.short_id@ + "` for repo `"@ + job.repo_name@
                + "`."@,
        ),
        event.event_type@ == "job.awaiting_approval"@ || (event.event_type@ == "job.completed"@
            && text::opt(event.result) == Some("success"@) && !reports_reading(report))
            ==> text::starts_with(
            details,
            "I finished job `"@ + job.short_id@ + "` for repo `"@ + job.repo_name@
                + "` successfully."@,
        ),
        event.event_type@ == "job.completed"@ && text::opt(event.result) == Some("success"@)
            && reports_reading(report) ==> text::starts_with(
            details,
            "I finished read-only job `"@ + job.short_id@ + "` for repo `"@ + job.repo_name@
                + "` successfully."@,
        ),
{
    lemma_kinds();
    lemma_stored_reading(report);
    let facts = lifecycle::result_facts(lifecycle::stored_report(lifecycle::opt_json(report)));
    let detail = text::present(text::opt(event.detail));
    assert forall|d: Seq<char>| #[trigger]
        lifecycle::result_payload(job, d).field("job_result"@) matches Some(v) && v.field_text(
            "details"@,
        ) == Some(d) by {
        lemma_result_payload(job, d);
    }
    let failed = text::with_line(
        formatting::opening_lines(formatting::failure_headline(job), job, facts.facts),
        formatting::failure_line(detail, formatting::summary_content(summary)),
    );
    lemma_headline(formatting::failure_headline(job), failed);
    let head = formatting::success_headline(job);
    let reading = formatting::read_only_headline(job);
    let open = formatting::with_result(
        formatting::opening_lines(head, job, facts.facts),
        facts.last_message,
    );
    let open_reading = formatting::with_result(
        formatting::opening_lines(reading, job, facts.facts),
        facts.last_message,
    );
    let summary_line = text::or_value(
        text::present(lifecycle::carried(event).field_text("summary"@)),
        "Push is waiting for approval."@,
    );
    lemma_headline(head, formatting::with_closing(open, summary_line));
    lemma_headline(
        head,
        formatting::with_closing(
            open,
            "No committed repository changes were produced, so no push approval was required."@,
        ),
    );
    lemma_headline(
        reading,
        formatting::with_closing(
            open_reading,
            formatting::read_only_closing(facts.facts.changed),
        ),
    );
}

proof fn lemma_headline(head: Seq<char>, lines: text::Texts)
    requires
        lines.len() > 0,
        lines[0] == head,
    ensures
        text::starts_with(text::join(lines, "\n"@), head),
{
    let r = text::join(lines, "\n"@);
    if lines.len() > 1 {
        let rest = lines.skip(1);
        assert(lines =~= seq![head] + rest);
        text_laws::law_join(seq![head], rest, head, "\n"@);
    }
    assert(r.take(head.len() as int) =~= head);
}

} // verus!
