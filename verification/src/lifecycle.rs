//! What the reports of a device about a job change, and what the conversation
//! says about them.

use crate::dispatch::{ChangeView, JobEvent, JobStateChange};
use crate::draft_payload;
use crate::draft_payload::decode_intent;
use crate::formatting;
use crate::formatting::{
    execution_report_changed_entries, execution_report_last_message, execution_report_status,
    format_failure_reply, format_failure_result_summary, format_read_only_success_reply,
    format_success_reply, format_success_without_push_reply, primary_result_excerpt,
    sanitize_chat_result_text,
};
use crate::json;
use crate::json::{Json, JsonObject, JsonView};
use crate::models::{ApprovalRecord, ExecutionIntent, JobRecord, SummaryRecord};
use crate::scan::{copy_opt, opt_slice, same_text};
use crate::text;
use crate::time::Timestamp;
use vstd::prelude::*;

verus! {

/// The report of a device about a job.
#[derive(Debug)]
pub struct JobLifecycleEvent {
    pub job_id: String,
    pub correlation_id: String,
    pub device_id: String,
    pub event_type: String,
    pub status: Option<String>,
    pub result: Option<String>,
    pub failure_class: Option<String>,
    pub worktree_path: Option<String>,
    pub detail: Option<String>,
    pub payload_json: Option<Json>,
    pub created_at: Timestamp,
}

// ---------------------------------------------------------------------------
// What is stored
// ---------------------------------------------------------------------------

/// Entries of a JSON object.
pub type Entries = Seq<(Seq<char>, JsonView)>;

/// The entries with one more, where there is a value for it.
pub open spec fn with_text(entries: Entries, key: Seq<char>, value: Option<Seq<char>>) -> Entries {
    match value {
        Some(v) => entries.push((key, JsonView::Text(v))),
        None => entries,
    }
}

/// What the report carries: its payload, or an empty object.
pub open spec fn carried(event: JobLifecycleEvent) -> JsonView {
    match event.payload_json {
        Some(payload) => payload.model(),
        None => JsonView::Object(seq![]),
    }
}

/// The record of a report.
pub open spec fn event_payload(event: JobLifecycleEvent) -> JsonView {
    JsonView::Object(
        with_text(
            with_text(
                with_text(
                    with_text(
                        with_text(
                            seq![
                                ("correlation_id"@, JsonView::Text(event.correlation_id@)),
                                ("device_id"@, JsonView::Text(event.device_id@)),
                            ],
                            "status"@,
                            text::opt(event.status),
                        ),
                        "result"@,
                        text::opt(event.result),
                    ),
                    "failure_class"@,
                    text::opt(event.failure_class),
                ),
                "worktree_path"@,
                text::opt(event.worktree_path),
            ),
            "detail"@,
            text::opt(event.detail),
        ).push(("payload"@, carried(event))),
    )
}

/// A status after which nothing more happens.
pub open spec fn is_final(status: Seq<char>) -> bool {
    status == "completed"@ || status == "failed"@ || status == "cancelled"@
}

/// What a report changes.
#[derive(Debug)]
pub struct LifecyclePlan {
    /// The record of the report.
    pub payload: Json,
    /// The new state of the job, where the report gives one.
    pub change: Option<JobStateChange>,
    /// When the job ended, where the new state is final.
    pub completed_at: Option<Timestamp>,
    /// A new summary of the job.
    pub summary_markdown: Option<String>,
    /// A new execution report of the job.
    pub execution_report: Option<Json>,
    /// What an operator has to approve.
    pub approval_summary: Option<String>,
}

/// The new state of the job.
pub open spec fn reported_change(event: JobLifecycleEvent) -> Option<ChangeView> {
    match event.status {
        Some(status) => Some(
            ChangeView {
                status: status@,
                result: text::opt(event.result),
                failure_class: text::opt(event.failure_class),
            },
        ),
        None => None,
    }
}

/// What an operator has to approve.
pub open spec fn requested_approval(event: JobLifecycleEvent) -> Option<Seq<char>> {
    if event.event_type@ == "job.awaiting_approval"@ {
        Some(
            text::or_value(
                text::present(carried(event).field_text("summary"@)),
                "Approve push for completed job"@,
            ),
        )
    } else {
        None
    }
}

fn add_text(object: JsonObject, key: &str, value: &Option<String>) -> (r: JsonObject)
    ensures
        r.entries() == with_text(object.entries(), key@, text::opt(*value)),
{
    match value {
        Some(v) => object.with_text(key, v.as_str()),
        None => object,
    }
}

/// What a report changes.
pub fn plan_lifecycle_event(event: &JobLifecycleEvent) -> (r: LifecyclePlan)
    ensures
        r.payload.model() == event_payload(*event),
        match r.change {
            Some(change) => reported_change(*event) == Some(change@),
            None => reported_change(*event) is None,
        },
        r.completed_at == if event.status is Some && is_final(event.status.unwrap()@) {
            Some(event.created_at)
        } else {
            None
        },
        text::opt(r.summary_markdown) == text::present(
            carried(*event).field_text("summary_markdown"@),
        ),
        match r.execution_report {
            Some(report) => carried(*event).field("execution_report"@) == Some(report.model()),
            None => carried(*event).field("execution_report"@) is None,
        },
        text::opt(r.approval_summary) == requested_approval(*event),
{
    let payload_value = match &event.payload_json {
        Some(payload) => payload.copy(),
        None => {
            let empty = JsonObject::new();
            assert(empty.entries() =~= seq![]);
            empty.build()
        },
    };
    let start = JsonObject::new().with_text(
        "correlation_id",
        event.correlation_id.as_str(),
    ).with_text("device_id", event.device_id.as_str());
    assert(start.entries() =~= seq![
        ("correlation_id"@, JsonView::Text(event.correlation_id@)),
        ("device_id"@, JsonView::Text(event.device_id@)),
    ]);
    let object = add_text(
        add_text(
            add_text(
                add_text(
                    add_text(start, "status", &event.status),
                    "result",
                    &event.result,
                ),
                "failure_class",
                &event.failure_class,
            ),
            "worktree_path",
            &event.worktree_path,
        ),
        "detail",
        &event.detail,
    ).with("payload", payload_value.copy());
    let (change, completed_at) = match &event.status {
        Some(status) => {
            let ended = same_text(status.as_str(), "completed") || same_text(
                status.as_str(),
                "failed",
            ) || same_text(status.as_str(), "cancelled");
            (
                Some(
                    JobStateChange {
                        status: status.clone(),
                        result: copy_opt(&event.result),
                        failure_class: copy_opt(&event.failure_class),
                    },
                ),
                if ended {
                    Some(event.created_at)
                } else {
                    None
                },
            )
        },
        None => (None, None),
    };
    let summary_markdown = payload_value.present_text("summary_markdown");
    let execution_report = match payload_value.get("execution_report") {
        Some(report) => Some(report.copy()),
        None => None,
    };
    let approval_summary = if same_text(event.event_type.as_str(), "job.awaiting_approval") {
        match payload_value.present_text("summary") {
            Some(summary) => Some(summary),
            None => Some("Approve push for completed job".to_string()),
        }
    } else {
        None
    };
    LifecyclePlan {
        payload: object.build(),
        change,
        completed_at,
        summary_markdown,
        execution_report,
        approval_summary,
    }
}

/// The event of a request for approval.
pub fn approval_requested_event(correlation_id: &str, approval: &ApprovalRecord) -> (r: JobEvent)
    ensures
        r.event_type@ == "approval.requested"@,
        r.payload.model() == JsonView::Object(
            seq![
                ("correlation_id"@, JsonView::Text(correlation_id@)),
                ("approval_id"@, JsonView::Text(approval.id@)),
                ("action_type"@, JsonView::Text(approval.action_type@)),
                ("summary"@, JsonView::Text(approval.summary@)),
            ],
        ),
{
    let object = JsonObject::new().with_text("correlation_id", correlation_id).with_text(
        "approval_id",
        approval.id.as_str(),
    ).with_text("action_type", approval.action_type.as_str()).with_text(
        "summary",
        approval.summary.as_str(),
    );
    assert(object.entries() =~= seq![
        ("correlation_id"@, JsonView::Text(correlation_id@)),
        ("approval_id"@, JsonView::Text(approval.id@)),
        ("action_type"@, JsonView::Text(approval.action_type@)),
        ("summary"@, JsonView::Text(approval.summary@)),
    ]);
    JobEvent { event_type: "approval.requested".to_string(), payload: object.build() }
}

// ---------------------------------------------------------------------------
// What the conversation says
// ---------------------------------------------------------------------------

/// The stored execution report; an empty object counts as none.
pub open spec fn stored_report(stored: Option<JsonView>) -> Option<JsonView> {
    match stored {
        Some(JsonView::Object(entries)) => if entries.len() == 0 {
            None
        } else {
            stored
        },
        _ => stored,
    }
}

/// The model of a value that may be absent.
pub open spec fn opt_json(value: Option<&Json>) -> Option<JsonView> {
    match value {
        Some(v) => Some(v.model()),
        None => None,
    }
}

/// What the execution report and the job say, for the replies.
pub struct ResultFacts {
    pub facts: formatting::ReplyFacts,
    pub last_message: Option<Seq<char>>,
    pub read_only: bool,
}

/// What an execution report says.
pub open spec fn result_facts(report: Option<JsonView>) -> ResultFacts {
    match report {
        Some(r) => ResultFacts {
            facts: formatting::ReplyFacts {
                build: formatting::report_status(r, "build"@),
                test: formatting::report_status(r, "test"@),
                changed: formatting::report_changes(r),
            },
            last_message: match formatting::report_message(r) {
                Some(message) => Some(formatting::sanitized_result(message)),
                None => None,
            },
            read_only: match r.field("execution_intent"@) {
                Some(v) => draft_payload::intent_of(v) == Some(ExecutionIntent::ReadOnly),
                None => false,
            },
        },
        None => ResultFacts {
            facts: formatting::ReplyFacts { build: None, test: None, changed: None },
            last_message: None,
            read_only: false,
        },
    }
}

/// A message of the assistant about a job.
#[derive(Debug)]
pub struct AssistantReply {
    /// Marks the message, so that it is posted once.
    pub status_marker: String,
    pub content: String,
    pub payload: Json,
}

/// The model of such a message.
pub struct ReplyView {
    pub status_marker: Seq<char>,
    pub content: Seq<char>,
    pub payload: JsonView,
}

impl View for AssistantReply {
    type V = ReplyView;

    open spec fn view(&self) -> ReplyView {
        ReplyView {
            status_marker: self.status_marker@,
            content: self.content@,
            payload: self.payload.model(),
        }
    }
}

/// The marker of a reply.
pub open spec fn marker(job_id: Seq<char>, step: Seq<char>) -> Seq<char> {
    "job_event:"@ + job_id + ":"@ + step
}

/// The payload of a reply that reports a result.
pub open spec fn result_payload(job: JobRecord, details: Seq<char>) -> JsonView {
    JsonView::Object(
        seq![
            (
                "job_result"@,
                JsonView::Object(
                    seq![
                        ("job_id"@, JsonView::Text(job.id@)),
                        ("job_short_id"@, JsonView::Text(job.short_id@)),
                        ("details"@, JsonView::Text(details)),
                    ],
                ),
            ),
        ],
    )
}

/// The branch of a job, or a word for a missing one.
pub open spec fn branch_or_unknown(job: JobRecord) -> Seq<char> {
    text::or_value(text::opt(job.branch_name), "unknown"@)
}

/// The reply about a job that started.
pub open spec fn started_reply(job: JobRecord, event: JobLifecycleEvent) -> ReplyView {
    ReplyView {
        status_marker: marker(event.job_id@, "started"@),
        content: "I started working on job `"@ + job.short_id@ + "` for "@ + job.kind().name()
            + " `"@ + job.target() + "` on device `"@ + event.device_id@ + "`."@,
        payload: JsonView::Object(seq![]),
    }
}

/// The reply about a push that started.
pub open spec fn push_started_reply(job: JobRecord, event: JobLifecycleEvent) -> ReplyView {
    ReplyView {
        status_marker: marker(event.job_id@, "push_started"@),
        content: "Push approval landed for job `"@ + job.short_id@
            + "`. I started pushing branch `"@ + branch_or_unknown(job) + "` from device `"@
            + event.device_id@ + "`."@,
        payload: JsonView::Object(seq![]),
    }
}

/// The reply about a push that is done.
pub open spec fn push_completed_reply(job: JobRecord, event: JobLifecycleEvent) -> ReplyView {
    ReplyView {
        status_marker: marker(event.job_id@, "push_completed"@),
        content: "I finished pushing branch `"@ + branch_or_unknown(job) + "` for job `"@
            + job.short_id@ + "` to `origin`."@,
        payload: JsonView::Object(seq![]),
    }
}

/// The reply about a job whose push waits for approval.
pub open spec fn awaiting_reply(
    job: JobRecord,
    event: JobLifecycleEvent,
    facts: ResultFacts,
) -> ReplyView {
    let summary = text::or_value(
        text::present(carried(event).field_text("summary"@)),
        "Push is waiting for approval."@,
    );
    ReplyView {
        status_marker: marker(event.job_id@, "awaiting_approval"@),
        content: match facts.last_message {
            Some(message) => formatting::result_excerpt(message)
                + "\n\nPush approval is pending."@,
            None => "Job `"@ + job.short_id@
                + "` finished its main work and is waiting for push approval."@,
        },
        payload: result_payload(
            job,
            formatting::success_reply(
                formatting::success_headline(job),
                job,
                facts.facts,
                facts.last_message,
                summary,
            ),
        ),
    }
}

/// The reply about a read-only job that succeeded.
pub open spec fn read_only_reply(
    job: JobRecord,
    event: JobLifecycleEvent,
    facts: ResultFacts,
) -> ReplyView {
    ReplyView {
        status_marker: marker(event.job_id@, "completed"@),
        content: match facts.last_message {
            Some(message) => formatting::result_excerpt(message),
            None => "Read-only job `"@ + job.short_id@ + "` finished successfully."@,
        },
        payload: result_payload(
            job,
            formatting::success_reply(
                formatting::read_only_headline(job),
                job,
                facts.facts,
                facts.last_message,
                formatting::read_only_closing(facts.facts.changed),
            ),
        ),
    }
}

/// The reply about a job that succeeded and left nothing to push.
pub open spec fn no_push_reply(
    job: JobRecord,
    event: JobLifecycleEvent,
    facts: ResultFacts,
) -> ReplyView {
    ReplyView {
        status_marker: marker(event.job_id@, "completed"@),
        content: match facts.last_message {
            Some(message) => formatting::result_excerpt(message),
            None => "Job `"@ + job.short_id@
                + "` finished successfully. No push approval was required."@,
        },
        payload: result_payload(
            job,
            formatting::success_reply(
                formatting::success_headline(job),
                job,
                facts.facts,
                facts.last_message,
                "No committed repository changes were produced, so no push approval was required."@,
            ),
        ),
    }
}

/// The reply about a job that failed.
pub open spec fn failed_reply(
    job: JobRecord,
    event: JobLifecycleEvent,
    facts: ResultFacts,
    summary: Option<Seq<char>>,
    step: Seq<char>,
) -> ReplyView {
    let detail = text::present(text::opt(event.detail));
    ReplyView {
        status_marker: marker(event.job_id@, step),
        content: formatting::failure_summary(detail, summary),
        payload: result_payload(
            job,
            text::join(
                text::with_line(
                    formatting::opening_lines(
                        formatting::failure_headline(job),
                        job,
                        facts.facts,
                    ),
                    formatting::failure_line(detail, summary),
                ),
                "\n"@,
            ),
        ),
    }
}

/// The report says that a push has to follow.
pub open spec fn push_required(event: JobLifecycleEvent) -> bool {
    match carried(event).field("push_required"@) {
        Some(v) => text::or_value(v.truth(), false),
        None => false,
    }
}

/// What the conversation says about a report.
pub open spec fn thread_reply(
    job: JobRecord,
    event: JobLifecycleEvent,
    report: Option<JsonView>,
    summary: Option<Seq<char>>,
) -> Option<ReplyView> {
    let kind = event.event_type@;
    let facts = result_facts(report);
    let succeeded = text::opt(event.result) == Some("success"@);
    if kind == "job.started"@ {
        Some(started_reply(job, event))
    } else if kind == "job.push_started"@ {
        Some(push_started_reply(job, event))
    } else if kind == "job.push_completed"@ {
        Some(push_completed_reply(job, event))
    } else if kind == "job.awaiting_approval"@ {
        Some(awaiting_reply(job, event, facts))
    } else if kind == "job.completed"@ {
        if !succeeded {
            Some(failed_reply(job, event, facts, summary, "completed"@))
        } else if facts.read_only {
            Some(read_only_reply(job, event, facts))
        } else if push_required(event) {
            None
        } else {
            Some(no_push_reply(job, event, facts))
        }
    } else if kind == "job.failed"@ {
        Some(failed_reply(job, event, facts, summary, "failed"@))
    } else {
        None
    }
}

fn empty_payload() -> (r: Json)
    ensures
        r.model() == JsonView::Object(seq![]),
{
    let object = JsonObject::new();
    assert(object.entries() =~= seq![]);
    object.build()
}

fn completion_payload(job: &JobRecord, details: &str) -> (r: Json)
    ensures
        r.model() == result_payload(*job, details@),
{
    let inner = JsonObject::new().with_text("job_id", job.id.as_str()).with_text(
        "job_short_id",
        job.short_id.as_str(),
    ).with_text("details", details);
    let ghost fields = seq![
        ("job_id"@, JsonView::Text(job.id@)),
        ("job_short_id"@, JsonView::Text(job.short_id@)),
        ("details"@, JsonView::Text(details@)),
    ];
    assert(inner.entries() =~= fields);
    let object = JsonObject::new().with("job_result", inner.build());
    assert(object.entries() =~= seq![("job_result"@, JsonView::Object(fields))]);
    object.build()
}

fn reply_marker(job_id: &str, step: &str) -> (r: String)
    ensures
        r@ == marker(job_id@, step@),
{
    "job_event:".to_string().concat(job_id).concat(":").concat(step)
}

/// What an execution report says.
struct ReportFacts {
    build: Option<String>,
    test: Option<String>,
    changed: Option<usize>,
    last_message: Option<String>,
    read_only: bool,
}

impl ReportFacts {
    spec fn model(self) -> ResultFacts {
        ResultFacts {
            facts: formatting::ReplyFacts {
                build: text::opt(self.build),
                test: text::opt(self.test),
                changed: match self.changed {
                    Some(n) => Some(n as nat),
                    None => None,
                },
            },
            last_message: text::opt(self.last_message),
            read_only: self.read_only,
        }
    }
}

fn read_report(report: Option<&Json>) -> (r: ReportFacts)
    ensures
        r.model() == result_facts(opt_json(report)),
{
    match report {
        Some(report) => {
            let last_message = match execution_report_last_message(report) {
                Some(message) => Some(sanitize_chat_result_text(message.as_str())),
                None => None,
            };
            let read_only = match report.get("execution_intent") {
                Some(value) => match decode_intent(value) {
                    Some(ExecutionIntent::ReadOnly) => true,
                    _ => false,
                },
                None => false,
            };
            ReportFacts {
                build: execution_report_status(report, "build"),
                test: execution_report_status(report, "test"),
                changed: execution_report_changed_entries(report),
                last_message,
                read_only,
            }
        },
        None => ReportFacts {
            build: None,
            test: None,
            changed: None,
            last_message: None,
            read_only: false,
        },
    }
}

/// The stored execution report; an empty object counts as none.
pub fn meaningful_report(stored: Option<&Json>) -> (r: Option<&Json>)
    ensures
        opt_json(r) == stored_report(opt_json(stored)),
{
    match stored {
        Some(Json::Object(entries)) => {
            assert(json::fields_view(entries@).len() == entries@.len());
            if entries.len() == 0 {
                None
            } else {
                stored
            }
        },
        _ => stored,
    }
}

fn branch_text(job: &JobRecord) -> (r: String)
    ensures
        r@ == branch_or_unknown(*job),
{
    match &job.branch_name {
        Some(branch) => branch.clone(),
        None => "unknown".to_string(),
    }
}

fn reply_started(job: &JobRecord, event: &JobLifecycleEvent) -> (r: AssistantReply)
    ensures
        r@ == started_reply(*job, *event),
{
    let target = job.target_name();
    AssistantReply {
        status_marker: reply_marker(event.job_id.as_str(), "started"),
        content: "I started working on job `".to_string().concat(job.short_id.as_str()).concat(
            "` for ",
        ).concat(job.target_kind_enum().as_str()).concat(" `").concat(target.as_str()).concat(
            "` on device `",
        ).concat(event.device_id.as_str()).concat("`."),
        payload: empty_payload(),
    }
}

fn reply_push_started(job: &JobRecord, event: &JobLifecycleEvent) -> (r: AssistantReply)
    ensures
        r@ == push_started_reply(*job, *event),
{
    let branch = branch_text(job);
    AssistantReply {
        status_marker: reply_marker(event.job_id.as_str(), "push_started"),
        content: "Push approval landed for job `".to_string().concat(job.short_id.as_str()).concat(
            "`. I started pushing branch `",
        ).concat(branch.as_str()).concat("` from device `").concat(
            event.device_id.as_str(),
        ).concat("`."),
        payload: empty_payload(),
    }
}

fn reply_push_completed(job: &JobRecord, event: &JobLifecycleEvent) -> (r: AssistantReply)
    ensures
        r@ == push_completed_reply(*job, *event),
{
    let branch = branch_text(job);
    AssistantReply {
        status_marker: reply_marker(event.job_id.as_str(), "push_completed"),
        content: "I finished pushing branch `".to_string().concat(branch.as_str()).concat(
            "` for job `",
        ).concat(job.short_id.as_str()).concat("` to `origin`."),
        payload: empty_payload(),
    }
}

fn reply_awaiting(job: &JobRecord, event: &JobLifecycleEvent, facts: &ReportFacts) -> (r:
    AssistantReply)
    ensures
        r@ == awaiting_reply(*job, *event, facts.model()),
{
    let summary = match &event.payload_json {
        Some(payload) => match payload.present_text("summary") {
            Some(summary) => summary,
            None => "Push is waiting for approval.".to_string(),
        },
        None => {
            assert(carried(*event).field("summary"@) is None);
            "Push is waiting for approval.".to_string()
        },
    };
    let details = format_success_reply(
        job,
        opt_slice(&facts.build),
        opt_slice(&facts.test),
        facts.changed,
        opt_slice(&facts.last_message),
        summary.as_str(),
    );
    let content = match &facts.last_message {
        Some(message) => primary_result_excerpt(message.as_str()).concat(
            "\n\nPush approval is pending.",
        ),
        None => "Job `".to_string().concat(job.short_id.as_str()).concat(
            "` finished its main work and is waiting for push approval.",
        ),
    };
    AssistantReply {
        status_marker: reply_marker(event.job_id.as_str(), "awaiting_approval"),
        content,
        payload: completion_payload(job, details.as_str()),
    }
}

fn reply_read_only(job: &JobRecord, event: &JobLifecycleEvent, facts: &ReportFacts) -> (r:
    AssistantReply)
    ensures
        r@ == read_only_reply(*job, *event, facts.model()),
{
    let details = format_read_only_success_reply(
        job,
        opt_slice(&facts.build),
        opt_slice(&facts.test),
        facts.changed,
        opt_slice(&facts.last_message),
    );
    let content = match &facts.last_message {
        Some(message) => primary_result_excerpt(message.as_str()),
        None => "Read-only job `".to_string().concat(job.short_id.as_str()).concat(
            "` finished successfully.",
        ),
    };
    AssistantReply {
        status_marker: reply_marker(event.job_id.as_str(), "completed"),
        content,
        payload: completion_payload(job, details.as_str()),
    }
}

fn reply_no_push(job: &JobRecord, event: &JobLifecycleEvent, facts: &ReportFacts) -> (r:
    AssistantReply)
    ensures
        r@ == no_push_reply(*job, *event, facts.model()),
{
    let details = format_success_without_push_reply(
        job,
        opt_slice(&facts.build),
        opt_slice(&facts.test),
        facts.changed,
        opt_slice(&facts.last_message),
    );
    let content = match &facts.last_message {
        Some(message) => primary_result_excerpt(message.as_str()),
        None => "Job `".to_string().concat(job.short_id.as_str()).concat(
            "` finished successfully. No push approval was required.",
        ),
    };
    AssistantReply {
        status_marker: reply_marker(event.job_id.as_str(), "completed"),
        content,
        payload: completion_payload(job, details.as_str()),
    }
}

fn reply_failed(
    job: &JobRecord,
    event: &JobLifecycleEvent,
    facts: &ReportFacts,
    summary: Option<&SummaryRecord>,
    step: &str,
) -> (r: AssistantReply)
    ensures
        r@ == failed_reply(
            *job,
            *event,
            facts.model(),
            formatting::summary_content(summary),
            step@,
        ),
{
    let detail = formatting::sanitize_optional_string(copy_opt(&event.detail));
    let details = format_failure_reply(
        job,
        opt_slice(&facts.build),
        opt_slice(&facts.test),
        facts.changed,
        opt_slice(&detail),
        summary,
    );
    AssistantReply {
        status_marker: reply_marker(event.job_id.as_str(), step),
        content: format_failure_result_summary(opt_slice(&detail), summary),
        payload: completion_payload(job, details.as_str()),
    }
}

fn needs_push(event: &JobLifecycleEvent) -> (r: bool)
    ensures
        r == push_required(*event),
{
    match &event.payload_json {
        Some(payload) => match payload.get("push_required") {
            Some(value) => match value.as_bool() {
                Some(required) => required,
                None => false,
            },
            None => false,
        },
        None => {
            assert(carried(*event).field("push_required"@) is None);
            false
        },
    }
}

/// What the conversation says about a report.
pub fn build_thread_assistant_reply(
    job: &JobRecord,
    event: &JobLifecycleEvent,
    execution_report: Option<&Json>,
    summary: Option<&SummaryRecord>,
) -> (r: Option<AssistantReply>)
    ensures
        match r {
            Some(reply) => thread_reply(
                *job,
                *event,
                stored_report(opt_json(execution_report)),
                formatting::summary_content(summary),
            ) == Some(reply@),
            None => thread_reply(
                *job,
                *event,
                stored_report(opt_json(execution_report)),
                formatting::summary_content(summary),
            ) is None,
        },
{
    let facts = read_report(meaningful_report(execution_report));
    let kind = event.event_type.as_str();
    if same_text(kind, "job.started") {
        return Some(reply_started(job, event));
    }
    if same_text(kind, "job.push_started") {
        return Some(reply_push_started(job, event));
    }
    if same_text(kind, "job.push_completed") {
        return Some(reply_push_completed(job, event));
    }
    if same_text(kind, "job.awaiting_approval") {
        return Some(reply_awaiting(job, event, &facts));
    }
    if same_text(kind, "job.completed") {
        let succeeded = match &event.result {
            Some(result) => same_text(result.as_str(), "success"),
            None => false,
        };
        if !succeeded {
            return Some(reply_failed(job, event, &facts, summary, "completed"));
        }
        if facts.read_only {
            return Some(reply_read_only(job, event, &facts));
        }
        if needs_push(event) {
            return None;
        }
        return Some(reply_no_push(job, event, &facts));
    }
    if same_text(kind, "job.failed") {
        return Some(reply_failed(job, event, &facts, summary, "failed"));
    }
    None
}

/// Two replies about one job have one marker exactly where they are about one
/// step, so that no step is reported twice.
pub proof fn law_marker_tells_steps_apart(job_id: Seq<char>, a: Seq<char>, b: Seq<char>)
    ensures
        marker(job_id, a) == marker(job_id, b) <==> a == b,
{
    let front = "job_event:"@ + job_id + ":"@;
    if marker(job_id, a) == marker(job_id, b) {
        assert(marker(job_id, a).skip(front.len() as int) =~= a);
        assert(marker(job_id, b).skip(front.len() as int) =~= b);
    }
}

} // verus!
