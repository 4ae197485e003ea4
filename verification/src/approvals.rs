//! Decisions of an operator on what a job asks for.

use crate::dispatch;
use crate::dispatch::{push_approval_command, JobApprovalCommand, JobEvent};
use crate::error;
use crate::error::{AppError, ErrorStatus, ErrorView};
use crate::formatting::sanitize_optional_string;
use crate::json;
use crate::json::{JsonObject, JsonView};
use crate::models::{ApprovalRecord, JobRecord};
use crate::scan;
use crate::scan::{opt_slice, same_text, trim_text};
use crate::text;
use crate::time::Timestamp;
use vstd::prelude::*;

verus! {

/// The decision on an approval.
#[derive(Clone, Copy, Debug, PartialEq, Eq, Structural)]
pub enum Resolution {
    /// It may happen.
    Approved,
    /// It may not.
    Rejected,
}

impl Resolution {
    /// The stored name.
    pub open spec fn name(self) -> Seq<char> {
        match self {
            Resolution::Approved => "approved"@,
            Resolution::Rejected => "rejected"@,
        }
    }

    /// The stored name.
    pub fn as_str(&self) -> (r: &'static str)
        ensures
            r@ == self.name(),
    {
        match self {
            Resolution::Approved => "approved",
            Resolution::Rejected => "rejected",
        }
    }
}

/// The decision that a text names, whatever its case.
pub open spec fn named_resolution(value: Seq<char>) -> Option<Resolution> {
    let name = text::lower(text::trim(value));
    if name == "approved"@ {
        Some(Resolution::Approved)
    } else if name == "rejected"@ {
        Some(Resolution::Rejected)
    } else {
        None
    }
}

/// A request to decide on an approval.
#[derive(Debug)]
pub struct ResolveApprovalRequest {
    pub status: String,
    pub resolved_by: Option<String>,
    pub reason: Option<String>,
}

/// A decision that can be stored.
#[derive(Debug)]
pub struct ApprovalDecision {
    pub resolution: Resolution,
    pub resolved_by: Option<String>,
    pub reason: Option<String>,
}

/// The decision that a request stands for.
pub fn read_decision(request: ResolveApprovalRequest) -> (r: Result<ApprovalDecision, AppError>)
    ensures
        match r {
            Ok(d) => {
                &&& named_resolution(request.status@) == Some(d.resolution)
                &&& text::opt(d.resolved_by) == text::present(text::opt(request.resolved_by))
                &&& text::opt(d.reason) == text::present(text::opt(request.reason))
            },
            Err(e) => named_resolution(request.status@) is None && e@ == error::plain(
                ErrorStatus::BadRequest,
                "approval status must be `approved` or `rejected`"@,
            ),
        },
{
    let name = scan::lower_text(trim_text(request.status.as_str()).as_str());
    let resolution = if same_text(name.as_str(), "approved") {
        Resolution::Approved
    } else if same_text(name.as_str(), "rejected") {
        Resolution::Rejected
    } else {
        return Err(
            AppError::bad_request("approval status must be `approved` or `rejected`"),
        );
    };
    Ok(
        ApprovalDecision {
            resolution,
            resolved_by: sanitize_optional_string(request.resolved_by),
            reason: sanitize_optional_string(request.reason),
        },
    )
}

/// Succeeds where nobody has decided yet.
pub fn ensure_pending(approval: &ApprovalRecord) -> (r: Result<(), AppError>)
    ensures
        match r {
            Ok(_) => approval.status@ == "pending"@,
            Err(e) => approval.status@ != "pending"@ && e@ == error::plain(
                ErrorStatus::Conflict,
                "approval has already been resolved"@,
            ),
        },
{
    if same_text(approval.status.as_str(), "pending") {
        Ok(())
    } else {
        Err(AppError::conflict("approval has already been resolved"))
    }
}

/// An approval that is open again because the device could not be told.
#[derive(Debug)]
pub struct ReopenedApproval {
    /// What is recorded of it.
    pub event: JobEvent,
    /// What the request is answered with.
    pub error: AppError,
}

/// The approval is open again, and `reason` says why the device could not be
/// told.
pub open spec fn is_reopened(
    x: ReopenedApproval,
    approval: ApprovalRecord,
    reason: Seq<char>,
) -> bool {
    &&& x.event.event_type@ == "approval.dispatch_failed"@
    &&& x.event.payload.model() == JsonView::Object(
        seq![
            ("approval_id"@, JsonView::Text(approval.id@)),
            ("action_type"@, JsonView::Text(approval.action_type@)),
            ("error"@, JsonView::Text(reason)),
        ],
    )
    &&& x.error@ == error::plain(
        ErrorStatus::Internal,
        "failed to publish approved push command"@,
    )
}

/// What follows a stored decision.
#[derive(Debug)]
pub enum AfterDecision {
    /// Nothing has to be sent.
    Record,
    /// The device is told to push.
    Publish(JobApprovalCommand),
    /// The approval is open again, and the request is answered with the error.
    Reopen(AppError),
    /// The approval is open again because the device could not be told.
    ReopenUnsent(ReopenedApproval),
}

/// The decision lets a branch be pushed.
pub open spec fn allows_push(resolution: Resolution, approval: ApprovalRecord) -> bool {
    resolution is Approved && approval.action_type@ == "push"@
}

/// Why a push that was allowed cannot even be tried.
pub open spec fn reopened_with(job: JobRecord) -> Option<ErrorView> {
    if job.device_id is None {
        Some(
            error::plain(
                ErrorStatus::Conflict,
                "approved push job is missing an assigned device"@,
            ),
        )
    } else if job.branch_name is None {
        Some(
            error::plain(
                ErrorStatus::Conflict,
                "approved push job is missing a branch name"@,
            ),
        )
    } else {
        None
    }
}

/// What follows a stored decision: a push that was allowed is sent to the
/// device of the job, or the approval is open again.
pub fn after_decision(
    resolution: Resolution,
    approval: &ApprovalRecord,
    job: &JobRecord,
    now: Timestamp,
) -> (r: AfterDecision)
    ensures
        match r {
            AfterDecision::Record => !allows_push(resolution, *approval),
            AfterDecision::Reopen(e) => allows_push(resolution, *approval) && reopened_with(*job)
                == Some(e@),
            AfterDecision::ReopenUnsent(x) => {
                &&& allows_push(resolution, *approval)
                &&& reopened_with(*job) is None
                &&& dispatch::push_refusal(*job) matches Some(e) && is_reopened(
                    x,
                    *approval,
                    e.error,
                )
            },
            AfterDecision::Publish(c) => {
                &&& allows_push(resolution, *approval)
                &&& reopened_with(*job) is None
                &&& dispatch::push_refusal(*job) is None
                &&& dispatch::is_push_command(c, *approval, *job, now)
            },
        },
{
    let approved = match resolution {
        Resolution::Approved => true,
        Resolution::Rejected => false,
    };
    if !(approved && same_text(approval.action_type.as_str(), "push")) {
        return AfterDecision::Record;
    }
    if job.device_id.is_none() {
        return AfterDecision::Reopen(
            AppError::conflict("approved push job is missing an assigned device"),
        );
    }
    if job.branch_name.is_none() {
        return AfterDecision::Reopen(
            AppError::conflict("approved push job is missing a branch name"),
        );
    }
    match push_approval_command(approval, job, now) {
        Ok(command) => AfterDecision::Publish(command),
        Err(e) => AfterDecision::ReopenUnsent(reopened(approval, e.error.as_str())),
    }
}

fn reopened(approval: &ApprovalRecord, reason: &str) -> (r: ReopenedApproval)
    ensures
        is_reopened(r, *approval, reason@),
{
    let object = JsonObject::new().with_text("approval_id", approval.id.as_str()).with_text(
        "action_type",
        approval.action_type.as_str(),
    ).with_text("error", reason);
    assert(object.entries() =~= seq![
        ("approval_id"@, JsonView::Text(approval.id@)),
        ("action_type"@, JsonView::Text(approval.action_type@)),
        ("error"@, JsonView::Text(reason@)),
    ]);
    ReopenedApproval {
        event: JobEvent {
            event_type: "approval.dispatch_failed".to_string(),
            payload: object.build(),
        },
        error: AppError::internal("failed to publish approved push command"),
    }
}

/// What follows the order to a device to push: nothing where it was sent. Where
/// it was not, the approval is open again, and the request is answered with an
/// error.
pub fn after_approval_publish(approval: &ApprovalRecord, publish_error: Option<&str>) -> (r: Option<
    ReopenedApproval,
>)
    ensures
        publish_error is None <==> r is None,
        r matches Some(x) ==> publish_error matches Some(reason) && is_reopened(
            x,
            *approval,
            reason@,
        ),
{
    match publish_error {
        Some(reason) => Some(reopened(approval, reason)),
        None => None,
    }
}

/// The event of a decision.
pub fn resolved_event(
    resolution: Resolution,
    approval: &ApprovalRecord,
    correlation_id: &str,
) -> (r: JobEvent)
    ensures
        r.event_type@ == "approval."@ + resolution.name(),
        r.payload.model() == JsonView::Object(
            seq![
                ("correlation_id"@, JsonView::Text(correlation_id@)),
                ("approval_id"@, JsonView::Text(approval.id@)),
                ("action_type"@, JsonView::Text(approval.action_type@)),
                ("resolved_by"@, json::optional_text(text::opt(approval.resolved_by))),
                ("reason"@, json::optional_text(text::opt(approval.resolution_reason))),
            ],
        ),
{
    let object = JsonObject::new().with_text("correlation_id", correlation_id).with_text(
        "approval_id",
        approval.id.as_str(),
    ).with_text("action_type", approval.action_type.as_str()).with_optional_text(
        "resolved_by",
        opt_slice(&approval.resolved_by),
    ).with_optional_text("reason", opt_slice(&approval.resolution_reason));
    assert(object.entries() =~= seq![
        ("correlation_id"@, JsonView::Text(correlation_id@)),
        ("approval_id"@, JsonView::Text(approval.id@)),
        ("action_type"@, JsonView::Text(approval.action_type@)),
        ("resolved_by"@, json::optional_text(text::opt(approval.resolved_by))),
        ("reason"@, json::optional_text(text::opt(approval.resolution_reason))),
    ]);
    JobEvent {
        event_type: "approval.".to_string().concat(resolution.as_str()),
        payload: object.build(),
    }
}

/// Whether the decision ends the job: it does unless a push follows.
pub fn completes_job(resolution: Resolution, approval: &ApprovalRecord) -> (r: bool)
    ensures
        r == !allows_push(resolution, *approval),
{
    match resolution {
        Resolution::Rejected => true,
        Resolution::Approved => !same_text(approval.action_type.as_str(), "push"),
    }
}

/// A decision that is stored under its name is not made again.
pub proof fn law_decisions_are_final(resolution: Resolution)
    ensures
        resolution.name() != "pending"@,
{
    reveal_strlit("approved");
    reveal_strlit("rejected");
    reveal_strlit("pending");
    assert("pending"@.len() == 7);
    assert(resolution.name().len() == 8);
}

} // verus!
