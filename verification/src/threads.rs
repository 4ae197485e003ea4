//! What the operator writes into a thread, and the jobs that come of it.

use crate::conversation;
use crate::conversation::summarize_text;
use crate::dispatch::CreateJobRequest;
use crate::draft_payload;
use crate::draft_payload::message_execution_draft;
use crate::drafts;
use crate::drafts::infer_execution_intent;
use crate::error;
use crate::error::{AppError, ErrorStatus, ErrorView};
use crate::formatting;
use crate::formatting::{execution_intent_note, sanitize_optional_string};
use crate::models::{DraftView, ExecutionIntent, JobRecord, JobTargetKind, MessageRecord};
use crate::scan;
use crate::scan::{chars_of, trim_text};
use crate::text;
use crate::titles;
use crate::titles::derive_job_title_from_message;
use vstd::prelude::*;

verus! {

/// The roles that a message may have.
pub const MESSAGE_ROLES: [&'static str; 3] = ["user", "assistant", "system"];

/// The roles of messages that jobs may come of.
pub const DISPATCH_ROLES: [&'static str; 2] = ["user", "assistant"];

/// The trimmed text, which must not be empty.
pub open spec fn required(value: Seq<char>, message: Seq<char>) -> Result<Seq<char>, ErrorView> {
    if text::is_blank(value) {
        Err(error::plain(ErrorStatus::BadRequest, message))
    } else {
        Ok(text::trim(value))
    }
}

/// The model of a text or of the reason why there is none.
pub open spec fn text_result(r: Result<String, AppError>) -> Result<Seq<char>, ErrorView> {
    match r {
        Ok(s) => Ok(s@),
        Err(e) => Err(e@),
    }
}

fn require_text(value: &str, message: &str) -> (r: Result<String, AppError>)
    ensures
        text_result(r) == required(value@, message@),
{
    let trimmed = trim_text(value);
    if chars_of(trimmed.as_str()).len() == 0 {
        Err(AppError::bad_request(message))
    } else {
        Ok(trimmed)
    }
}

/// The title of a new thread.
pub fn thread_title(title: &str) -> (r: Result<String, AppError>)
    ensures
        text_result(r) == required(title@, "thread title is required"@),
{
    require_text(title, "thread title is required")
}

/// The content of a chat message.
pub fn chat_content(content: &str) -> (r: Result<String, AppError>)
    ensures
        text_result(r) == required(content@, "message content is required"@),
{
    require_text(content, "message content is required")
}

/// The content of a message with a role.
pub fn message_content(role: &str, content: &str) -> (r: Result<String, AppError>)
    ensures
        text_result(r) == match required(content@, "message content is required"@) {
            Err(e) => Err::<Seq<char>, ErrorView>(e),
            Ok(c) => if text::is_any(role@, MESSAGE_ROLES@) {
                Ok(c)
            } else {
                Err(
                    error::plain(
                        ErrorStatus::BadRequest,
                        "message role must be one of: user, assistant, system"@,
                    ),
                )
            },
        },
{
    let trimmed = match require_text(content, "message content is required") {
        Ok(trimmed) => trimmed,
        Err(e) => return Err(e),
    };
    let roles = MESSAGE_ROLES;
    if scan::is_any(role, roles.as_slice()) {
        Ok(trimmed)
    } else {
        Err(AppError::bad_request("message role must be one of: user, assistant, system"))
    }
}

// ---------------------------------------------------------------------------
// Jobs that come of a message
// ---------------------------------------------------------------------------

/// A request to make a job of a message.
#[derive(Debug)]
pub struct DispatchThreadMessageRequest {
    pub source_message_id: String,
    pub title: Option<String>,
    pub target_kind: JobTargetKind,
    pub target_name: Option<String>,
    pub base_branch: Option<String>,
    pub device_id: Option<String>,
    pub prompt: Option<String>,
    pub execution_intent: Option<ExecutionIntent>,
}

/// The model of a request for a job.
pub struct JobRequestView {
    pub title: Seq<char>,
    pub prompt: Seq<char>,
    pub target_kind: JobTargetKind,
    pub target_name: Option<Seq<char>>,
    pub base_branch: Option<Seq<char>>,
    pub device_id: Option<Seq<char>>,
    pub execution_intent: Option<ExecutionIntent>,
}

/// The model of a request for a job.
pub open spec fn job_request_view(r: CreateJobRequest) -> JobRequestView {
    JobRequestView {
        title: r.title@,
        prompt: r.prompt@,
        target_kind: r.target_kind,
        target_name: text::opt(r.target_name),
        base_branch: text::opt(r.base_branch),
        device_id: text::opt(r.device_id),
        execution_intent: r.execution_intent,
    }
}

/// What the request says, else what the draft of the message says, else the
/// message itself.
pub open spec fn handoff_prompt(
    request: DispatchThreadMessageRequest,
    draft: Option<DraftView>,
    content: Seq<char>,
) -> Seq<char> {
    text::or_value(
        text::or_else(
            text::present(text::opt(request.prompt)),
            match draft {
                Some(d) => Some(d.request_text),
                None => None,
            },
        ),
        text::trim(content),
    )
}

/// The job that the request makes of the message.
pub open spec fn handoff_job(
    request: DispatchThreadMessageRequest,
    draft: Option<DraftView>,
    prompt: Seq<char>,
) -> JobRequestView {
    JobRequestView {
        title: text::or_value(
            text::or_else(
                text::present(text::opt(request.title)),
                match draft {
                    Some(d) => Some(d.title),
                    None => None,
                },
            ),
            titles::job_title(prompt),
        ),
        prompt,
        target_kind: request.target_kind,
        target_name: text::or_else(
            text::present(text::opt(request.target_name)),
            match draft {
                Some(d) => d.repo_name,
                None => None,
            },
        ),
        base_branch: text::or_else(
            text::present(text::opt(request.base_branch)),
            match draft {
                Some(d) => Some(d.base_branch),
                None => None,
            },
        ),
        device_id: text::opt(request.device_id),
        execution_intent: Some(
            text::or_value(
                text::or_else(
                    request.execution_intent,
                    match draft {
                        Some(d) => Some(d.execution_intent),
                        None => None,
                    },
                ),
                drafts::inferred_intent(prompt),
            ),
        ),
    }
}

/// The job that the request makes of the message, or why it makes none.
pub open spec fn handoff(
    request: DispatchThreadMessageRequest,
    source: MessageRecord,
) -> Result<JobRequestView, ErrorView> {
    let draft = draft_payload::message_draft(source);
    let prompt = handoff_prompt(request, draft, source.content@);
    if !text::is_any(source.role@, DISPATCH_ROLES@) {
        Err(
            error::plain(
                ErrorStatus::BadRequest,
                "only user or assistant messages can be dispatched"@,
            ),
        )
    } else if prompt.len() == 0 {
        Err(error::plain(ErrorStatus::BadRequest, "source message content is required"@))
    } else {
        Ok(handoff_job(request, draft, prompt))
    }
}

/// The model of a job request or of the reason why there is none.
pub open spec fn job_request_result(r: Result<CreateJobRequest, AppError>) -> Result<
    JobRequestView,
    ErrorView,
> {
    match r {
        Ok(job) => Ok(job_request_view(job)),
        Err(e) => Err(e@),
    }
}

/// The job that the request makes of the message.
pub fn handoff_request(request: DispatchThreadMessageRequest, source: &MessageRecord) -> (r: Result<
    CreateJobRequest,
    AppError,
>)
    ensures
        job_request_result(r) == handoff(request, *source),
{
    let roles = DISPATCH_ROLES;
    if !scan::is_any(source.role.as_str(), roles.as_slice()) {
        return Err(AppError::bad_request("only user or assistant messages can be dispatched"));
    }
    let (draft_title, draft_repo, draft_branch, draft_text, draft_intent) =
        match message_execution_draft(source) {
        Some(draft) => (
            Some(draft.title),
            draft.repo_name,
            Some(draft.base_branch),
            Some(draft.request_text),
            Some(draft.execution_intent),
        ),
        None => (None, None, None, None, None),
    };
    let prompt = match sanitize_optional_string(request.prompt) {
        Some(prompt) => prompt,
        None => match draft_text {
            Some(prompt) => prompt,
            None => trim_text(source.content.as_str()),
        },
    };
    if chars_of(prompt.as_str()).len() == 0 {
        return Err(AppError::bad_request("source message content is required"));
    }
    let title = match sanitize_optional_string(request.title) {
        Some(title) => title,
        None => match draft_title {
            Some(title) => title,
            None => derive_job_title_from_message(prompt.as_str()),
        },
    };
    let target_name = match sanitize_optional_string(request.target_name) {
        Some(name) => Some(name),
        None => draft_repo,
    };
    let base_branch = match sanitize_optional_string(request.base_branch) {
        Some(branch) => Some(branch),
        None => draft_branch,
    };
    let execution_intent = match request.execution_intent {
        Some(intent) => intent,
        None => match draft_intent {
            Some(intent) => intent,
            None => infer_execution_intent(prompt.as_str()),
        },
    };
    Ok(
        CreateJobRequest {
            title,
            prompt,
            target_kind: request.target_kind,
            target_name,
            base_branch,
            device_id: request.device_id,
            execution_intent: Some(execution_intent),
        },
    )
}

/// What the thread says once a message has become a job.
pub fn handoff_acknowledgement(
    source: &MessageRecord,
    job: &JobRecord,
    intent: &ExecutionIntent,
    prompt: &str,
) -> (r: String)
    ensures
        r@ == "Escalated "@ + source.role@ + " message `"@ + source.id@ + "` into job `"@
            + job.short_id@ + "` for "@ + job.kind().name() + " `"@ + job.target() + "` in "@
            + formatting::intent_note(*intent) + " mode.\nRequest summary: "@
            + conversation::summarized(prompt@, 160),
{
    let target = job.target_name();
    let summary = summarize_text(prompt, 160);
    "Escalated ".to_string().concat(source.role.as_str()).concat(" message `").concat(
        source.id.as_str(),
    ).concat("` into job `").concat(job.short_id.as_str()).concat("` for ").concat(
        job.target_kind_enum().as_str(),
    ).concat(" `").concat(target.as_str()).concat("` in ").concat(
        execution_intent_note(intent),
    ).concat(" mode.\nRequest summary: ").concat(summary.as_str())
}

// ---------------------------------------------------------------------------
// Jobs that are asked for directly
// ---------------------------------------------------------------------------

/// A request to write a message and make a job of it at once.
#[derive(Debug)]
pub struct CreateChatDispatchRequest {
    pub content: String,
    pub title: Option<String>,
    pub target_kind: JobTargetKind,
    pub target_name: Option<String>,
    pub base_branch: Option<String>,
    pub device_id: Option<String>,
    pub execution_intent: Option<ExecutionIntent>,
}

/// The job that such a request asks for.
pub open spec fn chat_job(request: CreateChatDispatchRequest) -> Result<JobRequestView, ErrorView> {
    match required(request.content@, "message content is required"@) {
        Err(e) => Err(e),
        Ok(content) => Ok(
            JobRequestView {
                title: text::or_value(
                    text::present(text::opt(request.title)),
                    titles::job_title(content),
                ),
                prompt: content,
                target_kind: request.target_kind,
                target_name: text::present(text::opt(request.target_name)),
                base_branch: text::present(text::opt(request.base_branch)),
                device_id: text::opt(request.device_id),
                execution_intent: Some(
                    text::or_value(request.execution_intent, drafts::inferred_intent(content)),
                ),
            },
        ),
    }
}

/// The job that such a request asks for.
pub fn chat_dispatch_request(request: CreateChatDispatchRequest) -> (r: Result<
    CreateJobRequest,
    AppError,
>)
    ensures
        job_request_result(r) == chat_job(request),
{
    let content = match require_text(request.content.as_str(), "message content is required") {
        Ok(content) => content,
        Err(e) => return Err(e),
    };
    let title = match sanitize_optional_string(request.title) {
        Some(title) => title,
        None => derive_job_title_from_message(content.as_str()),
    };
    let execution_intent = match request.execution_intent {
        Some(intent) => intent,
        None => infer_execution_intent(content.as_str()),
    };
    Ok(
        CreateJobRequest {
            title,
            prompt: content,
            target_kind: request.target_kind,
            target_name: sanitize_optional_string(request.target_name),
            base_branch: sanitize_optional_string(request.base_branch),
            device_id: request.device_id,
            execution_intent: Some(execution_intent),
        },
    )
}

/// What the thread says once a job was asked for directly.
pub fn dispatch_acknowledgement(job: &JobRecord, intent: &ExecutionIntent) -> (r: String)
    ensures
        r@ == "Created job `"@ + job.short_id@ + "` with status `"@ + job.status@
            + "` on device `"@ + text::or_value(text::opt(job.device_id), "unassigned"@)
            + "` for "@ + job.kind().name() + " `"@ + job.target() + "` in "@
            + formatting::intent_note(*intent) + " mode."@,
{
    let device = match &job.device_id {
        Some(device) => device.clone(),
        None => "unassigned".to_string(),
    };
    let target = job.target_name();
    "Created job `".to_string().concat(job.short_id.as_str()).concat("` with status `").concat(
        job.status.as_str(),
    ).concat("` on device `").concat(device.as_str()).concat("` for ").concat(
        job.target_kind_enum().as_str(),
    ).concat(" `").concat(target.as_str()).concat("` in ").concat(
        execution_intent_note(intent),
    ).concat(" mode.")
}

} // verus!
