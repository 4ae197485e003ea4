//! Notices to the user interface that a resource changed.

use crate::ids;
use crate::ids::new_id;
use crate::text;
use crate::time;
use crate::time::Timestamp;
use vstd::prelude::*;

verus! {

/// A notice that tells the user interface which resource changed.
#[derive(Debug)]
pub struct UiEvent {
    pub event_id: String,
    pub event_type: String,
    pub resource_kind: String,
    pub resource_id: Option<String>,
    pub action: String,
    pub thread_id: Option<String>,
    pub job_id: Option<String>,
    pub device_id: Option<String>,
    pub created_at: Timestamp,
}

/// What a notice is about.
pub struct SubjectView {
    pub event_type: Seq<char>,
    pub resource_kind: Seq<char>,
    pub resource_id: Option<Seq<char>>,
    pub action: Seq<char>,
    pub thread_id: Option<Seq<char>>,
    pub job_id: Option<Seq<char>>,
    pub device_id: Option<Seq<char>>,
}

impl UiEvent {
    /// What the notice is about.
    pub open spec fn subject(self) -> SubjectView {
        SubjectView {
            event_type: self.event_type@,
            resource_kind: self.resource_kind@,
            resource_id: text::opt(self.resource_id),
            action: self.action@,
            thread_id: text::opt(self.thread_id),
            job_id: text::opt(self.job_id),
            device_id: text::opt(self.device_id),
        }
    }

    /// The notice can be told from all others by an id of its own.
    pub open spec fn has_envelope(self) -> bool {
        ids::is_id(self.event_id@) && time::in_calendar(
            self.created_at.secs() as int,
            self.created_at.nanos() as int,
        )
    }
}

/// The notice that a thread changed.
pub fn thread_ui_event(thread_id: &str) -> (r: UiEvent)
    ensures
        r.has_envelope(),
        r.subject() == (SubjectView {
            event_type: "thread.changed"@,
            resource_kind: "thread"@,
            resource_id: Some(thread_id@),
            action: "changed"@,
            thread_id: Some(thread_id@),
            job_id: None,
            device_id: None,
        }),
{
    UiEvent {
        event_id: new_id(),
        event_type: "thread.changed".to_string(),
        resource_kind: "thread".to_string(),
        resource_id: Some(thread_id.to_string()),
        action: "changed".to_string(),
        thread_id: Some(thread_id.to_string()),
        job_id: None,
        device_id: None,
        created_at: time::now(),
    }
}

/// The notice that a job changed.
pub fn job_ui_event(thread_id: &str, job_id: &str, device_id: Option<&str>) -> (r: UiEvent)
    ensures
        r.has_envelope(),
        r.subject() == (SubjectView {
            event_type: "job.changed"@,
            resource_kind: "job"@,
            resource_id: Some(job_id@),
            action: "changed"@,
            thread_id: Some(thread_id@),
            job_id: Some(job_id@),
            device_id: text::opt_str(device_id),
        }),
{
    let device_id = match device_id {
        Some(id) => Some(id.to_string()),
        None => None,
    };
    UiEvent {
        event_id: new_id(),
        event_type: "job.changed".to_string(),
        resource_kind: "job".to_string(),
        resource_id: Some(job_id.to_string()),
        action: "changed".to_string(),
        thread_id: Some(thread_id.to_string()),
        job_id: Some(job_id.to_string()),
        device_id,
        created_at: time::now(),
    }
}

/// The notice that a device changed.
pub fn device_ui_event(device_id: &str) -> (r: UiEvent)
    ensures
        r.has_envelope(),
        r.subject() == (SubjectView {
            event_type: "device.changed"@,
            resource_kind: "device"@,
            resource_id: Some(device_id@),
            action: "changed"@,
            thread_id: None,
            job_id: None,
            device_id: Some(device_id@),
        }),
{
    UiEvent {
        event_id: new_id(),
        event_type: "device.changed".to_string(),
        resource_kind: "device".to_string(),
        resource_id: Some(device_id.to_string()),
        action: "changed".to_string(),
        thread_id: None,
        job_id: None,
        device_id: Some(device_id.to_string()),
        created_at: time::now(),
    }
}

/// The notice that a signer changed.
pub fn signer_ui_event(key_id: &str) -> (r: UiEvent)
    ensures
        r.has_envelope(),
        r.subject() == (SubjectView {
            event_type: "trust.signers.changed"@,
            resource_kind: "trust.signer"@,
            resource_id: Some(key_id@),
            action: "changed"@,
            thread_id: None,
            job_id: None,
            device_id: None,
        }),
{
    UiEvent {
        event_id: new_id(),
        event_type: "trust.signers.changed".to_string(),
        resource_kind: "trust.signer".to_string(),
        resource_id: Some(key_id.to_string()),
        action: "changed".to_string(),
        thread_id: None,
        job_id: None,
        device_id: None,
        created_at: time::now(),
    }
}

} // verus!
