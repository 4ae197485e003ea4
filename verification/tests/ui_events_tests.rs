use elowen_api::ui_events::{device_ui_event, job_ui_event, signer_ui_event, thread_ui_event};

#[test]
fn ui_events_include_catch_up_envelope_fields() {
    let thread = thread_ui_event("thread-1");
    assert!(!thread.event_id.is_empty());
    assert_eq!(thread.event_type, "thread.changed");
    assert_eq!(thread.resource_kind, "thread");
    assert_eq!(thread.resource_id.as_deref(), Some("thread-1"));
    assert_eq!(thread.action, "changed");

    let job = job_ui_event("thread-1", "job-1", Some("edge-1"));
    assert!(!job.event_id.is_empty());
    assert_eq!(job.resource_kind, "job");
    assert_eq!(job.resource_id.as_deref(), Some("job-1"));
    assert_eq!(job.device_id.as_deref(), Some("edge-1"));

    let device = device_ui_event("edge-1");
    assert_eq!(device.resource_kind, "device");
    assert_eq!(device.resource_id.as_deref(), Some("edge-1"));

    let signer = signer_ui_event("signer-1");
    assert_eq!(signer.event_type, "trust.signers.changed");
    assert_eq!(signer.resource_kind, "trust.signer");
    assert_eq!(signer.resource_id.as_deref(), Some("signer-1"));
}

#[test]
fn ui_events_have_ids_of_their_own() {
    let first = thread_ui_event("thread-1");
    let second = thread_ui_event("thread-1");
    assert_ne!(first.event_id, second.event_id);
    assert_eq!(first.event_id.len(), 26);
    assert!(first.event_id.chars().all(|c| c.is_ascii_digit() || c.is_ascii_uppercase()));
    assert!(first.created_at.seconds() > 1_600_000_000);
}
