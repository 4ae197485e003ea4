//! Decision logic of the Elowen orchestration API.

pub mod account_laws;
pub mod approvals;
pub mod auth;
pub mod config;
pub mod conversation;
pub mod conversation_laws;
pub mod crypto;
pub mod device_models;
pub mod device_trust;
pub mod devices;
pub mod dispatch;
pub mod dispatch_laws;
pub mod draft_laws;
pub mod draft_payload;
pub mod drafts;
pub mod error;
pub mod formatting;
pub mod hint_laws;
pub mod ids;
pub mod json;
pub mod laws;
pub mod lifecycle;
pub mod models;
pub mod note_laws;
pub mod note_memory;
pub mod notes;
pub mod order;
pub mod promotion;
pub mod registration;
pub mod reply_laws;
pub mod report_laws;
pub mod scan;
pub mod sessions;
pub mod signer_laws;
pub mod signers;
pub mod text;
pub mod text_laws;
pub mod text_lemmas;
pub mod thread_laws;
pub mod threads;
pub mod time;
pub mod titles;
pub mod trust_laws;
pub mod ui_events;
