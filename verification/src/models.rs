//! Records that the API stores and exchanges.

use crate::json::Json;
use crate::scan::{copy_opt, copy_texts, same_text};
use crate::text;
use crate::time::Timestamp;
use vstd::prelude::*;

verus! {

/// What a job may do to the repository.
#[derive(Clone, Copy, Debug, PartialEq, Eq, Structural)]
pub enum ExecutionIntent {
    /// Changes are committed and offered for push.
    WorkspaceChange,
    /// The repository is only inspected.
    ReadOnly,
}

impl ExecutionIntent {
    /// The wire name.
    pub open spec fn name(self) -> Seq<char> {
        match self {
            ExecutionIntent::WorkspaceChange => "workspace_change"@,
            ExecutionIntent::ReadOnly => "read_only"@,
        }
    }

    /// The wire name.
    pub fn as_str(&self) -> (r: &'static str)
        ensures
            r@ == self.name(),
    {
        match self {
            ExecutionIntent::WorkspaceChange => "workspace_change",
            ExecutionIntent::ReadOnly => "read_only",
        }
    }
}

/// What a job works on.
#[derive(Clone, Copy, Debug, PartialEq, Eq, Structural)]
pub enum JobTargetKind {
    /// A repository.
    Repository,
    /// A capability of the device.
    Capability,
}

impl JobTargetKind {
    /// The wire name.
    pub open spec fn name(self) -> Seq<char> {
        match self {
            JobTargetKind::Repository => "repository"@,
            JobTargetKind::Capability => "capability"@,
        }
    }

    /// The wire name.
    pub fn as_str(&self) -> (r: &'static str)
        ensures
            r@ == self.name(),
    {
        match self {
            JobTargetKind::Repository => "repository",
            JobTargetKind::Capability => "capability",
        }
    }
}

/// A proposed job that the thread can still refine.
#[derive(Debug)]
pub struct ExecutionDraft {
    pub title: String,
    pub repo_name: Option<String>,
    pub base_branch: String,
    pub request_text: String,
    pub execution_intent: ExecutionIntent,
    pub source_message_id: String,
    pub source_role: String,
    pub rationale: String,
}

/// The model of a draft.
pub struct DraftView {
    pub title: Seq<char>,
    pub repo_name: Option<Seq<char>>,
    pub base_branch: Seq<char>,
    pub request_text: Seq<char>,
    pub execution_intent: ExecutionIntent,
    pub source_message_id: Seq<char>,
    pub source_role: Seq<char>,
    pub rationale: Seq<char>,
}

impl View for ExecutionDraft {
    type V = DraftView;

    open spec fn view(&self) -> DraftView {
        DraftView {
            title: self.title@,
            repo_name: text::opt(self.repo_name),
            base_branch: self.base_branch@,
            request_text: self.request_text@,
            execution_intent: self.execution_intent,
            source_message_id: self.source_message_id@,
            source_role: self.source_role@,
            rationale: self.rationale@,
        }
    }
}

/// A conversation.
#[derive(Debug)]
pub struct ThreadRecord {
    pub id: String,
    pub title: String,
    pub status: String,
    pub current_summary_id: Option<String>,
    pub created_at: Timestamp,
    pub updated_at: Timestamp,
}

/// A message of a conversation.
#[derive(Debug)]
pub struct MessageRecord {
    pub id: String,
    pub thread_id: String,
    pub role: String,
    pub content: String,
    pub status: String,
    pub payload_json: Json,
    pub created_at: Timestamp,
    pub updated_at: Timestamp,
}

/// A job on a device.
#[derive(Debug)]
pub struct JobRecord {
    pub id: String,
    pub short_id: String,
    pub correlation_id: String,
    pub thread_id: String,
    pub title: String,
    pub status: String,
    pub result: Option<String>,
    pub failure_class: Option<String>,
    pub target_kind: String,
    pub repo_name: String,
    pub capability_name: Option<String>,
    pub device_id: Option<String>,
    pub branch_name: Option<String>,
    pub base_branch: Option<String>,
    pub parent_job_id: Option<String>,
    pub created_at: Timestamp,
    pub updated_at: Timestamp,
    pub completed_at: Option<Timestamp>,
}

impl JobRecord {
    /// What the job works on: a capability where the stored kind says so, else
    /// a repository.
    pub open spec fn kind(self) -> JobTargetKind {
        if self.target_kind@ == "capability"@ {
            JobTargetKind::Capability
        } else {
            JobTargetKind::Repository
        }
    }

    /// The repository or the capability that the job works on.
    pub open spec fn target(self) -> Seq<char> {
        match self.kind() {
            JobTargetKind::Repository => self.repo_name@,
            JobTargetKind::Capability => text::or_value(
                text::opt(self.capability_name),
                Seq::<char>::empty(),
            ),
        }
    }

    /// What the job works on.
    pub fn target_kind_enum(&self) -> (r: JobTargetKind)
        ensures
            r == self.kind(),
    {
        if same_text(self.target_kind.as_str(), "capability") {
            JobTargetKind::Capability
        } else {
            JobTargetKind::Repository
        }
    }

    /// The repository or the capability that the job works on.
    pub fn target_name(&self) -> (r: String)
        ensures
            r@ == self.target(),
    {
        match self.target_kind_enum() {
            JobTargetKind::Repository => self.repo_name.clone(),
            JobTargetKind::Capability => match &self.capability_name {
                Some(name) => name.clone(),
                None => {
                    let none = String::new();
                    assert(none@ =~= Seq::<char>::empty());
                    none
                },
            },
        }
    }
}

/// A summary of a thread or a job.
#[derive(Debug)]
pub struct SummaryRecord {
    pub id: String,
    pub scope: String,
    pub source_id: String,
    pub version: i32,
    pub content: String,
    pub created_at: Timestamp,
}

/// A decision that an operator has to make about a job.
#[derive(Debug)]
pub struct ApprovalRecord {
    pub id: String,
    pub thread_id: String,
    pub job_id: String,
    pub action_type: String,
    pub status: String,
    pub summary: String,
    pub resolved_by: Option<String>,
    pub resolved_by_display_name: Option<String>,
    pub resolution_reason: Option<String>,
    pub created_at: Timestamp,
    pub resolved_at: Option<Timestamp>,
    pub updated_at: Timestamp,
}

/// A repository of a device.
#[derive(Debug, PartialEq, Eq)]
pub struct DeviceRepository {
    pub name: String,
    pub branches: Vec<String>,
}

impl View for DeviceRepository {
    type V = (Seq<char>, text::Texts);

    open spec fn view(&self) -> (Seq<char>, text::Texts) {
        (self.name@, text::views(self.branches@))
    }
}

impl DeviceRepository {
    /// A copy.
    pub fn copy(&self) -> (r: DeviceRepository)
        ensures
            r@ == self@,
    {
        DeviceRepository {
            name: self.name.clone(),
            branches: copy_texts(self.branches.as_slice()),
        }
    }
}

/// How relevant a note is.
#[derive(Debug)]
pub struct Relevance {
    /// The place of the score in the order of scores.
    pub key: i64,
    /// The score, rounded, as texts show it.
    pub label: String,
}

/// The model of a relevance.
pub struct RelevanceView {
    pub key: i64,
    pub label: Seq<char>,
}

impl View for Relevance {
    type V = RelevanceView;

    open spec fn view(&self) -> RelevanceView {
        RelevanceView { key: self.key, label: self.label@ }
    }
}

impl Relevance {
    /// A copy.
    pub fn copy(&self) -> (r: Relevance)
        ensures
            r@ == self@,
    {
        Relevance { key: self.key, label: self.label.clone() }
    }
}

/// A note of the notes service.
#[derive(Debug)]
pub struct NoteRecord {
    pub note_id: String,
    pub title: String,
    pub slug: String,
    pub summary: String,
    pub tags: Vec<String>,
    pub aliases: Vec<String>,
    pub note_type: String,
    pub source_kind: Option<String>,
    pub source_id: Option<String>,
    pub current_revision_id: String,
    pub updated_at: Timestamp,
    pub relevance: Relevance,
    pub match_reasons: Vec<String>,
}

/// The model of a note.
pub struct NoteView {
    pub note_id: Seq<char>,
    pub title: Seq<char>,
    pub slug: Seq<char>,
    pub summary: Seq<char>,
    pub tags: text::Texts,
    pub aliases: text::Texts,
    pub note_type: Seq<char>,
    pub source_kind: Option<Seq<char>>,
    pub source_id: Option<Seq<char>>,
    pub current_revision_id: Seq<char>,
    pub updated_at: Timestamp,
    pub relevance: RelevanceView,
    pub match_reasons: text::Texts,
}

impl View for NoteRecord {
    type V = NoteView;

    open spec fn view(&self) -> NoteView {
        NoteView {
            note_id: self.note_id@,
            title: self.title@,
            slug: self.slug@,
            summary: self.summary@,
            tags: text::views(self.tags@),
            aliases: text::views(self.aliases@),
            note_type: self.note_type@,
            source_kind: text::opt(self.source_kind),
            source_id: text::opt(self.source_id),
            current_revision_id: self.current_revision_id@,
            updated_at: self.updated_at,
            relevance: self.relevance@,
            match_reasons: text::views(self.match_reasons@),
        }
    }
}

impl NoteRecord {
    /// A copy.
    pub fn copy(&self) -> (r: NoteRecord)
        ensures
            r@ == self@,
    {
        NoteRecord {
            note_id: self.note_id.clone(),
            title: self.title.clone(),
            slug: self.slug.clone(),
            summary: self.summary.clone(),
            tags: copy_texts(self.tags.as_slice()),
            aliases: copy_texts(self.aliases.as_slice()),
            note_type: self.note_type.clone(),
            source_kind: copy_opt(&self.source_kind),
            source_id: copy_opt(&self.source_id),
            current_revision_id: self.current_revision_id.clone(),
            updated_at: self.updated_at,
            relevance: self.relevance.copy(),
            match_reasons: copy_texts(self.match_reasons.as_slice()),
        }
    }
}

/// A note with what ties it to the conversation.
#[derive(Debug)]
pub struct RelatedNoteContext {
    pub note: NoteRecord,
    pub memory_role: String,
    pub source_label: String,
    pub detail_excerpt: Option<String>,
}

/// The model of a related note.
pub struct RelatedNoteView {
    pub note: NoteView,
    pub memory_role: Seq<char>,
    pub source_label: Seq<char>,
    pub detail_excerpt: Option<Seq<char>>,
}

impl View for RelatedNoteContext {
    type V = RelatedNoteView;

    open spec fn view(&self) -> RelatedNoteView {
        RelatedNoteView {
            note: self.note@,
            memory_role: self.memory_role@,
            source_label: self.source_label@,
            detail_excerpt: text::opt(self.detail_excerpt),
        }
    }
}

} // verus!
