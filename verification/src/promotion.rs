//! Notes that are made of finished jobs.

use crate::auth::SessionActor;
use crate::conversation;
use crate::conversation::summarize_text;
use crate::formatting::sanitize_optional_string;
use crate::json;
use crate::json::{Json, JsonObject, JsonView};
use crate::models::{JobRecord, NoteRecord, SummaryRecord};
use crate::notes;
use crate::notes::{promoted_from, SearchNotesRequest};
use crate::scan;
use crate::scan::opt_slice;
use crate::text;
use vstd::prelude::*;

verus! {

/// A request to make a note of a job.
#[derive(Debug)]
pub struct PromoteJobNoteRequest {
    pub title: Option<String>,
    pub summary: Option<String>,
    pub body_markdown: Option<String>,
    pub tags: Vec<String>,
    pub aliases: Vec<String>,
    pub note_type: Option<String>,
}

/// Who wrote a note.
#[derive(Debug)]
pub struct NoteAuthor {
    pub actor_type: String,
    pub actor_id: String,
    pub display_name: Option<String>,
}

/// What a note was made of.
#[derive(Debug)]
pub struct NoteSourceReference {
    pub source_kind: String,
    pub source_id: String,
    pub label: Option<String>,
}

/// The model of a source.
pub struct SourceView {
    pub source_kind: Seq<char>,
    pub source_id: Seq<char>,
    pub label: Option<Seq<char>>,
}

impl View for NoteSourceReference {
    type V = SourceView;

    open spec fn view(&self) -> SourceView {
        SourceView {
            source_kind: self.source_kind@,
            source_id: self.source_id@,
            label: text::opt(self.label),
        }
    }
}

/// The models of a list of sources.
pub open spec fn source_views(list: Seq<NoteSourceReference>) -> Seq<SourceView> {
    list.map_values(|s: NoteSourceReference| s@)
}

/// What the notes service is asked to keep.
#[derive(Debug)]
pub struct PromoteNoteRequest {
    pub note_id: Option<String>,
    pub source_kind: Option<String>,
    pub source_id: Option<String>,
    pub title: Option<String>,
    pub slug: Option<String>,
    pub summary: Option<String>,
    pub body_markdown: String,
    pub tags: Vec<String>,
    pub aliases: Vec<String>,
    pub note_type: Option<String>,
    pub frontmatter: Option<Json>,
    pub authored_by: Option<NoteAuthor>,
    pub source_references: Vec<NoteSourceReference>,
}

/// The search for the note that was made of a job before.
pub fn existing_note_search(job: &JobRecord) -> (r: SearchNotesRequest)
    ensures
        r@ == notes::source_search("job"@, job.id@, 1),
{
    promoted_from("job", job.id.as_str(), 1)
}

/// The note that was made before: the first one found.
pub fn existing_note_id(found: &[NoteRecord]) -> (r: Option<String>)
    ensures
        text::opt(r) == if found@.len() > 0 {
            Some(found@[0].note_id@)
        } else {
            None
        },
{
    if found.len() > 0 {
        Some(found[0].note_id.clone())
    } else {
        None
    }
}

/// What the `Debug` form of an `Option<String>` reads.
pub uninterp spec fn debug_text(value: Option<Seq<char>>) -> Seq<char>;

/// Formats an `Option<String>` with std's `Debug`. The text depends on the value
/// alone.
#[verifier::external_body]
fn debug_form(value: &Option<String>) -> (r: String)
    ensures
        r@ == debug_text(text::opt(*value)),
{
    format!("{:?}", value)
}

/// What a note says of a job without a summary.
pub open spec fn plain_body(title: Seq<char>, result: Seq<char>) -> Seq<char> {
    "# "@ + title + "\n\nResult: "@ + result + "\n"@
}

/// What a note says of a job without a summary.
pub fn body_from(title: &str, result: &str) -> (r: String)
    ensures
        r@ == plain_body(title@, result@),
{
    "# ".to_string().concat(title).concat("\n\nResult: ").concat(result).concat("\n")
}

/// What a note says of a job unless the request says otherwise.
pub open spec fn note_body(job: JobRecord, summary: Option<&SummaryRecord>) -> Seq<char> {
    match summary {
        Some(s) => s.content@,
        None => plain_body(job.title@, debug_text(text::opt(job.result))),
    }
}

/// What a note says of a job unless the request says otherwise.
pub fn default_body(job: &JobRecord, summary: Option<&SummaryRecord>) -> (r: String)
    ensures
        r@ == note_body(*job, summary),
{
    match summary {
        Some(summary) => summary.content.clone(),
        None => {
            let result = debug_form(&job.result);
            body_from(job.title.as_str(), result.as_str())
        },
    }
}

/// The sources of the note: the job, its thread, and its summary.
pub open spec fn job_sources(job: JobRecord, summary: Option<&SummaryRecord>) -> Seq<SourceView> {
    let base = seq![
        SourceView {
            source_kind: "job"@,
            source_id: job.id@,
            label: Some("Job "@ + job.short_id@),
        },
        SourceView {
            source_kind: "thread"@,
            source_id: job.thread_id@,
            label: Some("Owning thread"@),
        },
    ];
    match summary {
        Some(s) => base.push(
            SourceView {
                source_kind: "summary"@,
                source_id: s.id@,
                label: Some("Job summary v"@ + text::signed_decimal(s.version as int)),
            },
        ),
        None => base,
    }
}

fn source_references(job: &JobRecord, summary: Option<&SummaryRecord>) -> (r: Vec<
    NoteSourceReference,
>)
    ensures
        source_views(r@) == job_sources(*job, summary),
{
    let mut out: Vec<NoteSourceReference> = Vec::new();
    let of_job = NoteSourceReference {
        source_kind: "job".to_string(),
        source_id: job.id.clone(),
        label: Some("Job ".to_string().concat(job.short_id.as_str())),
    };
    let of_thread = NoteSourceReference {
        source_kind: "thread".to_string(),
        source_id: job.thread_id.clone(),
        label: Some("Owning thread".to_string()),
    };
    let ghost base = seq![of_job@, of_thread@];
    out.push(of_job);
    out.push(of_thread);
    assert(source_views(out@) =~= base);
    if let Some(summary) = summary {
        let version = scan::signed_decimal(summary.version);
        let of_summary = NoteSourceReference {
            source_kind: "summary".to_string(),
            source_id: summary.id.clone(),
            label: Some("Job summary v".to_string().concat(version.as_str())),
        };
        out.push(of_summary);
        assert(source_views(out@) =~= base.push(of_summary@));
    }
    out
}

/// The front matter of the note.
pub open spec fn job_frontmatter(job: JobRecord) -> JsonView {
    JsonView::Object(
        seq![
            ("job_id"@, JsonView::Text(job.id@)),
            ("repo_name"@, JsonView::Text(job.repo_name@)),
            ("branch_name"@, json::optional_text(text::opt(job.branch_name))),
        ],
    )
}

fn frontmatter(job: &JobRecord) -> (r: Json)
    ensures
        r.model() == job_frontmatter(*job),
{
    let object = JsonObject::new().with_text("job_id", job.id.as_str()).with_text(
        "repo_name",
        job.repo_name.as_str(),
    ).with_optional_text("branch_name", opt_slice(&job.branch_name));
    assert(object.entries() =~= seq![
        ("job_id"@, JsonView::Text(job.id@)),
        ("repo_name"@, JsonView::Text(job.repo_name@)),
        ("branch_name"@, json::optional_text(text::opt(job.branch_name))),
    ]);
    object.build()
}

/// The note to keep of a job. `note_id` is the one of the note that was made of
/// it before, and `body` what it says unless the request says otherwise.
pub fn promote_request(
    request: PromoteJobNoteRequest,
    job: &JobRecord,
    summary: Option<&SummaryRecord>,
    actor: SessionActor,
    note_id: Option<String>,
    body: String,
) -> (r: PromoteNoteRequest)
    ensures
        text::opt(r.note_id) == text::opt(note_id),
        text::opt(r.source_kind) == Some("job"@),
        text::opt(r.source_id) == Some(job.id@),
        text::opt(r.title) == Some(text::or_value(text::opt(request.title), job.title@)),
        r.slug is None,
        text::opt(r.summary) == text::or_else(
            text::opt(request.summary),
            match summary {
                Some(s) => Some(conversation::summarized(s.content@, 240)),
                None => None,
            },
        ),
        r.body_markdown@ == text::or_value(
            text::present(text::opt(request.body_markdown)),
            body@,
        ),
        r.tags == request.tags,
        r.aliases == request.aliases,
        r.note_type == request.note_type,
        r.frontmatter matches Some(f) && f.model() == job_frontmatter(*job),
        r.authored_by matches Some(a) && a.actor_type@ == "operator"@ && a.actor_id@
            == actor.username@ && text::opt(a.display_name) == Some(actor.display_name@),
        source_views(r.source_references@) == job_sources(*job, summary),
{
    let title = match request.title {
        Some(title) => title,
        None => job.title.clone(),
    };
    let brief = match request.summary {
        Some(brief) => Some(brief),
        None => match summary {
            Some(summary) => Some(summarize_text(summary.content.as_str(), 240)),
            None => None,
        },
    };
    let body_markdown = match sanitize_optional_string(request.body_markdown) {
        Some(text) => text,
        None => body,
    };
    PromoteNoteRequest {
        note_id,
        source_kind: Some("job".to_string()),
        source_id: Some(job.id.clone()),
        title: Some(title),
        slug: None,
        summary: brief,
        body_markdown,
        tags: request.tags,
        aliases: request.aliases,
        note_type: request.note_type,
        frontmatter: Some(frontmatter(job)),
        authored_by: Some(
            NoteAuthor {
                actor_type: "operator".to_string(),
                actor_id: actor.username,
                display_name: Some(actor.display_name),
            },
        ),
        source_references: source_references(job, summary),
    }
}

/// The note to keep of a job, with the body that the job gives.
pub fn promote_job(
    request: PromoteJobNoteRequest,
    job: &JobRecord,
    summary: Option<&SummaryRecord>,
    actor: SessionActor,
    found: &[NoteRecord],
) -> (r: PromoteNoteRequest)
    ensures
        text::opt(r.note_id) == if found@.len() > 0 {
            Some(found@[0].note_id@)
        } else {
            None
        },
        r.body_markdown@ == text::or_value(
            text::present(text::opt(request.body_markdown)),
            note_body(*job, summary),
        ),
        text::opt(r.source_id) == Some(job.id@),
        text::opt(r.title) == Some(text::or_value(text::opt(request.title), job.title@)),
        r.slug is None,
        text::opt(r.source_kind) == Some("job"@),
        text::opt(r.summary) == text::or_else(
            text::opt(request.summary),
            match summary {
                Some(s) => Some(conversation::summarized(s.content@, 240)),
                None => None,
            },
        ),
        r.tags == request.tags,
        r.aliases == request.aliases,
        r.note_type == request.note_type,
        r.frontmatter matches Some(f) && f.model() == job_frontmatter(*job),
        r.authored_by matches Some(a) && a.actor_type@ == "operator"@ && a.actor_id@
            == actor.username@ && text::opt(a.display_name) == Some(actor.display_name@),
        source_views(r.source_references@) == job_sources(*job, summary),
{
    let note_id = existing_note_id(found);
    let body = default_body(job, summary);
    promote_request(request, job, summary, actor, note_id, body)
}

} // verus!
