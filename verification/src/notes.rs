//! Requests to the notes service.

use crate::conversation;
use crate::drafts;
use crate::drafts::last_user_index;
use crate::json::{Json, JsonView};
use crate::models::{JobRecord, MessageRecord, SummaryRecord, ThreadRecord};
use crate::scan;
use crate::scan::{chars_of, push_line, text_of};
use crate::text;
use vstd::prelude::*;

verus! {

/// Most notes of one search.
pub const SEARCH_LIMIT: usize = 8;

/// Most notes of one job in the memory of a thread.
pub const THREAD_JOB_LIMIT: usize = 4;

/// A search of the notes service.
#[derive(Debug)]
pub struct SearchNotesRequest {
    pub q: Option<String>,
    pub context: Option<String>,
    pub source_kind: Option<String>,
    pub source_id: Option<String>,
    pub prefer_note_ids: Vec<String>,
    pub prefer_source_kind: Option<String>,
    pub prefer_source_id: Option<String>,
    pub limit: usize,
}

/// The model of a search.
pub struct SearchView {
    pub q: Option<Seq<char>>,
    pub context: Option<Seq<char>>,
    pub source_kind: Option<Seq<char>>,
    pub source_id: Option<Seq<char>>,
    pub prefer_note_ids: text::Texts,
    pub prefer_source_kind: Option<Seq<char>>,
    pub prefer_source_id: Option<Seq<char>>,
    pub limit: nat,
}

impl View for SearchNotesRequest {
    type V = SearchView;

    open spec fn view(&self) -> SearchView {
        SearchView {
            q: text::opt(self.q),
            context: text::opt(self.context),
            source_kind: text::opt(self.source_kind),
            source_id: text::opt(self.source_id),
            prefer_note_ids: text::views(self.prefer_note_ids@),
            prefer_source_kind: text::opt(self.prefer_source_kind),
            prefer_source_id: text::opt(self.prefer_source_id),
            limit: self.limit as nat,
        }
    }
}

/// A search for the notes that were promoted from one source.
pub open spec fn source_search(kind: Seq<char>, id: Seq<char>, limit: nat) -> SearchView {
    SearchView {
        q: None,
        context: None,
        source_kind: Some(kind),
        source_id: Some(id),
        prefer_note_ids: Seq::empty(),
        prefer_source_kind: None,
        prefer_source_id: None,
        limit,
    }
}

/// A search by words that prefers one source and the given notes.
pub open spec fn word_search(
    q: Option<Seq<char>>,
    context: Option<Seq<char>>,
    preferred: text::Texts,
    kind: Seq<char>,
    id: Seq<char>,
) -> SearchView {
    SearchView {
        q,
        context,
        source_kind: None,
        source_id: None,
        prefer_note_ids: preferred,
        prefer_source_kind: Some(kind),
        prefer_source_id: Some(id),
        limit: SEARCH_LIMIT as nat,
    }
}

/// The search for the notes that were promoted from one source.
pub(crate) fn promoted_from(kind: &str, id: &str, limit: usize) -> (r: SearchNotesRequest)
    ensures
        r@ == source_search(kind@, id@, limit as nat),
{
    let prefer_note_ids: Vec<String> = Vec::new();
    assert(text::views(prefer_note_ids@) =~= Seq::empty());
    SearchNotesRequest {
        q: None,
        context: None,
        source_kind: Some(kind.to_string()),
        source_id: Some(id.to_string()),
        prefer_note_ids,
        prefer_source_kind: None,
        prefer_source_id: None,
        limit,
    }
}

/// The search for the notes that were promoted from a thread.
pub fn thread_memory_search(thread: &ThreadRecord) -> (r: SearchNotesRequest)
    ensures
        r@ == source_search("thread"@, thread.id@, SEARCH_LIMIT as nat),
{
    promoted_from("thread", thread.id.as_str(), SEARCH_LIMIT)
}

/// The search for the notes that were promoted from a job of a thread.
pub fn thread_job_memory_search(job: &JobRecord) -> (r: SearchNotesRequest)
    ensures
        r@ == source_search("job"@, job.id@, THREAD_JOB_LIMIT as nat),
{
    promoted_from("job", job.id.as_str(), THREAD_JOB_LIMIT)
}

/// The search for the notes that were promoted from a job.
pub fn job_memory_search(job: &JobRecord) -> (r: SearchNotesRequest)
    ensures
        r@ == source_search("job"@, job.id@, SEARCH_LIMIT as nat),
{
    promoted_from("job", job.id.as_str(), SEARCH_LIMIT)
}

/// The search for the notes that fit a thread.
pub fn thread_discovery_search(
    thread: &ThreadRecord,
    messages: &[MessageRecord],
    jobs: &[JobRecord],
    preferred_note_ids: Vec<String>,
) -> (r: SearchNotesRequest)
    ensures
        r@ == word_search(
            thread_query(*thread, messages@),
            thread_context(*thread, messages@, jobs@),
            text::views(preferred_note_ids@),
            "thread"@,
            thread.id@,
        ),
{
    SearchNotesRequest {
        q: build_thread_notes_query(thread, messages),
        context: build_thread_notes_context(thread, messages, jobs),
        source_kind: None,
        source_id: None,
        prefer_note_ids: preferred_note_ids,
        prefer_source_kind: Some("thread".to_string()),
        prefer_source_id: Some(thread.id.clone()),
        limit: SEARCH_LIMIT,
    }
}

/// The search for the notes that fit a job.
pub fn job_discovery_search(
    job: &JobRecord,
    summary: Option<&SummaryRecord>,
    preferred_note_ids: Vec<String>,
) -> (r: SearchNotesRequest)
    ensures
        r@ == word_search(
            job_query(*job, summary),
            job_context(*job, summary),
            text::views(preferred_note_ids@),
            "job"@,
            job.id@,
        ),
{
    SearchNotesRequest {
        q: build_job_notes_query(job, summary),
        context: build_job_notes_context(job, summary),
        source_kind: None,
        source_id: None,
        prefer_note_ids: preferred_note_ids,
        prefer_source_kind: Some("job".to_string()),
        prefer_source_id: Some(job.id.clone()),
        limit: SEARCH_LIMIT,
    }
}

// ---------------------------------------------------------------------------
// Search terms
// ---------------------------------------------------------------------------

/// The trimmed terms that are not empty, joined; `None` where none is left.
pub open spec fn joined_terms(terms: text::Texts) -> Option<Seq<char>> {
    let query = text::join(text::non_empty(text::trimmed(terms)), " "@);
    if query.len() > 0 {
        Some(query)
    } else {
        None
    }
}

/// The smaller of the two.
pub open spec fn at_most(n: nat, limit: nat) -> nat {
    if n <= limit {
        n
    } else {
        limit
    }
}

/// What the last user message asks, or the title of a thread without one.
pub open spec fn thread_query(
    thread: ThreadRecord,
    messages: Seq<MessageRecord>,
) -> Option<Seq<char>> {
    joined_terms(
        seq![
            match drafts::last_user(messages) {
                Some(message) => conversation::summarized(message.content@, 180),
                None => thread.title@,
            },
        ],
    )
}

/// The latest messages, the last one first.
pub open spec fn recent_terms(messages: Seq<MessageRecord>) -> text::Texts {
    Seq::new(
        at_most(messages.len(), 3),
        |i: int| conversation::summarized(messages[messages.len() - 1 - i].content@, 120),
    )
}

/// The first jobs with their repositories.
pub open spec fn job_terms(jobs: Seq<JobRecord>) -> text::Texts {
    Seq::new(at_most(jobs.len(), 2), |i: int| jobs[i].title@ + " "@ + jobs[i].repo_name@)
}

/// What a thread is about.
pub open spec fn thread_context(
    thread: ThreadRecord,
    messages: Seq<MessageRecord>,
    jobs: Seq<JobRecord>,
) -> Option<Seq<char>> {
    joined_terms(seq![thread.title@] + recent_terms(messages) + job_terms(jobs))
}

/// The content of a summary, cut.
pub open spec fn summary_term(summary: Option<&SummaryRecord>, limit: nat) -> Option<Seq<char>> {
    match summary {
        Some(s) => Some(conversation::summarized(s.content@, limit)),
        None => None,
    }
}

/// What a job asks.
pub open spec fn job_query(job: JobRecord, summary: Option<&SummaryRecord>) -> Option<Seq<char>> {
    joined_terms(
        text::with_line(seq![job.title@, job.repo_name@], summary_term(summary, 180)),
    )
}

/// What a job is about.
pub open spec fn job_context(job: JobRecord, summary: Option<&SummaryRecord>) -> Option<Seq<char>> {
    joined_terms(
        text::with_line(
            text::with_line(seq![job.title@, job.repo_name@], text::opt(job.branch_name)),
            summary_term(summary, 240),
        ),
    )
}

/// The trimmed terms that are not empty, joined; `None` where none is left.
pub fn join_terms(terms: Vec<String>) -> (r: Option<String>)
    ensures
        text::opt(r) == joined_terms(text::views(terms@)),
{
    let mut parts: Vec<Vec<char>> = Vec::new();
    let mut i: usize = 0;
    assert(scan::lists(parts@) =~= text::views(terms@).take(0));
    while i < terms.len()
        invariant
            i <= terms@.len(),
            scan::lists(parts@) == text::views(terms@).take(i as int),
        decreases terms@.len() - i,
    {
        let ghost before = scan::lists(parts@);
        let term = chars_of(terms[i].as_str());
        parts.push(term);
        assert(scan::lists(parts@) =~= before.push(term@));
        assert(text::views(terms@).take(i + 1) =~= text::views(terms@).take(i as int).push(term@));
        i += 1;
    }
    assert(text::views(terms@).take(i as int) =~= text::views(terms@));
    let query = scan::join(scan::non_empty(scan::trimmed(parts)).as_slice(), " ");
    if query.len() > 0 {
        Some(text_of(query.as_slice()))
    } else {
        None
    }
}

/// What the last user message asks, or the title of a thread without one.
pub fn build_thread_notes_query(thread: &ThreadRecord, messages: &[MessageRecord]) -> (r: Option<
    String,
>)
    ensures
        text::opt(r) == thread_query(*thread, messages@),
{
    let term = match last_user_index(messages) {
        Some(i) => conversation::summarize_text(messages[i].content.as_str(), 180),
        None => thread.title.clone(),
    };
    let mut terms: Vec<String> = Vec::new();
    terms.push(term);
    assert(text::views(terms@) =~= seq![term@]);
    join_terms(terms)
}

/// What a thread is about.
pub fn build_thread_notes_context(
    thread: &ThreadRecord,
    messages: &[MessageRecord],
    jobs: &[JobRecord],
) -> (r: Option<String>)
    ensures
        text::opt(r) == thread_context(*thread, messages@, jobs@),
{
    let mut terms: Vec<String> = Vec::new();
    terms.push(thread.title.clone());
    let ghost start = seq![thread.title@];
    assert(text::views(terms@) =~= start + recent_terms(messages@).take(0));
    let mut i: usize = 0;
    while i < 3 && i < messages.len()
        invariant
            i <= 3,
            i <= messages@.len(),
            text::views(terms@) == start + recent_terms(messages@).take(i as int),
        decreases 3 - i,
    {
        let term = conversation::summarize_text(
            messages[messages.len() - 1 - i].content.as_str(),
            120,
        );
        push_line(&mut terms, term);
        assert(text::views(terms@) =~= start + recent_terms(messages@).take(i + 1));
        i += 1;
    }
    assert(recent_terms(messages@).take(i as int) =~= recent_terms(messages@));
    let ghost middle = start + recent_terms(messages@);
    assert(text::views(terms@) =~= middle + job_terms(jobs@).take(0));
    let mut k: usize = 0;
    while k < 2 && k < jobs.len()
        invariant
            k <= 2,
            k <= jobs@.len(),
            text::views(terms@) == middle + job_terms(jobs@).take(k as int),
        decreases 2 - k,
    {
        let term = jobs[k].title.clone().concat(" ").concat(jobs[k].repo_name.as_str());
        push_line(&mut terms, term);
        assert(text::views(terms@) =~= middle + job_terms(jobs@).take(k + 1));
        k += 1;
    }
    assert(job_terms(jobs@).take(k as int) =~= job_terms(jobs@));
    join_terms(terms)
}

/// What a job asks.
pub fn build_job_notes_query(job: &JobRecord, summary: Option<&SummaryRecord>) -> (r: Option<
    String,
>)
    ensures
        text::opt(r) == job_query(*job, summary),
{
    let mut terms: Vec<String> = Vec::new();
    terms.push(job.title.clone());
    terms.push(job.repo_name.clone());
    assert(text::views(terms@) =~= seq![job.title@, job.repo_name@]);
    if let Some(summary) = summary {
        push_line(&mut terms, conversation::summarize_text(summary.content.as_str(), 180));
    }
    join_terms(terms)
}

/// What a job is about.
pub fn build_job_notes_context(job: &JobRecord, summary: Option<&SummaryRecord>) -> (r: Option<
    String,
>)
    ensures
        text::opt(r) == job_context(*job, summary),
{
    let mut terms: Vec<String> = Vec::new();
    terms.push(job.title.clone());
    terms.push(job.repo_name.clone());
    assert(text::views(terms@) =~= seq![job.title@, job.repo_name@]);
    if let Some(branch_name) = &job.branch_name {
        push_line(&mut terms, branch_name.clone());
    }
    if let Some(summary) = summary {
        push_line(&mut terms, conversation::summarize_text(summary.content.as_str(), 240));
    }
    join_terms(terms)
}

/// The lines that are not blank, in one line and cut.
pub open spec fn one_line_summary(s: Seq<char>, limit: nat) -> Seq<char> {
    conversation::summarized(
        text::join(text::non_empty(text::trimmed(text::lines(s))), " "@),
        limit,
    )
}

/// The lines that are not blank, in one line and cut.
pub fn summarize_text(value: &str, limit: usize) -> (r: String)
    ensures
        r@ == one_line_summary(value@, limit as nat),
{
    let lines = scan::lines(chars_of(value).as_slice());
    let cleaned = scan::join(scan::non_empty(scan::trimmed(lines)).as_slice(), " ");
    conversation::summarize_text(text_of(cleaned.as_slice()).as_str(), limit)
}

// ---------------------------------------------------------------------------
// Query strings
// ---------------------------------------------------------------------------

/// Keys with their values.
pub type Pairs = Seq<(Seq<char>, Seq<char>)>;

/// The model of a query.
pub open spec fn pairs(query: Seq<(String, String)>) -> Pairs {
    query.map_values(|p: (String, String)| (p.0@, p.1@))
}

/// The query with one more pair, where the value says anything.
pub open spec fn with_pair(query: Pairs, key: Seq<char>, value: Option<Seq<char>>) -> Pairs {
    match text::present(value) {
        Some(v) => query.push((key, v)),
        None => query,
    }
}

/// The query of a search.
pub open spec fn search_pairs(search: SearchView) -> Pairs {
    let base = with_pair(
        with_pair(
            with_pair(
                with_pair(
                    with_pair(
                        with_pair(
                            seq![("limit"@, text::decimal(search.limit))],
                            "q"@,
                            search.q,
                        ),
                        "context"@,
                        search.context,
                    ),
                    "source_kind"@,
                    search.source_kind,
                ),
                "source_id"@,
                search.source_id,
            ),
            "prefer_source_kind"@,
            search.prefer_source_kind,
        ),
        "prefer_source_id"@,
        search.prefer_source_id,
    );
    if search.prefer_note_ids.len() > 0 {
        base.push(("prefer_note_ids"@, text::join(search.prefer_note_ids, ","@)))
    } else {
        base
    }
}

fn push_pair(query: &mut Vec<(String, String)>, key: &str, value: String)
    ensures
        pairs(final(query)@) == pairs(old(query)@).push((key@, value@)),
{
    let ghost before = pairs(query@);
    let name = key.to_string();
    query.push((name, value));
    assert(pairs(query@) =~= before.push((key@, value@)));
}

/// Adds a pair to the query, where the value says anything.
pub fn push_query_value(query: &mut Vec<(String, String)>, key: &str, value: Option<&str>)
    ensures
        pairs(final(query)@) == with_pair(pairs(old(query)@), key@, text::opt_str(value)),
{
    if let Some(value) = value {
        let trimmed = scan::trim_text(value);
        if chars_of(trimmed.as_str()).len() > 0 {
            push_pair(query, key, trimmed);
        }
    }
}

/// The query of a search.
pub fn search_query(request: &SearchNotesRequest) -> (r: Vec<(String, String)>)
    ensures
        pairs(r@) == search_pairs(request@),
{
    let mut query: Vec<(String, String)> = Vec::new();
    assert(pairs(query@) =~= Seq::empty());
    push_pair(&mut query, "limit", scan::decimal(request.limit as u64));
    assert(pairs(query@) =~= seq![("limit"@, text::decimal(request.limit as nat))]);
    push_query_value(&mut query, "q", scan::opt_slice(&request.q));
    push_query_value(&mut query, "context", scan::opt_slice(&request.context));
    push_query_value(&mut query, "source_kind", scan::opt_slice(&request.source_kind));
    push_query_value(&mut query, "source_id", scan::opt_slice(&request.source_id));
    push_query_value(
        &mut query,
        "prefer_source_kind",
        scan::opt_slice(&request.prefer_source_kind),
    );
    push_query_value(&mut query, "prefer_source_id", scan::opt_slice(&request.prefer_source_id));
    if request.prefer_note_ids.len() > 0 {
        push_pair(
            &mut query,
            "prefer_note_ids",
            scan::join_texts(request.prefer_note_ids.as_slice(), ","),
        );
    }
    query
}

/// The address of the search.
pub fn search_url(notes_url: &str) -> (r: String)
    ensures
        r@ == notes_url@ + "/api/v1/notes/search"@,
{
    notes_url.to_string().concat("/api/v1/notes/search")
}

/// The address of a note.
pub fn note_url(notes_url: &str, note_id: &str) -> (r: String)
    ensures
        r@ == notes_url@ + "/api/v1/notes/"@ + note_id@,
{
    notes_url.to_string().concat("/api/v1/notes/").concat(note_id)
}

/// The address for promotions.
pub fn promotions_url(notes_url: &str) -> (r: String)
    ensures
        r@ == notes_url@ + "/api/v1/notes/promotions"@,
{
    notes_url.to_string().concat("/api/v1/notes/promotions")
}

/// The note in the answer to a promotion: its `note` entry, else the answer
/// itself.
pub open spec fn promoted_note(answer: JsonView) -> JsonView {
    match answer.field("note"@) {
        Some(note) => note,
        None => answer,
    }
}

/// The note in the answer to a promotion: its `note` entry, else the answer
/// itself.
pub fn promoted_note_value(answer: Json) -> (r: Json)
    ensures
        r.model() == promoted_note(answer.model()),
{
    match answer.get("note") {
        Some(note) => note.copy(),
        None => answer.copy(),
    }
}

} // verus!
