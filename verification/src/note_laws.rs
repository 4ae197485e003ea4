//! What the search for related notes promises: which words it looks for, which
//! notes it prefers, and how what it finds is merged and ranked.

use crate::drafts;
use crate::json::Json;
use crate::models::{JobRecord, MessageRecord, SummaryRecord, ThreadRecord};
use crate::note_memory;
use crate::note_memory::{
    CandidateView, MemorySource, MergedNoteContext, NoteContextCandidate, RelatedNotesBundle,
};
use crate::notes;
use crate::notes::SearchNotesRequest;
use crate::text;
use crate::text_laws;
use crate::text_lemmas;
use crate::time;
use vstd::prelude::*;

verus! {

// ---------------------------------------------------------------------------
// Search words
// ---------------------------------------------------------------------------

proof fn lemma_join_is_text(list: text::Texts, sep: Seq<char>)
    requires
        forall|i: int| 0 <= i < list.len() ==> (#[trigger] list[i]).len() > 0,
    ensures
        text::join(list, sep).len() > 0 <==> list.len() > 0,
{
    if list.len() > 0 {
        let front = list.drop_last();
        let x = list[list.len() - 1];
        assert(list =~= front.push(x));
        text_lemmas::lemma_join_push(front, x, sep);
    }
}

proof fn lemma_kept_are_texts(list: text::Texts)
    ensures
        forall|i: int|
            0 <= i < text::non_empty(list).len() ==> (#[trigger] text::non_empty(list)[i]).len()
                > 0,
    decreases list.len(),
{
    let keep = |p: Seq<char>| p.len() > 0;
    reveal(Seq::filter);
    if list.len() > 0 {
        let front = list.drop_last();
        let x = list[list.len() - 1];
        lemma_kept_are_texts(front);
        assert(list =~= front.push(x));
        text_lemmas::lemma_filter_push(front, x, keep);
        let result = text::non_empty(list);
        assert forall|i: int| 0 <= i < result.len() implies (#[trigger] result[i]).len() > 0 by {
            if i < text::non_empty(front).len() {
                assert(result[i] == text::non_empty(front)[i]);
            }
        }
    }
}

/// Words are joined in their order by single spaces, each without the spaces
/// around it. Blank ones are left out, and where nothing is left there are none.
#[verifier::rlimit(60)]
pub proof fn law_joined_terms(a: text::Texts, b: text::Texts, term: Seq<char>)
    ensures
        notes::joined_terms(seq![]) is None,
        text::is_blank(term) ==> notes::joined_terms(seq![term]) is None,
        !text::is_blank(term) ==> notes::joined_terms(seq![term]) == Some(text::trim(term)),
        notes::joined_terms(a + b) == match (notes::joined_terms(a), notes::joined_terms(b)) {
            (Some(x), Some(y)) => Some(x + " "@ + y),
            (Some(x), None) => Some(x),
            (None, y) => y,
        },
{
    let keep = |p: Seq<char>| p.len() > 0;
    let ka = text::non_empty(text::trimmed(a));
    let kb = text::non_empty(text::trimmed(b));
    assert(text::trimmed(a + b) =~= text::trimmed(a) + text::trimmed(b));
    text_laws::lemma_non_empty_of_both(text::trimmed(a), text::trimmed(b));
    lemma_kept_are_texts(text::trimmed(a));
    lemma_kept_are_texts(text::trimmed(b));
    lemma_join_is_text(ka, " "@);
    lemma_join_is_text(kb, " "@);
    assert forall|i: int| 0 <= i < (ka + kb).len() implies (#[trigger] (ka + kb)[i]).len() > 0 by {
        if i < ka.len() {
            assert((ka + kb)[i] == ka[i]);
        } else {
            assert((ka + kb)[i] == kb[i - ka.len()]);
        }
    }
    lemma_join_is_text(ka + kb, " "@);
    if ka.len() > 0 && kb.len() > 0 {
        text_laws::law_join(ka, kb, " "@, " "@);
    } else if ka.len() > 0 {
        assert(ka + kb =~= ka);
    } else {
        assert(ka + kb =~= kb);
    }
    reveal(Seq::filter);
    assert(text::trimmed(seq![]) =~= text::Texts::empty());
    assert(text::non_empty(text::Texts::empty()) =~= text::Texts::empty());
    let one = text::Texts::empty().push(text::trim(term));
    assert(text::trimmed(seq![term]) =~= one);
    text_lemmas::lemma_filter_push(text::Texts::empty(), text::trim(term), keep);
    assert(text::Texts::empty().filter(keep) =~= text::Texts::empty());
}

/// The context of a thread is its title, then the beginnings of its latest three
/// messages, the last one first, then its first two jobs.
#[verifier::rlimit(60)]
pub proof fn law_context_follows_latest_messages(
    thread: ThreadRecord,
    messages: &[MessageRecord],
    jobs: &[JobRecord],
    r: Option<String>,
)
    requires
        call_ensures(notes::build_thread_notes_context, (&thread, messages, jobs), r),
    ensures
        ({
            let n = messages@.len() as int;
            let said = |i: int| text::prefix(text::trim(messages@[i].content@), 120);
            let recent = if n == 0 {
                seq![]
            } else if n == 1 {
                seq![said(n - 1)]
            } else if n == 2 {
                seq![said(n - 1), said(n - 2)]
            } else {
                seq![said(n - 1), said(n - 2), said(n - 3)]
            };
            let job = |i: int| jobs@[i].title@ + " "@ + jobs@[i].repo_name@;
            let work = if jobs@.len() == 0 {
                seq![]
            } else if jobs@.len() == 1 {
                seq![job(0)]
            } else {
                seq![job(0), job(1)]
            };
            text::opt(r) == notes::joined_terms(seq![thread.title@] + recent + work)
        }),
{
    let n = messages@.len() as int;
    let said = |i: int| text::prefix(text::trim(messages@[i].content@), 120);
    let recent = if n == 0 {
        seq![]
    } else if n == 1 {
        seq![said(n - 1)]
    } else if n == 2 {
        seq![said(n - 1), said(n - 2)]
    } else {
        seq![said(n - 1), said(n - 2), said(n - 3)]
    };
    let job = |i: int| jobs@[i].title@ + " "@ + jobs@[i].repo_name@;
    let work = if jobs@.len() == 0 {
        seq![]
    } else if jobs@.len() == 1 {
        seq![job(0)]
    } else {
        seq![job(0), job(1)]
    };
    assert(notes::recent_terms(messages@) =~= recent);
    assert(notes::job_terms(jobs@) =~= work);
}

/// Right behind the title stands what was said last, however long the thread is.
#[verifier::rlimit(60)]
pub proof fn law_context_names_last_message(
    thread: ThreadRecord,
    messages: &[MessageRecord],
    jobs: &[JobRecord],
    r: Option<String>,
)
    requires
        call_ensures(notes::build_thread_notes_context, (&thread, messages, jobs), r),
        messages@.len() > 0,
        !text::is_blank(thread.title@),
        !text::is_blank(text::prefix(text::trim(messages@.last().content@), 120)),
    ensures
        r matches Some(context) && text::starts_with(
            context@,
            text::trim(thread.title@) + " "@ + text::trim(
                text::prefix(text::trim(messages@.last().content@), 120),
            ),
        ),
{
    let last = text::prefix(text::trim(messages@.last().content@), 120);
    let terms = seq![thread.title@] + notes::recent_terms(messages@) + notes::job_terms(jobs@);
    let head = seq![thread.title@] + seq![last];
    let tail = terms.skip(2);
    assert(terms[1] == last);
    assert(terms =~= head + tail);
    law_joined_terms(seq![thread.title@], seq![last], thread.title@);
    law_joined_terms(seq![thread.title@], seq![last], last);
    law_joined_terms(head, tail, last);
    let lead = text::trim(thread.title@) + " "@ + text::trim(last);
    if let Some(context) = r {
        assert(context@.take(lead.len() as int) =~= lead);
    }
}

/// Only the latest three messages count: an older one changes nothing.
pub proof fn law_older_messages_do_not_count(
    thread: ThreadRecord,
    older: Seq<MessageRecord>,
    other: Seq<MessageRecord>,
    latest: Seq<MessageRecord>,
    jobs: Seq<JobRecord>,
)
    requires
        latest.len() == 3,
    ensures
        notes::thread_context(thread, older + latest, jobs) == notes::thread_context(
            thread,
            other + latest,
            jobs,
        ),
{
    assert(notes::recent_terms(older + latest) =~= notes::recent_terms(other + latest));
}

/// A thread is searched by what its user said last; without a message of the
/// user, by its title.
pub proof fn law_thread_query(
    thread: ThreadRecord,
    messages: &[MessageRecord],
    r: Option<String>,
)
    requires
        call_ensures(notes::build_thread_notes_query, (&thread, messages), r),
    ensures
        ({
            let said = match drafts::last_user(messages@) {
                Some(message) => text::prefix(text::trim(message.content@), 180),
                None => thread.title@,
            };
            &&& r is Some <==> !text::is_blank(said)
            &&& r matches Some(query) ==> query@ == text::trim(said)
        }),
{
    let said = match drafts::last_user(messages@) {
        Some(message) => text::prefix(text::trim(message.content@), 180),
        None => thread.title@,
    };
    law_joined_terms(seq![], seq![], said);
}

/// A job is searched by its title and repository and the beginning of its
/// summary; its context also names its branch and more of the summary.
pub proof fn law_job_search_words(
    job: JobRecord,
    summary: Option<&SummaryRecord>,
    query: Option<String>,
    context: Option<String>,
)
    requires
        call_ensures(notes::build_job_notes_query, (&job, summary), query),
        call_ensures(notes::build_job_notes_context, (&job, summary), context),
    ensures
        ({
            let named = seq![job.title@, job.repo_name@];
            let branch = match job.branch_name {
                Some(name) => seq![name@],
                None => seq![],
            };
            let said = |limit: nat|
                match summary {
                    Some(s) => seq![text::prefix(text::trim(s.content@), limit)],
                    None => seq![],
                };
            &&& text::opt(query) == notes::joined_terms(named + said(180))
            &&& text::opt(context) == notes::joined_terms(named + branch + said(240))
        }),
{
    let named = seq![job.title@, job.repo_name@];
    let branch = match job.branch_name {
        Some(name) => seq![name@],
        None => seq![],
    };
    let said = |limit: nat|
        match summary {
            Some(s) => seq![text::prefix(text::trim(s.content@), limit)],
            None => seq![],
        };
    assert(text::with_line(named, notes::summary_term(summary, 180)) =~= named + said(180));
    assert(text::with_line(
        text::with_line(named, text::opt(job.branch_name)),
        notes::summary_term(summary, 240),
    ) =~= named + branch + said(240));
}

// ---------------------------------------------------------------------------
// Searches
// ---------------------------------------------------------------------------

/// Memory of a thread or a job is looked up by where it comes from, without words
/// and without preferences. A job of a thread is asked for fewer notes.
pub proof fn law_memory_searches(
    thread: ThreadRecord,
    job: JobRecord,
    of_thread: SearchNotesRequest,
    of_thread_job: SearchNotesRequest,
    of_job: SearchNotesRequest,
)
    requires
        call_ensures(notes::thread_memory_search, (&thread,), of_thread),
        call_ensures(notes::thread_job_memory_search, (&job,), of_thread_job),
        call_ensures(notes::job_memory_search, (&job,), of_job),
    ensures
        of_thread@.source_kind == Some("thread"@) && of_thread@.source_id == Some(thread.id@)
            && of_thread.limit == 8,
        of_thread_job@.source_kind == Some("job"@) && of_thread_job@.source_id == Some(job.id@)
            && of_thread_job.limit == 4,
        of_job@.source_kind == Some("job"@) && of_job@.source_id == Some(job.id@) && of_job.limit
            == 8,
        forall|s: SearchNotesRequest|
            s == of_thread || s == of_thread_job || s == of_job ==> #[trigger] s@.q is None
                && s@.context is None && s@.prefer_note_ids.len() == 0
                && s@.prefer_source_kind is None && s@.prefer_source_id is None,
{
}

/// Notes are found by words wherever they come from, and those that are known
/// already or come from the thread or job itself are preferred.
pub proof fn law_word_searches(
    thread: ThreadRecord,
    messages: &[MessageRecord],
    jobs: &[JobRecord],
    job: JobRecord,
    summary: Option<&SummaryRecord>,
    preferred: Vec<String>,
    by_thread: SearchNotesRequest,
    by_job: SearchNotesRequest,
)
    requires
        call_ensures(
            notes::thread_discovery_search,
            (&thread, messages, jobs, preferred),
            by_thread,
        ),
        call_ensures(notes::job_discovery_search, (&job, summary, preferred), by_job),
    ensures
        by_thread@.q == notes::thread_query(thread, messages@),
        by_thread@.context == notes::thread_context(thread, messages@, jobs@),
        by_thread@.prefer_source_kind == Some("thread"@),
        by_thread@.prefer_source_id == Some(thread.id@),
        by_job@.q == notes::job_query(job, summary),
        by_job@.context == notes::job_context(job, summary),
        by_job@.prefer_source_kind == Some("job"@),
        by_job@.prefer_source_id == Some(job.id@),
        by_thread@.prefer_note_ids == text::views(preferred@),
        by_job@.prefer_note_ids == text::views(preferred@),
        by_thread@.source_kind is None && by_thread@.source_id is None && by_thread.limit == 8,
        by_job@.source_kind is None && by_job@.source_id is None && by_job.limit == 8,
{
}

proof fn lemma_with_pair(
    query: notes::Pairs,
    key: Seq<char>,
    value: Option<Seq<char>>,
    pair: (Seq<char>, Seq<char>),
)
    ensures
        notes::with_pair(query, key, value).contains(pair) <==> query.contains(pair) || (pair.0
            == key && text::present(value) == Some(pair.1)),
{
    if let Some(v) = text::present(value) {
        lemma_push_contains(query, (key, v), pair);
    }
}

proof fn lemma_push_contains<T>(list: Seq<T>, x: T, y: T)
    ensures
        list.push(x).contains(y) <==> list.contains(y) || x == y,
{
    let all = list.push(x);
    if list.contains(y) {
        let i = choose|i: int| 0 <= i < list.len() && list[i] == y;
        assert(all[i] == y);
    }
    if all.contains(y) {
        let i = choose|i: int| 0 <= i < all.len() && all[i] == y;
        if i < list.len() {
            assert(list[i] == y);
        }
    }
    assert(all[list.len() as int] == x);
}

/// A search sends its limit always, each other value exactly where it is not
/// blank, trimmed and under its own name, and the preferred notes as one list.
#[verifier::rlimit(60)]
pub proof fn law_search_query(
    request: SearchNotesRequest,
    query: Vec<(String, String)>,
    pair: (Seq<char>, Seq<char>),
)
    requires
        call_ensures(notes::search_query, (&request,), query),
    ensures
        notes::pairs(query@).contains(pair) <==> {
            ||| pair == ("limit"@, text::decimal(request.limit as nat))
            ||| pair.0 == "q"@ && text::present(request@.q) == Some(pair.1)
            ||| pair.0 == "context"@ && text::present(request@.context) == Some(pair.1)
            ||| pair.0 == "source_kind"@ && text::present(request@.source_kind) == Some(pair.1)
            ||| pair.0 == "source_id"@ && text::present(request@.source_id) == Some(pair.1)
            ||| pair.0 == "prefer_source_kind"@ && text::present(request@.prefer_source_kind)
                == Some(pair.1)
            ||| pair.0 == "prefer_source_id"@ && text::present(request@.prefer_source_id) == Some(
                pair.1,
            )
            ||| request@.prefer_note_ids.len() > 0 && pair == (
                "prefer_note_ids"@,
                text::join(request@.prefer_note_ids, ","@),
            )
        },
{
    let s = request@;
    let p0 = seq![("limit"@, text::decimal(s.limit))];
    let p1 = notes::with_pair(p0, "q"@, s.q);
    let p2 = notes::with_pair(p1, "context"@, s.context);
    let p3 = notes::with_pair(p2, "source_kind"@, s.source_kind);
    let p4 = notes::with_pair(p3, "source_id"@, s.source_id);
    let p5 = notes::with_pair(p4, "prefer_source_kind"@, s.prefer_source_kind);
    let p6 = notes::with_pair(p5, "prefer_source_id"@, s.prefer_source_id);
    assert(p0 =~= Seq::empty().push(("limit"@, text::decimal(s.limit))));
    lemma_push_contains(Seq::empty(), ("limit"@, text::decimal(s.limit)), pair);
    lemma_with_pair(p0, "q"@, s.q, pair);
    lemma_with_pair(p1, "context"@, s.context, pair);
    lemma_with_pair(p2, "source_kind"@, s.source_kind, pair);
    lemma_with_pair(p3, "source_id"@, s.source_id, pair);
    lemma_with_pair(p4, "prefer_source_kind"@, s.prefer_source_kind, pair);
    lemma_with_pair(p5, "prefer_source_id"@, s.prefer_source_id, pair);
    lemma_push_contains(p6, ("prefer_note_ids"@, text::join(s.prefer_note_ids, ","@)), pair);
}

/// The notes service answers a promotion with the note itself or with an object
/// that holds it.
pub proof fn law_promoted_note(answer: Json, r: Json)
    requires
        call_ensures(notes::promoted_note_value, (answer,), r),
    ensures
        answer.model().field("note"@) matches Some(note) ==> r.model() == note,
        answer.model().field("note"@) is None ==> r.model() == answer.model(),
{
}

// ---------------------------------------------------------------------------
// Scores
// ---------------------------------------------------------------------------

/// Keys order scores as their floating-point numbers are ordered: by the bits
/// where both are positive, against them where both are negative, and every
/// negative score below every positive one. The two zeros share a key.
pub proof fn law_score_keys_are_ordered(a: u64, b: u64)
    ensures
        a < note_memory::SIGN_BIT && b < note_memory::SIGN_BIT ==> (note_memory::key_of_bits(a)
            < note_memory::key_of_bits(b) <==> a < b),
        a >= note_memory::SIGN_BIT && b >= note_memory::SIGN_BIT ==> (note_memory::key_of_bits(a)
            < note_memory::key_of_bits(b) <==> a > b),
        a > note_memory::SIGN_BIT && b < note_memory::SIGN_BIT ==> note_memory::key_of_bits(a)
            < note_memory::key_of_bits(b),
        note_memory::key_of_bits(0x8000_0000_0000_0000) == note_memory::key_of_bits(0),
{
}

/// Memory of the thread counts more than memory of a job, and that more than
/// anything else.
pub proof fn law_direct_memory_is_boosted(role: Seq<char>)
    ensures
        role != "direct_thread_memory"@ ==> note_memory::role_boost(role) < note_memory::role_boost(
            "direct_thread_memory"@,
        ),
        role != "direct_thread_memory"@ && role != "direct_job_memory"@ ==> note_memory::role_boost(
            role,
        ) == 0 && note_memory::role_boost("direct_job_memory"@) > 0,
        note_memory::role_boost("direct_thread_memory"@) - note_memory::role_boost(
            "direct_job_memory"@,
        ) == 100,
{
    reveal_strlit("direct_thread_memory");
    reveal_strlit("direct_job_memory");
    assert("direct_thread_memory"@.len() == 20);
    assert("direct_job_memory"@.len() == 17);
}

/// A candidate keeps its note and score, and its role gives both the boost and
/// the reason under which it is shown.
pub proof fn law_candidate_roles(
    note: crate::models::NoteRecord,
    effective: crate::models::Relevance,
    source: MemorySource,
    c: NoteContextCandidate,
)
    requires
        call_ensures(note_memory::note_candidate, (note, effective, &source), c),
    ensures
        c@.note == note@,
        c@.effective == effective@,
        source is Thread ==> note_memory::role_boost(c.memory_role@) == 1_000,
        source is Job ==> note_memory::role_boost(c.memory_role@) == 900,
        source is Search ==> note_memory::role_boost(c.memory_role@) == 0,
        note_memory::role_reason(c.memory_role@) == c.memory_role@,
        source matches MemorySource::Thread(title) ==> text::contains(c.source_label@, title@),
        source matches MemorySource::Job(short_id) ==> text::contains(c.source_label@, short_id@),
{
    reveal_strlit("direct_thread_memory");
    reveal_strlit("direct_job_memory");
    reveal_strlit("retrieved_memory");
    assert("direct_thread_memory"@.len() == 20);
    assert("direct_job_memory"@.len() == 17);
    assert("retrieved_memory"@.len() == 16);
    if let MemorySource::Thread(title) = source {
        let lead = "Promoted from thread `"@;
        assert(c.source_label@.subrange(
            lead.len() as int,
            (lead.len() + title@.len()) as int,
        ) =~= title@);
        assert(text::occurs_at(c.source_label@, title@, lead.len() as int));
    }
    if let MemorySource::Job(short_id) = source {
        let lead = "Promoted from job `"@;
        assert(c.source_label@.subrange(
            lead.len() as int,
            (lead.len() + short_id@.len()) as int,
        ) =~= short_id@);
        assert(text::occurs_at(c.source_label@, short_id@, lead.len() as int));
    }
}

// ---------------------------------------------------------------------------
// Merging and ranking
// ---------------------------------------------------------------------------

/// A merged note keeps what its first candidate says of it, but for the summary,
/// the score and the instant, which are those of the best.
pub proof fn law_merge_keeps_first(candidates: Seq<CandidateView>, k: int)
    requires
        0 <= k < candidates.len(),
        forall|j: int|
            0 <= j < k ==> (#[trigger] candidates[j]).note.note_id != candidates[k].note.note_id,
    ensures
        note_memory::merged_entry(candidates, candidates[k].note.note_id) matches Some(e) && {
            let first = candidates[k].note;
            &&& e.note.note_id == first.note_id
            &&& e.note.title == first.title
            &&& e.note.slug == first.slug
            &&& e.note.tags == first.tags
            &&& e.note.aliases == first.aliases
            &&& e.note.note_type == first.note_type
            &&& e.note.source_kind == first.source_kind
            &&& e.note.source_id == first.source_id
            &&& e.note.current_revision_id == first.current_revision_id
        },
    decreases candidates.len(),
{
    let id = candidates[k].note.note_id;
    let front = candidates.drop_last();
    assert(candidates.last() == candidates[candidates.len() - 1]);
    if k < front.len() {
        assert(front[k] == candidates[k]);
        assert forall|j: int| 0 <= j < k implies (#[trigger] front[j]).note.note_id
            != front[k].note.note_id by {
            assert(front[j] == candidates[j]);
        }
        law_merge_keeps_first(front, k);
    } else {
        note_memory::law_merge_shows_best(front, id);
        if note_memory::merged_entry(front, id) is Some {
            let j = choose|j: int|
                #![trigger front[j]]
                0 <= j < front.len() && front[j].note.note_id == id;
            assert(candidates[j] == front[j]);
        }
    }
}

/// A merged note gives no reason that none of its candidates gave.
#[verifier::rlimit(60)]
pub proof fn law_merge_adds_no_reason(
    candidates: Seq<CandidateView>,
    id: Seq<char>,
    reason: Seq<char>,
)
    requires
        note_memory::merged_entry(candidates, id) matches Some(e) && e.note.match_reasons.contains(
            reason,
        ),
    ensures
        exists|k: int|
            #![trigger candidates[k]]
            0 <= k < candidates.len() && candidates[k].note.note_id == id && (
            candidates[k].note.match_reasons.contains(reason) || note_memory::role_reason(
                candidates[k].memory_role,
            ) == reason),
    decreases candidates.len(),
{
    if candidates.len() > 0 {
        let front = candidates.drop_last();
        let c = candidates.last();
        assert(c == candidates[candidates.len() - 1]);
        let before = note_memory::merged_entry(front, id);
        if c.note.note_id == id {
            match before {
                Some(e) => {
                    let own = note_memory::with_reasons(e.note.match_reasons, c.note.match_reasons);
                    lemma_with_reason(own, note_memory::role_reason(c.memory_role), reason);
                    lemma_with_reasons(e.note.match_reasons, c.note.match_reasons, reason);
                    if e.note.match_reasons.contains(reason) {
                        law_merge_adds_no_reason(front, id, reason);
                        let k = choose|k: int|
                            #![trigger front[k]]
                            0 <= k < front.len() && front[k].note.note_id == id && (
                            front[k].note.match_reasons.contains(reason)
                                || note_memory::role_reason(front[k].memory_role) == reason);
                        assert(candidates[k] == front[k]);
                    }
                },
                None => {
                    lemma_with_reason(
                        c.note.match_reasons,
                        note_memory::role_reason(c.memory_role),
                        reason,
                    );
                },
            }
        } else {
            law_merge_adds_no_reason(front, id, reason);
            let k = choose|k: int|
                #![trigger front[k]]
                0 <= k < front.len() && front[k].note.note_id == id && (
                front[k].note.match_reasons.contains(reason) || note_memory::role_reason(
                    front[k].memory_role,
                ) == reason);
            assert(candidates[k] == front[k]);
        }
    }
}

proof fn lemma_with_reason(reasons: text::Texts, more: Seq<char>, reason: Seq<char>)
    ensures
        note_memory::with_reason(reasons, more).contains(reason) <==> reasons.contains(reason)
            || more == reason,
{
    lemma_push_contains(reasons, more, reason);
}

proof fn lemma_with_reasons(reasons: text::Texts, more: text::Texts, reason: Seq<char>)
    ensures
        note_memory::with_reasons(reasons, more).contains(reason) <==> reasons.contains(reason)
            || more.contains(reason),
    decreases more.len(),
{
    if more.len() > 0 {
        let front = more.drop_last();
        lemma_with_reasons(reasons, front, reason);
        lemma_with_reason(note_memory::with_reasons(reasons, front), more.last(), reason);
        lemma_push_contains(front, more.last(), reason);
        assert(front.push(more.last()) =~= more);
    }
}

/// Among the notes that are found each stands once, the better score comes first,
/// and of two that score the same the one that was changed later.
pub proof fn law_notes_are_ranked(
    candidates: Vec<NoteContextCandidate>,
    merged: Vec<MergedNoteContext>,
    i: int,
    j: int,
)
    requires
        call_ensures(note_memory::merge_related_note_contexts, (candidates,), merged),
        0 <= i < j < merged@.len(),
    ensures
        merged@[i].note.note_id@ != merged@[j].note.note_id@,
        merged@[i].note.relevance.key >= merged@[j].note.relevance.key,
        merged@[i].note.relevance.key == merged@[j].note.relevance.key ==> !time::after(
            merged@[j].note.updated_at,
            merged@[i].note.updated_at,
        ),
{
    let views = note_memory::merged_views(merged@);
    assert(views[i] == merged@[i]@);
    assert(views[j] == merged@[j]@);
    assert(!note_memory::ranks_before(views[j], views[i]));
}

/// Every candidate is among the notes that are found, with at least its score.
pub proof fn law_no_candidate_is_lost(
    candidates: Vec<NoteContextCandidate>,
    merged: Vec<MergedNoteContext>,
    k: int,
)
    requires
        call_ensures(note_memory::merge_related_note_contexts, (candidates,), merged),
        0 <= k < candidates@.len(),
    ensures
        exists|i: int|
            #![trigger merged@[i]]
            0 <= i < merged@.len() && merged@[i].note.note_id@ == candidates@[k].note.note_id@
                && merged@[i].note.relevance.key >= candidates@[k].effective.key,
{
    let views = note_memory::merged_views(merged@);
    let all = note_memory::candidate_views(candidates@);
    assert(all[k] == candidates@[k]@);
    assert(note_memory::has_note(views, all[k].note.note_id));
    let i = choose|i: int|
        0 <= i < views.len() && (#[trigger] views[i]).note.note_id == all[k].note.note_id;
    assert(views[i] == merged@[i]@);
    note_memory::law_merge_shows_best(all, all[k].note.note_id);
}

/// Details are fetched for the best three notes, or for all where there are fewer.
pub proof fn law_details_of_the_best(merged: &[MergedNoteContext], ids: Vec<String>)
    requires
        call_ensures(note_memory::detail_note_ids, (merged,), ids),
    ensures
        merged@.len() >= 3 ==> ids@.len() == 3,
        merged@.len() < 3 ==> ids@.len() == merged@.len(),
        forall|i: int|
            0 <= i < ids@.len() ==> (#[trigger] ids@[i])@ == merged@[i].note.note_id@,
{
    let views = text::views(ids@);
    assert(views.len() == ids@.len());
    assert forall|i: int| 0 <= i < ids@.len() implies (#[trigger] ids@[i])@
        == merged@[i].note.note_id@ by {
        assert(views[i] == ids@[i]@);
    }
}

proof fn lemma_excerpt(details: notes::Pairs, id: Seq<char>, k: int)
    requires
        0 <= k < details.len(),
        details[k].0 == id,
        forall|j: int| 0 <= j < k ==> (#[trigger] details[j]).0 != id,
    ensures
        note_memory::excerpt(details, id) == Some(notes::one_line_summary(details[k].1, 280)),
    decreases details.len(),
{
    if k > 0 {
        let rest = details.drop_first();
        assert(details[0].0 != id);
        assert(rest[k - 1] == details[k]);
        assert forall|j: int| 0 <= j < k - 1 implies (#[trigger] rest[j]).0 != id by {
            assert(rest[j] == details[j + 1]);
        }
        lemma_excerpt(rest, id, k - 1);
    }
}

proof fn lemma_no_excerpt(details: notes::Pairs, id: Seq<char>)
    requires
        forall|j: int| 0 <= j < details.len() ==> (#[trigger] details[j]).0 != id,
    ensures
        note_memory::excerpt(details, id) is None,
    decreases details.len(),
{
    if details.len() > 0 {
        let rest = details.drop_first();
        assert(details[0].0 != id);
        assert forall|j: int| 0 <= j < rest.len() implies (#[trigger] rest[j]).0 != id by {
            assert(rest[j] == details[j + 1]);
        }
        lemma_no_excerpt(rest, id);
    }
}

/// The notes of a conversation are the merged ones in their order. A note has an
/// excerpt exactly where its details were fetched, and it is made of these.
#[verifier::rlimit(60)]
pub proof fn law_notes_of_a_conversation(
    merged: Vec<MergedNoteContext>,
    details: &[(String, String)],
    bundle: RelatedNotesBundle,
    i: int,
    k: int,
)
    requires
        call_ensures(note_memory::related_notes_bundle, (merged, details), bundle),
        0 <= i < merged@.len(),
    ensures
        bundle.notes@.len() == merged@.len(),
        bundle.conversation_context@.len() == merged@.len(),
        bundle.notes@[i]@ == merged@[i].note@,
        bundle.conversation_context@[i].note@ == merged@[i].note@,
        bundle.conversation_context@[i].memory_role@ == merged@[i].memory_role@,
        bundle.conversation_context@[i].source_label@ == merged@[i].source_label@,
        (forall|j: int|
            0 <= j < details@.len() ==> (#[trigger] details@[j]).0@ != merged@[i].note.note_id@)
            ==> bundle.conversation_context@[i].detail_excerpt is None,
        0 <= k < details@.len() && details@[k].0@ == merged@[i].note.note_id@ && (forall|j: int|
            0 <= j < k ==> (#[trigger] details@[j]).0@ != merged@[i].note.note_id@) ==> text::opt(
            bundle.conversation_context@[i].detail_excerpt,
        ) == Some(notes::one_line_summary(details@[k].1@, 280)),
{
    let views = note_memory::merged_views(merged@);
    let id = merged@[i].note.note_id@;
    let pairs = notes::pairs(details@);
    assert(views[i] == merged@[i]@);
    assert(note_memory::note_views(bundle.notes@).len() == bundle.notes@.len());
    assert(note_memory::related_views(bundle.conversation_context@).len()
        == bundle.conversation_context@.len());
    assert(note_memory::note_views(bundle.notes@)[i] == bundle.notes@[i]@);
    assert(note_memory::related_views(bundle.conversation_context@)[i]
        == bundle.conversation_context@[i]@);
    if forall|j: int| 0 <= j < details@.len() ==> (#[trigger] details@[j]).0@ != id {
        assert forall|j: int| 0 <= j < pairs.len() implies (#[trigger] pairs[j]).0 != id by {
            assert(details@[j].0@ != id);
        }
        lemma_no_excerpt(pairs, id);
    }
    if 0 <= k < details@.len() && details@[k].0@ == id && (forall|j: int|
        0 <= j < k ==> (#[trigger] details@[j]).0@ != id) {
        assert forall|j: int| 0 <= j < k implies (#[trigger] pairs[j]).0 != id by {
            assert(details@[j].0@ != id);
        }
        lemma_excerpt(pairs, id, k);
    }
}

// ---------------------------------------------------------------------------
// Addresses, scores and words
// ---------------------------------------------------------------------------

/// Each request to the notes service goes to a path of its own below its address.
pub proof fn law_note_addresses(
    base: &str,
    id: &str,
    search: String,
    note: String,
    promotions: String,
)
    requires
        call_ensures(notes::search_url, (base,), search),
        call_ensures(notes::note_url, (base, id), note),
        call_ensures(notes::promotions_url, (base,), promotions),
    ensures
        text::starts_with(search@, base@) && text::starts_with(note@, base@) && text::starts_with(
            promotions@,
            base@,
        ),
        search@.skip(base@.len() as int) == "/api/v1/notes/search"@,
        note@.skip(base@.len() as int) == "/api/v1/notes/"@ + id@,
        promotions@.skip(base@.len() as int) == "/api/v1/notes/promotions"@,
{
    let n = base@.len() as int;
    assert(search@.take(n) =~= base@);
    assert(note@.take(n) =~= base@);
    assert(promotions@.take(n) =~= base@);
    assert(search@.skip(n) =~= "/api/v1/notes/search"@);
    assert(note@.skip(n) =~= "/api/v1/notes/"@ + id@);
    assert(promotions@.skip(n) =~= "/api/v1/notes/promotions"@);
}

/// A score is found again by its key, but for the negative zero, and greater
/// scores have greater keys.
pub proof fn law_scores_and_keys(a: u64, b: u64, key_a: i64, key_b: i64, back: u64)
    requires
        call_ensures(note_memory::score_key, (a,), key_a),
        call_ensures(note_memory::score_key, (b,), key_b),
        call_ensures(note_memory::score_bits, (key_a,), back),
    ensures
        a != note_memory::SIGN_BIT ==> back == a,
        a < note_memory::SIGN_BIT && b < note_memory::SIGN_BIT ==> (key_a < key_b <==> a < b),
        a >= note_memory::SIGN_BIT && b >= note_memory::SIGN_BIT ==> (key_a < key_b <==> a > b),
        a > note_memory::SIGN_BIT && b < note_memory::SIGN_BIT ==> key_a < key_b,
{
}

/// A text is put into one line of its lines that are not blank, and cut.
#[verifier::rlimit(60)]
pub proof fn law_one_line(value: &str, limit: usize, r: String)
    requires
        call_ensures(notes::summarize_text, (value, limit), r),
    ensures
        r@.len() <= limit,
        text::starts_with(
            text::trim(text::join(text::non_empty(text::trimmed(text::lines(value@))), " "@)),
            r@,
        ),
        (forall|i: int| 0 <= i < value@.len() ==> #[trigger] value@[i] != '\n') && value@.len() > 0
            && !text::is_space(value@[0]) && !text::is_space(value@.last()) && value@.len() <= limit
            ==> r@ == value@,
{
    let s = text::trim(text::join(text::non_empty(text::trimmed(text::lines(value@))), " "@));
    text_laws::law_prefix(s, limit as nat);
    if (forall|i: int| 0 <= i < value@.len() ==> #[trigger] value@[i] != '\n') && value@.len() > 0
        && !text::is_space(value@[0]) && !text::is_space(value@.last()) {
        let keep = |p: Seq<char>| p.len() > 0;
        text_laws::law_lines(value@, Seq::empty());
        text_lemmas::lemma_trim_noop(value@, text::space());
        assert(text::trimmed(seq![value@]) =~= text::Texts::empty().push(value@));
        reveal(Seq::filter);
        text_lemmas::lemma_filter_push(text::Texts::empty(), value@, keep);
        assert(text::Texts::empty().filter(keep) =~= text::Texts::empty());
        assert(text::Texts::empty().push(value@) =~= seq![value@]);
    }
}

} // verus!
