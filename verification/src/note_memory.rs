//! Notes that a conversation remembers, merged from several searches.

use crate::formatting::holds_text;
use crate::models::{
    NoteRecord, NoteView, RelatedNoteContext, RelatedNoteView, Relevance, RelevanceView,
};
use crate::notes;
use crate::scan::{push_line, same_text};
use crate::text;
use crate::time;
use vstd::prelude::*;

verus! {

/// What the memory of the thread adds to a score.
pub const THREAD_MEMORY_BOOST: u32 = 1_000;

/// What the memory of a job adds to a score.
pub const JOB_MEMORY_BOOST: u32 = 900;

/// How many notes are shown with an excerpt.
pub const DETAIL_EXPANSION_LIMIT: usize = 3;

/// Longest excerpt of a note, in characters.
pub const EXCERPT_LIMIT: usize = 280;

// ---------------------------------------------------------------------------
// Scores
// ---------------------------------------------------------------------------

/// The bit that holds the sign of a score.
pub const SIGN_BIT: u64 = 0x8000_0000_0000_0000;

/// The place of a score in the order of scores, from its binary form: the
/// magnitude, negative where the sign bit is set.
pub open spec fn key_of_bits(bits: u64) -> int {
    if bits < SIGN_BIT {
        bits as int
    } else {
        SIGN_BIT - bits
    }
}

/// The largest magnitude of a score: what lies above it is no number.
pub const LARGEST_MAGNITUDE: u64 = 0x7FF0_0000_0000_0000;

/// The binary form of a score without its sign.
pub open spec fn magnitude(bits: u64) -> int {
    if bits < SIGN_BIT {
        bits as int
    } else {
        bits - SIGN_BIT
    }
}

/// The place of a score in the order of scores, from its binary form.
pub fn score_key(bits: u64) -> (r: i64)
    requires
        magnitude(bits) <= LARGEST_MAGNITUDE,
    ensures
        r == key_of_bits(bits),
{
    if bits < SIGN_BIT {
        bits as i64
    } else {
        -((bits - SIGN_BIT) as i64)
    }
}

/// The binary form of a score, from its place in the order of scores.
pub open spec fn bits_of_key(key: int) -> int {
    if key >= 0 {
        key
    } else {
        SIGN_BIT - key
    }
}

/// The binary form of a score, from its place in the order of scores.
pub fn score_bits(key: i64) -> (r: u64)
    requires
        key > i64::MIN,
    ensures
        r == bits_of_key(key as int),
{
    if key >= 0 {
        key as u64
    } else {
        SIGN_BIT + (-key) as u64
    }
}

/// A score comes back from its place, but for a negative zero, which has the
/// place of zero.
pub proof fn law_score_comes_back(bits: u64)
    requires
        bits != SIGN_BIT,
    ensures
        bits_of_key(key_of_bits(bits)) == bits,
{
}

// ---------------------------------------------------------------------------
// Candidates
// ---------------------------------------------------------------------------

/// What an answer of the notes service adds to a score, by the role of the
/// memory.
pub open spec fn role_boost(role: Seq<char>) -> u32 {
    if role == "direct_thread_memory"@ {
        THREAD_MEMORY_BOOST
    } else if role == "direct_job_memory"@ {
        JOB_MEMORY_BOOST
    } else {
        0
    }
}

/// The reason that a role gives for showing a note.
pub open spec fn role_reason(role: Seq<char>) -> Seq<char> {
    if role == "direct_thread_memory"@ {
        "direct_thread_memory"@
    } else if role == "direct_job_memory"@ {
        "direct_job_memory"@
    } else {
        "retrieved_memory"@
    }
}

/// What an answer of the notes service adds to a score, by the role of the
/// memory.
pub fn memory_role_boost(value: &str) -> (r: u32)
    ensures
        r == role_boost(value@),
{
    if same_text(value, "direct_thread_memory") {
        THREAD_MEMORY_BOOST
    } else if same_text(value, "direct_job_memory") {
        JOB_MEMORY_BOOST
    } else {
        0
    }
}

/// The reason that a role gives for showing a note.
pub fn memory_role_reason(value: &str) -> (r: &'static str)
    ensures
        r@ == role_reason(value@),
{
    if same_text(value, "direct_thread_memory") {
        "direct_thread_memory"
    } else if same_text(value, "direct_job_memory") {
        "direct_job_memory"
    } else {
        "retrieved_memory"
    }
}

/// Where a note was found.
#[derive(Debug)]
pub enum MemorySource {
    /// Promoted from the thread with this title.
    Thread(String),
    /// Promoted from the job with this short id.
    Job(String),
    /// Found by a search.
    Search,
}

impl MemorySource {
    /// The role of the memory.
    pub open spec fn role(self) -> Seq<char> {
        match self {
            MemorySource::Thread(_) => "direct_thread_memory"@,
            MemorySource::Job(_) => "direct_job_memory"@,
            MemorySource::Search => "retrieved_memory"@,
        }
    }

    /// Where the note comes from, in words.
    pub open spec fn label(self) -> Seq<char> {
        match self {
            MemorySource::Thread(title) => "Promoted from thread `"@ + title@ + "`"@,
            MemorySource::Job(short_id) => "Promoted from job `"@ + short_id@ + "`"@,
            MemorySource::Search => "Retrieved by note search"@,
        }
    }

    /// The role of the memory.
    pub fn memory_role(&self) -> (r: &'static str)
        ensures
            r@ == self.role(),
    {
        match self {
            MemorySource::Thread(_) => "direct_thread_memory",
            MemorySource::Job(_) => "direct_job_memory",
            MemorySource::Search => "retrieved_memory",
        }
    }

    /// Where the note comes from, in words.
    pub fn source_label(&self) -> (r: String)
        ensures
            r@ == self.label(),
    {
        match self {
            MemorySource::Thread(title) => "Promoted from thread `".to_string().concat(
                title.as_str(),
            ).concat("`"),
            MemorySource::Job(short_id) => "Promoted from job `".to_string().concat(
                short_id.as_str(),
            ).concat("`"),
            MemorySource::Search => "Retrieved by note search".to_string(),
        }
    }
}

/// A note that was found, with its score once the role of the memory counts.
#[derive(Debug)]
pub struct NoteContextCandidate {
    pub note: NoteRecord,
    pub memory_role: String,
    pub source_label: String,
    pub effective: Relevance,
}

/// The model of a candidate.
pub struct CandidateView {
    pub note: NoteView,
    pub memory_role: Seq<char>,
    pub source_label: Seq<char>,
    pub effective: RelevanceView,
}

impl View for NoteContextCandidate {
    type V = CandidateView;

    open spec fn view(&self) -> CandidateView {
        CandidateView {
            note: self.note@,
            memory_role: self.memory_role@,
            source_label: self.source_label@,
            effective: self.effective@,
        }
    }
}

/// The note as a candidate from the given source.
pub fn note_candidate(note: NoteRecord, effective: Relevance, source: &MemorySource) -> (r:
    NoteContextCandidate)
    ensures
        r@ == (CandidateView {
            note: note@,
            memory_role: source.role(),
            source_label: source.label(),
            effective: effective@,
        }),
{
    NoteContextCandidate {
        note,
        memory_role: source.memory_role().to_string(),
        source_label: source.source_label(),
        effective,
    }
}

// ---------------------------------------------------------------------------
// Merging
// ---------------------------------------------------------------------------

/// A note with everything that was found of it.
#[derive(Debug)]
pub struct MergedNoteContext {
    pub note: NoteRecord,
    pub memory_role: String,
    pub source_label: String,
}

/// The model of a merged note.
#[verifier::ext_equal]
pub struct MergedView {
    pub note: NoteView,
    pub memory_role: Seq<char>,
    pub source_label: Seq<char>,
}

impl View for MergedNoteContext {
    type V = MergedView;

    open spec fn view(&self) -> MergedView {
        MergedView {
            note: self.note@,
            memory_role: self.memory_role@,
            source_label: self.source_label@,
        }
    }
}

/// The reasons with one more, unless it is there.
pub open spec fn with_reason(reasons: text::Texts, reason: Seq<char>) -> text::Texts {
    if reasons.contains(reason) {
        reasons
    } else {
        reasons.push(reason)
    }
}

/// The reasons with the others that are not there.
pub open spec fn with_reasons(reasons: text::Texts, more: text::Texts) -> text::Texts
    decreases more.len(),
{
    if more.len() == 0 {
        reasons
    } else {
        with_reason(with_reasons(reasons, more.drop_last()), more.last())
    }
}

/// The entry that the first candidate for a note makes.
pub open spec fn entry_of(c: CandidateView) -> MergedView {
    MergedView {
        note: NoteView {
            relevance: c.effective,
            match_reasons: with_reason(c.note.match_reasons, role_reason(c.memory_role)),
            ..c.note
        },
        memory_role: c.memory_role,
        source_label: c.source_label,
    }
}

/// The entry after one more candidate for its note: the one with the higher
/// score says what is shown, and the reasons of both are kept.
pub open spec fn entry_after(e: MergedView, c: CandidateView) -> MergedView {
    let reasons = with_reason(
        with_reasons(e.note.match_reasons, c.note.match_reasons),
        role_reason(c.memory_role),
    );
    if c.effective.key > e.note.relevance.key {
        MergedView {
            note: NoteView {
                summary: c.note.summary,
                relevance: c.effective,
                updated_at: c.note.updated_at,
                match_reasons: reasons,
                ..e.note
            },
            memory_role: c.memory_role,
            source_label: c.source_label,
        }
    } else {
        MergedView { note: NoteView { match_reasons: reasons, ..e.note }, ..e }
    }
}

/// The entry of a note after all candidates, in their order.
pub open spec fn merged_entry(candidates: Seq<CandidateView>, id: Seq<char>) -> Option<MergedView>
    decreases candidates.len(),
{
    if candidates.len() == 0 {
        None
    } else {
        let before = merged_entry(candidates.drop_last(), id);
        let c = candidates.last();
        if c.note.note_id != id {
            before
        } else {
            match before {
                Some(e) => Some(entry_after(e, c)),
                None => Some(entry_of(c)),
            }
        }
    }
}

/// The models of the candidates.
pub open spec fn candidate_views(candidates: Seq<NoteContextCandidate>) -> Seq<CandidateView> {
    candidates.map_values(|c: NoteContextCandidate| c@)
}

/// The models of the merged notes.
pub open spec fn merged_views(merged: Seq<MergedNoteContext>) -> Seq<MergedView> {
    merged.map_values(|m: MergedNoteContext| m@)
}

/// The first entry stands before the second: it has the higher score, or the
/// same and a later change.
pub open spec fn ranks_before(a: MergedView, b: MergedView) -> bool {
    a.note.relevance.key > b.note.relevance.key || (a.note.relevance.key == b.note.relevance.key
        && time::after(a.note.updated_at, b.note.updated_at))
}

/// Each entry is what the candidates for its note make, no note stands twice,
/// and every note of a candidate is there.
pub open spec fn is_merge_of(merged: Seq<MergedView>, candidates: Seq<CandidateView>) -> bool {
    &&& forall|i: int| #![trigger merged[i]]
        0 <= i < merged.len() ==> merged_entry(candidates, merged[i].note.note_id) == Some(
            merged[i],
        )
    &&& forall|i: int, j: int|
        0 <= i < j < merged.len() ==> (#[trigger] merged[i]).note.note_id != (
        #[trigger] merged[j]).note.note_id
    &&& forall|k: int| #![trigger candidates[k]]
        0 <= k < candidates.len() ==> has_note(merged, candidates[k].note.note_id)
}

/// An entry for the note is there.
pub open spec fn has_note(merged: Seq<MergedView>, id: Seq<char>) -> bool {
    exists|i: int| 0 <= i < merged.len() && (#[trigger] merged[i]).note.note_id == id
}

/// No entry stands after one that it ranks before.
pub open spec fn is_ranked(merged: Seq<MergedView>) -> bool {
    forall|i: int, j: int|
        0 <= i < j < merged.len() ==> !ranks_before(#[trigger] merged[j], #[trigger] merged[i])
}

fn add_reason(reasons: &mut Vec<String>, reason: &str)
    ensures
        text::views(final(reasons)@) == with_reason(text::views(old(reasons)@), reason@),
{
    if !holds_text(reasons.as_slice(), reason) {
        push_line(reasons, reason.to_string());
    }
}

fn add_reasons(reasons: &mut Vec<String>, more: &[String])
    ensures
        text::views(final(reasons)@) == with_reasons(text::views(old(reasons)@), text::views(more@)),
{
    let ghost start = text::views(reasons@);
    let ghost model = text::views(more@);
    let mut i: usize = 0;
    assert(with_reasons(start, model.take(0)) == start);
    while i < more.len()
        invariant
            i <= more@.len(),
            model == text::views(more@),
            text::views(reasons@) == with_reasons(start, model.take(i as int)),
        decreases more@.len() - i,
    {
        assert(model.take(i + 1).drop_last() =~= model.take(i as int));
        add_reason(reasons, more[i].as_str());
        i += 1;
    }
    assert(model.take(i as int) =~= model);
}

fn new_entry(c: &NoteContextCandidate) -> (r: MergedNoteContext)
    ensures
        r@ == entry_of(c@),
{
    let copied = c.note.copy();
    let mut reasons = copied.match_reasons;
    add_reason(&mut reasons, memory_role_reason(c.memory_role.as_str()));
    let note = NoteRecord { relevance: c.effective.copy(), match_reasons: reasons, ..copied };
    MergedNoteContext {
        note,
        memory_role: c.memory_role.clone(),
        source_label: c.source_label.clone(),
    }
}

fn extend_entry(e: MergedNoteContext, c: &NoteContextCandidate) -> (r: MergedNoteContext)
    ensures
        r@ == entry_after(e@, c@),
{
    let MergedNoteContext { note, memory_role, source_label } = e;
    let mut reasons = note.match_reasons;
    add_reasons(&mut reasons, c.note.match_reasons.as_slice());
    add_reason(&mut reasons, memory_role_reason(c.memory_role.as_str()));
    if c.effective.key > note.relevance.key {
        MergedNoteContext {
            note: NoteRecord {
                summary: c.note.summary.clone(),
                relevance: c.effective.copy(),
                updated_at: c.note.updated_at,
                match_reasons: reasons,
                ..note
            },
            memory_role: c.memory_role.clone(),
            source_label: c.source_label.clone(),
        }
    } else {
        MergedNoteContext {
            note: NoteRecord { match_reasons: reasons, ..note },
            memory_role,
            source_label,
        }
    }
}

proof fn lemma_entry_exists(candidates: Seq<CandidateView>, id: Seq<char>)
    ensures
        merged_entry(candidates, id) is Some <==> exists|k: int|
            0 <= k < candidates.len() && (#[trigger] candidates[k]).note.note_id == id,
    decreases candidates.len(),
{
    if candidates.len() > 0 {
        let before = candidates.drop_last();
        lemma_entry_exists(before, id);
        if exists|k: int| 0 <= k < before.len() && (#[trigger] before[k]).note.note_id == id {
            let k = choose|k: int| 0 <= k < before.len() && (#[trigger] before[k]).note.note_id == id;
            assert(candidates[k].note.note_id == id);
        }
        if exists|k: int| 0 <= k < candidates.len() && (#[trigger] candidates[k]).note.note_id == id
            && candidates.last().note.note_id != id {
            let k = choose|k: int|
                0 <= k < candidates.len() && (#[trigger] candidates[k]).note.note_id == id;
            assert(before[k].note.note_id == id);
        }
        assert(candidates[candidates.len() - 1] == candidates.last());
    }
}

/// The position of the entry for a note.
fn entry_index(merged: &Vec<MergedNoteContext>, id: &str) -> (r: Option<usize>)
    ensures
        match r {
            Some(i) => i < merged@.len() && merged_views(merged@)[i as int].note.note_id == id@,
            None => forall|i: int|
                0 <= i < merged@.len() ==> (#[trigger] merged_views(merged@)[i]).note.note_id
                    != id@,
        },
{
    let mut i: usize = 0;
    while i < merged.len()
        invariant
            i <= merged@.len(),
            forall|j: int|
                0 <= j < i ==> (#[trigger] merged_views(merged@)[j]).note.note_id != id@,
        decreases merged@.len() - i,
    {
        if same_text(merged[i].note.note_id.as_str(), id) {
            return Some(i);
        }
        i += 1;
    }
    None
}

/// The merge with one more candidate, in no particular order.
fn merge_one(merged: Vec<MergedNoteContext>, c: &NoteContextCandidate, Ghost(seen): Ghost<
    Seq<CandidateView>,
>) -> (r: Vec<MergedNoteContext>)
    requires
        is_merge_of(merged_views(merged@), seen),
    ensures
        is_merge_of(merged_views(r@), seen.push(c@)),
{
    let ghost old_model = merged_views(merged@);
    let ghost all = seen.push(c@);
    let mut merged = merged;
    proof {
        assert(all.drop_last() =~= seen);
    }
    match entry_index(&merged, c.note.note_id.as_str()) {
        Some(i) => {
            let entry = merged.swap_remove(i);
            let ghost rest = merged_views(merged@);
            let updated = extend_entry(entry, c);
            let ghost e = updated@;
            merged.push(updated);
            proof {
                let last = old_model.len() - 1;
                let new_model = merged_views(merged@);
                assert(new_model =~= rest.push(e));
                assert(old_model[i as int] == entry@);
                assert(merged_entry(seen, c@.note.note_id) == Some(entry@));
                // Where an entry of the new list stood in the old one.
                let from = |j: int| if j == i { last } else { j };
                assert forall|j: int| 0 <= j < rest.len() implies #[trigger] rest[j]
                    == old_model[from(j)] && from(j) != i by {
                    if j == i {
                        assert(rest[j] == old_model[last]);
                    } else {
                        assert(rest[j] == old_model[j]);
                    }
                }
                assert forall|j: int| #![trigger new_model[j]] 0 <= j
                    < new_model.len() implies merged_entry(all, new_model[j].note.note_id) == Some(
                    new_model[j],
                ) by {
                    if j < rest.len() {
                        assert(new_model[j] == rest[j]);
                        assert(old_model[from(j)].note.note_id != old_model[i as int].note.note_id);
                    }
                }
                assert forall|a: int, b: int| 0 <= a < b < new_model.len() implies (
                #[trigger] new_model[a]).note.note_id != (#[trigger] new_model[b]).note.note_id by {
                    assert(new_model[a] == rest[a]);
                    assert(old_model[from(a)].note.note_id != old_model[i as int].note.note_id);
                    if b < rest.len() {
                        assert(new_model[b] == rest[b]);
                        assert(old_model[from(a)].note.note_id != old_model[from(b)].note.note_id);
                    }
                }
                assert forall|k: int| #![trigger all[k]] 0 <= k < all.len() implies has_note(
                    new_model,
                    all[k].note.note_id,
                ) by {
                    let id = all[k].note.note_id;
                    if k < seen.len() {
                        assert(all[k] == seen[k]);
                        let p = choose|p: int|
                            0 <= p < old_model.len() && (#[trigger] old_model[p]).note.note_id == id;
                        if p == i {
                            assert(new_model[new_model.len() - 1].note.note_id == id);
                        } else if p == last {
                            assert(new_model[i as int] == rest[i as int]);
                            assert(new_model[i as int].note.note_id == id);
                        } else {
                            assert(new_model[p] == rest[p]);
                            assert(new_model[p].note.note_id == id);
                        }
                    } else {
                        assert(new_model[new_model.len() - 1].note.note_id == id);
                    }
                }
            }
        },
        None => {
            let entry = new_entry(c);
            let ghost e = entry@;
            merged.push(entry);
            proof {
                let new_model = merged_views(merged@);
                assert(new_model =~= old_model.push(e));
                lemma_entry_exists(seen, c@.note.note_id);
                if merged_entry(seen, c@.note.note_id) is Some {
                    let k = choose|k: int|
                        0 <= k < seen.len() && (#[trigger] seen[k]).note.note_id == c@.note.note_id;
                    assert(has_note(old_model, seen[k].note.note_id));
                }
                assert forall|j: int| #![trigger new_model[j]] 0 <= j
                    < new_model.len() implies merged_entry(all, new_model[j].note.note_id) == Some(
                    new_model[j],
                ) by {
                    if j < old_model.len() {
                        assert(new_model[j] == old_model[j]);
                    }
                }
                assert forall|a: int, b: int| 0 <= a < b < new_model.len() implies (
                #[trigger] new_model[a]).note.note_id != (#[trigger] new_model[b]).note.note_id by {
                    assert(new_model[a] == old_model[a]);
                    if b < old_model.len() {
                        assert(new_model[b] == old_model[b]);
                    }
                }
                assert forall|k: int| #![trigger all[k]] 0 <= k < all.len() implies has_note(
                    new_model,
                    all[k].note.note_id,
                ) by {
                    let id = all[k].note.note_id;
                    if k < seen.len() {
                        assert(all[k] == seen[k]);
                        let p = choose|p: int|
                            0 <= p < old_model.len() && (#[trigger] old_model[p]).note.note_id == id;
                        assert(new_model[p] == old_model[p]);
                    } else {
                        assert(new_model[new_model.len() - 1].note.note_id == id);
                    }
                }
            }
        },
    }
    merged
}

proof fn lemma_moved_last(s: Seq<MergedView>, t: Seq<MergedView>, p: int, c: Seq<CandidateView>)
    requires
        is_merge_of(s, c),
        s.len() == t.len(),
        0 <= p < s.len(),
        forall|j: int| #![trigger t[j]]
            0 <= j < t.len() ==> t[j] == s[if j < p {
                j
            } else if j == p {
                s.len() - 1
            } else {
                j - 1
            }],
    ensures
        is_merge_of(t, c),
{
    let last = s.len() - 1;
    let from = |j: int| if j < p { j } else if j == p { last } else { j - 1 };
    assert forall|j: int| #![trigger t[j]] 0 <= j < t.len() implies merged_entry(
        c,
        t[j].note.note_id,
    ) == Some(t[j]) by {
        assert(t[j] == s[from(j)]);
    }
    assert forall|a: int, b: int| 0 <= a < b < t.len() implies (#[trigger] t[a]).note.note_id != (
    #[trigger] t[b]).note.note_id by {
        assert(t[a] == s[from(a)]);
        assert(t[b] == s[from(b)]);
        assert(from(a) != from(b));
        if from(a) < from(b) {
            assert(s[from(a)].note.note_id != s[from(b)].note.note_id);
        } else {
            assert(s[from(b)].note.note_id != s[from(a)].note.note_id);
        }
    }
    assert forall|k: int| #![trigger c[k]] 0 <= k < c.len() implies has_note(
        t,
        c[k].note.note_id,
    ) by {
        let id = c[k].note.note_id;
        assert(has_note(s, id));
        let q = choose|q: int| 0 <= q < s.len() && (#[trigger] s[q]).note.note_id == id;
        let j = if q < p && q != last {
            q
        } else if q == last {
            p
        } else {
            q + 1
        };
        assert(t[j] == s[q]);
    }
}

fn rank_before(a: &MergedNoteContext, b: &MergedNoteContext) -> (r: bool)
    ensures
        r == ranks_before(a@, b@),
{
    a.note.relevance.key > b.note.relevance.key || (a.note.relevance.key == b.note.relevance.key
        && a.note.updated_at.is_after(b.note.updated_at))
}

fn rank(merged: Vec<MergedNoteContext>, Ghost(c): Ghost<Seq<CandidateView>>) -> (r: Vec<
    MergedNoteContext,
>)
    requires
        is_merge_of(merged_views(merged@), c),
    ensures
        is_merge_of(merged_views(r@), c),
        is_ranked(merged_views(r@)),
{
    let mut rest = merged;
    let mut out: Vec<MergedNoteContext> = Vec::new();
    assert(merged_views(out@) + merged_views(rest@) =~= merged_views(merged@));
    while rest.len() > 0
        invariant
            is_merge_of(merged_views(out@) + merged_views(rest@), c),
            is_ranked(merged_views(out@)),
        decreases rest@.len(),
    {
        let ghost before = merged_views(out@);
        let ghost whole = before + merged_views(rest@);
        let item = match rest.pop() {
            Some(item) => item,
            None => return out,
        };
        let ghost x = item@;
        let mut p: usize = 0;
        while p < out.len() && !rank_before(&item, &out[p])
            invariant
                p <= out@.len(),
                before == merged_views(out@),
                x == item@,
                forall|j: int| 0 <= j < p ==> !ranks_before(x, #[trigger] before[j]),
            decreases out@.len() - p,
        {
            p += 1;
        }
        out.insert(p, item);
        proof {
            let after = merged_views(out@);
            assert(after =~= before.insert(p as int, x));
            assert(whole[whole.len() - 1] == x);
            lemma_moved_last(whole, after + merged_views(rest@), p as int, c);
            assert forall|i: int, j: int| 0 <= i < j < after.len() implies !ranks_before(
                #[trigger] after[j],
                #[trigger] after[i],
            ) by {
                let of = |k: int| if k < p { k } else { k - 1 };
                if i != p {
                    assert(after[i] == before[of(i)]);
                }
                if j != p {
                    assert(after[j] == before[of(j)]);
                }
                if i == p {
                    assert(!ranks_before(before[j - 1], before[p as int]) || j - 1 == p);
                }
            }
        }
    }
    assert(merged_views(out@) + merged_views(rest@) =~= merged_views(out@));
    out
}

/// One entry for each note, the highest score first and, of equal scores, the
/// latest change first.
pub fn merge_related_note_contexts(candidates: Vec<NoteContextCandidate>) -> (r: Vec<
    MergedNoteContext,
>)
    ensures
        is_merge_of(merged_views(r@), candidate_views(candidates@)),
        is_ranked(merged_views(r@)),
{
    let ghost model = candidate_views(candidates@);
    let mut merged: Vec<MergedNoteContext> = Vec::new();
    let mut i: usize = 0;
    while i < candidates.len()
        invariant
            i <= candidates@.len(),
            model == candidate_views(candidates@),
            is_merge_of(merged_views(merged@), model.take(i as int)),
        decreases candidates@.len() - i,
    {
        assert(model.take(i + 1) =~= model.take(i as int).push(model[i as int]));
        merged = merge_one(merged, &candidates[i], Ghost(model.take(i as int)));
        i += 1;
    }
    assert(model.take(i as int) =~= model);
    rank(merged, Ghost(model))
}

// ---------------------------------------------------------------------------
// Bundles
// ---------------------------------------------------------------------------

/// The notes that fit, and how the conversation shows them.
#[derive(Debug)]
pub struct RelatedNotesBundle {
    pub notes: Vec<NoteRecord>,
    pub conversation_context: Vec<RelatedNoteContext>,
}

/// The notes whose details are shown.
pub fn detail_note_ids(merged: &[MergedNoteContext]) -> (r: Vec<String>)
    ensures
        text::views(r@) == Seq::new(
            notes::at_most(merged@.len(), DETAIL_EXPANSION_LIMIT as nat),
            |i: int| merged@[i].note.note_id@,
        ),
{
    let ghost model = Seq::new(
        notes::at_most(merged@.len(), DETAIL_EXPANSION_LIMIT as nat),
        |i: int| merged@[i].note.note_id@,
    );
    let mut ids: Vec<String> = Vec::new();
    let mut i: usize = 0;
    assert(text::views(ids@) =~= model.take(0));
    while i < DETAIL_EXPANSION_LIMIT && i < merged.len()
        invariant
            i <= DETAIL_EXPANSION_LIMIT,
            i <= merged@.len(),
            model == Seq::new(
                notes::at_most(merged@.len(), DETAIL_EXPANSION_LIMIT as nat),
                |i: int| merged@[i].note.note_id@,
            ),
            text::views(ids@) == model.take(i as int),
        decreases DETAIL_EXPANSION_LIMIT - i,
    {
        push_line(&mut ids, merged[i].note.note_id.clone());
        assert(model.take(i + 1) =~= model.take(i as int).push(model[i as int]));
        i += 1;
    }
    assert(model.take(i as int) =~= model);
    ids
}

/// The excerpt of a note, from the bodies that were loaded.
pub open spec fn excerpt(details: notes::Pairs, id: Seq<char>) -> Option<Seq<char>>
    decreases details.len(),
{
    if details.len() == 0 {
        None
    } else if details[0].0 == id {
        Some(notes::one_line_summary(details[0].1, EXCERPT_LIMIT as nat))
    } else {
        excerpt(details.drop_first(), id)
    }
}

/// An entry as the conversation shows it.
pub open spec fn shown(entry: MergedView, details: notes::Pairs) -> RelatedNoteView {
    RelatedNoteView {
        note: entry.note,
        memory_role: entry.memory_role,
        source_label: entry.source_label,
        detail_excerpt: excerpt(details, entry.note.note_id),
    }
}

/// The models of a list of notes.
pub open spec fn note_views(list: Seq<NoteRecord>) -> Seq<NoteView> {
    list.map_values(|n: NoteRecord| n@)
}

/// The models of a list of related notes.
pub open spec fn related_views(list: Seq<RelatedNoteContext>) -> Seq<RelatedNoteView> {
    list.map_values(|n: RelatedNoteContext| n@)
}

fn excerpt_for(details: &[(String, String)], id: &str) -> (r: Option<String>)
    ensures
        text::opt(r) == excerpt(notes::pairs(details@), id@),
{
    let ghost model = notes::pairs(details@);
    let mut i: usize = 0;
    assert(model.skip(0) =~= model);
    while i < details.len()
        invariant
            i <= details@.len(),
            model == notes::pairs(details@),
            excerpt(model, id@) == excerpt(model.skip(i as int), id@),
        decreases details@.len() - i,
    {
        assert(model.skip(i as int).drop_first() =~= model.skip(i + 1));
        if same_text(details[i].0.as_str(), id) {
            return Some(notes::summarize_text(details[i].1.as_str(), EXCERPT_LIMIT));
        }
        i += 1;
    }
    None
}

/// The merged notes and how the conversation shows them, with the bodies of
/// the notes that were loaded.
pub fn related_notes_bundle(merged: Vec<MergedNoteContext>, details: &[(String, String)]) -> (r:
    RelatedNotesBundle)
    ensures
        note_views(r.notes@) == merged_views(merged@).map_values(|m: MergedView| m.note),
        related_views(r.conversation_context@) == merged_views(merged@).map_values(
            |m: MergedView| shown(m, notes::pairs(details@)),
        ),
{
    let ghost model = merged_views(merged@);
    let mut list: Vec<NoteRecord> = Vec::new();
    let mut context: Vec<RelatedNoteContext> = Vec::new();
    let mut i: usize = 0;
    while i < merged.len()
        invariant
            i <= merged@.len(),
            model == merged_views(merged@),
            note_views(list@) == model.take(i as int).map_values(|m: MergedView| m.note),
            related_views(context@) == model.take(i as int).map_values(
                |m: MergedView| shown(m, notes::pairs(details@)),
            ),
        decreases merged@.len() - i,
    {
        let entry = &merged[i];
        let ghost old_list = note_views(list@);
        let ghost old_context = related_views(context@);
        let note = entry.note.copy();
        let related = RelatedNoteContext {
            note: entry.note.copy(),
            memory_role: entry.memory_role.clone(),
            source_label: entry.source_label.clone(),
            detail_excerpt: excerpt_for(details, entry.note.note_id.as_str()),
        };
        list.push(note);
        context.push(related);
        assert(note_views(list@) =~= old_list.push(note@));
        assert(related_views(context@) =~= old_context.push(related@));
        assert(model.take(i + 1) =~= model.take(i as int).push(model[i as int]));
        assert(note_views(list@) =~= model.take(i + 1).map_values(|m: MergedView| m.note));
        assert(related_views(context@) =~= model.take(i + 1).map_values(
            |m: MergedView| shown(m, notes::pairs(details@)),
        ));
        i += 1;
    }
    assert(model.take(i as int) =~= model);
    RelatedNotesBundle { notes: list, conversation_context: context }
}

// ---------------------------------------------------------------------------
// Laws
// ---------------------------------------------------------------------------

proof fn lemma_with_reasons(reasons: text::Texts, more: text::Texts, r: Seq<char>)
    ensures
        with_reasons(reasons, more).contains(r) <==> reasons.contains(r) || more.contains(r),
    decreases more.len(),
{
    if more.len() > 0 {
        let before = more.drop_last();
        lemma_with_reasons(reasons, before, r);
        lemma_with_reason(with_reasons(reasons, before), more.last(), r);
        if before.contains(r) {
            let k = choose|k: int| 0 <= k < before.len() && before[k] == r;
            assert(more[k] == r);
        }
        if more.contains(r) && more.last() != r {
            let k = choose|k: int| 0 <= k < more.len() && more[k] == r;
            assert(before[k] == r);
        }
        assert(more[more.len() - 1] == more.last());
    }
}

proof fn lemma_with_reason(reasons: text::Texts, reason: Seq<char>, r: Seq<char>)
    ensures
        with_reason(reasons, reason).contains(r) <==> reasons.contains(r) || reason == r,
{
    let result = with_reason(reasons, reason);
    if reasons.contains(r) {
        let k = choose|k: int| 0 <= k < reasons.len() && reasons[k] == r;
        assert(result[k] == r);
    }
    if reason == r && !reasons.contains(r) {
        assert(result[result.len() - 1] == r);
    }
    if result.contains(r) && reason != r {
        let k = choose|k: int| 0 <= k < result.len() && result[k] == r;
        assert(reasons[k] == r);
    }
}

/// Merging loses no reason: those of every candidate for a note, and the one
/// that its role gives, are reasons of the entry.
pub proof fn law_merge_keeps_reasons(candidates: Seq<CandidateView>, k: int, r: Seq<char>)
    requires
        0 <= k < candidates.len(),
        candidates[k].note.match_reasons.contains(r) || role_reason(candidates[k].memory_role) == r,
    ensures
        merged_entry(candidates, candidates[k].note.note_id) matches Some(e)
            && e.note.match_reasons.contains(r),
    decreases candidates.len(),
{
    let id = candidates[k].note.note_id;
    let before = candidates.drop_last();
    let c = candidates.last();
    lemma_entry_exists(candidates, id);
    if k < before.len() {
        assert(before[k] == candidates[k]);
        law_merge_keeps_reasons(before, k, r);
    }
    if c.note.note_id == id {
        match merged_entry(before, id) {
            Some(e) => {
                lemma_with_reasons(e.note.match_reasons, c.note.match_reasons, r);
                lemma_with_reason(
                    with_reasons(e.note.match_reasons, c.note.match_reasons),
                    role_reason(c.memory_role),
                    r,
                );
            },
            None => {
                lemma_with_reason(c.note.match_reasons, role_reason(c.memory_role), r);
            },
        }
    }
}

/// The entry of a note has the score of a candidate for it that none of the
/// others exceeds, and shows the role and the label of that candidate.
pub proof fn law_merge_shows_best(candidates: Seq<CandidateView>, id: Seq<char>)
    ensures
        match merged_entry(candidates, id) {
            Some(e) => {
                &&& forall|k: int| #![trigger candidates[k]]
                    0 <= k < candidates.len() && candidates[k].note.note_id == id
                        ==> candidates[k].effective.key <= e.note.relevance.key
                &&& exists|k: int| #![trigger candidates[k]]
                    0 <= k < candidates.len() && candidates[k].note.note_id == id
                        && candidates[k].effective == e.note.relevance && candidates[k].memory_role
                        == e.memory_role && candidates[k].source_label == e.source_label
                        && candidates[k].note.summary == e.note.summary
                        && candidates[k].note.updated_at == e.note.updated_at
            },
            None => forall|k: int| #![trigger candidates[k]]
                0 <= k < candidates.len() ==> candidates[k].note.note_id != id,
        },
    decreases candidates.len(),
{
    if candidates.len() > 0 {
        let before = candidates.drop_last();
        let c = candidates.last();
        let last = candidates.len() - 1;
        law_merge_shows_best(before, id);
        assert(candidates[last] == c);
        assert forall|k: int| 0 <= k < last implies #[trigger] candidates[k] == before[k] by {}
        if let Some(e) = merged_entry(before, id) {
            let w = choose|k: int| #![trigger before[k]]
                0 <= k < before.len() && before[k].note.note_id == id && before[k].effective
                    == e.note.relevance && before[k].memory_role == e.memory_role
                    && before[k].source_label == e.source_label && before[k].note.summary
                    == e.note.summary && before[k].note.updated_at == e.note.updated_at;
            assert(candidates[w] == before[w]);
        }
    }
}

/// A note that was promoted from the thread is shown as such, whatever a search
/// says of it, as long as the search does not score it as high.
pub proof fn law_direct_memory_wins(direct: CandidateView, found: CandidateView)
    requires
        direct.note.note_id == found.note.note_id,
        found.effective.key <= direct.effective.key,
    ensures
        merged_entry(seq![direct, found], direct.note.note_id) matches Some(e) && e.memory_role
            == direct.memory_role && e.note.relevance == direct.effective,
{
    let both = seq![direct, found];
    assert(both.drop_last() =~= seq![direct]);
    assert(both.drop_last().drop_last() =~= Seq::empty());
    reveal_with_fuel(merged_entry, 3);
}

} // verus!
