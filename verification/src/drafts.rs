//! Execution drafts, built and refined from what the operator writes.

use crate::draft_payload;
use crate::draft_payload::message_execution_draft;
use crate::formatting::sanitize_optional_string;
use crate::models::{DraftView, ExecutionDraft, ExecutionIntent, JobRecord, MessageRecord};
use crate::scan;
use crate::scan::{chars_of, same_text, text_of, CharClass};
use crate::text;
use crate::titles;
use crate::titles::derive_job_title_from_message;
use vstd::prelude::*;
use vstd::slice::slice_subrange;

verus! {

/// Phrases that ask for work on a device.
pub const EXECUTION_PHRASES: [&'static str; 11] = [
    "implement ",
    "fix ",
    "change ",
    "edit ",
    "update ",
    "run ",
    "dispatch ",
    "create a job",
    "send to laptop",
    "review the code",
    "write code",
];

/// Phrases that rule out changes to the repository.
pub const READ_ONLY_PHRASES: [&'static str; 11] = [
    "read-only",
    "read only",
    "do not modify",
    "don't modify",
    "do not change",
    "don't change",
    "no changes",
    "without changing",
    "without modifying",
    "do not create commits",
    "do not request push approval",
];

/// Phrases that ask for information.
pub const INFORMATION_PHRASES: [&'static str; 16] = [
    "what ",
    "which ",
    "explain ",
    "summarize ",
    "summarise ",
    "review ",
    "inspect ",
    "tell me ",
    "report ",
    "find ",
    "identify ",
    "show ",
    "read ",
    "where ",
    "why ",
    "how does ",
];

/// Phrases that refine a draft.
pub const REFINEMENT_PHRASES: [&'static str; 12] = [
    "repo ",
    "repository ",
    "branch ",
    "base branch",
    "title ",
    "call it ",
    "rename ",
    "instead",
    "use ",
    "send it",
    "dispatch it",
    "run it",
];

/// Phrases that make a draft read-only.
pub const READ_ONLY_OVERRIDES: [&'static str; 9] = [
    "read-only",
    "read only",
    "do not modify",
    "don't modify",
    "do not change",
    "don't change",
    "no changes",
    "without changing",
    "without modifying",
];

/// Phrases that let a draft change the repository.
pub const CHANGE_OVERRIDES: [&'static str; 5] = [
    "allow changes",
    "make changes",
    "modify the repo",
    "workspace change",
    "go ahead and change",
];

/// What ends a phrase that is not quoted.
pub const PHRASE_ENDS: [&'static str; 8] = [
    "\n",
    ".",
    ";",
    ", and ",
    " and use ",
    " and switch ",
    " and set ",
    " and keep ",
];

/// Openings of a clause about the draft itself.
pub const METADATA_OPENINGS: [&'static str; 13] = [
    "repo ",
    "repository ",
    "use repo ",
    "use repository ",
    "base branch ",
    "branch ",
    "use branch ",
    "use base branch ",
    "title ",
    "call it ",
    "rename it to ",
    "rename this to ",
    "rename to ",
];

/// What joins such a clause to an instruction.
pub const CLAUSE_JOINTS: [&'static str; 3] = [" and ", ", then ", ", "];

/// Clauses that carry no instruction.
pub const BARE_CLAUSES: [&'static str; 6] = [
    "send it",
    "dispatch it",
    "run it",
    "keep it read-only",
    "make it read-only",
    "leave it read-only",
];

/// What may stand between a keyword and its value.
pub const KEYWORD_SEPARATORS: [char; 2] = [' ', ':'];

/// Punctuation around the value of a keyword.
pub const VALUE_PUNCTUATION: [char; 6] = [',', '.', ';', ':', ')', '('];

/// What may stand between an opening and its phrase.
pub const PHRASE_SEPARATORS: [char; 4] = [' ', ':', '-', '='];

/// What separates the clauses of a refinement.
pub const CLAUSE_ENDS: [char; 3] = ['\n', ';', '.'];

// ---------------------------------------------------------------------------
// Kinds of requests
// ---------------------------------------------------------------------------

/// The text asks for work on a device.
pub open spec fn asks_for_execution(s: Seq<char>) -> bool {
    text::contains_any(text::lower(s), EXECUTION_PHRASES@)
}

/// The text can be served without changes to the repository.
pub open spec fn asks_for_reading(s: Seq<char>) -> bool {
    text::contains_any(text::lower(s), READ_ONLY_PHRASES@) || text::contains_any(
        text::lower(s),
        INFORMATION_PHRASES@,
    )
}

/// The text refines a draft.
pub open spec fn asks_for_refinement(s: Seq<char>) -> bool {
    text::contains_any(text::lower(s), REFINEMENT_PHRASES@)
}

/// The intent that the text suggests.
pub open spec fn inferred_intent(s: Seq<char>) -> ExecutionIntent {
    if asks_for_reading(s) {
        ExecutionIntent::ReadOnly
    } else {
        ExecutionIntent::WorkspaceChange
    }
}

/// The intent that the text demands.
pub open spec fn demanded_intent(s: Seq<char>) -> Option<ExecutionIntent> {
    if text::contains_any(text::lower(s), READ_ONLY_OVERRIDES@) {
        Some(ExecutionIntent::ReadOnly)
    } else if text::contains_any(text::lower(s), CHANGE_OVERRIDES@) {
        Some(ExecutionIntent::WorkspaceChange)
    } else {
        None
    }
}

fn mentions(value: &str, phrases: &[&str]) -> (r: bool)
    ensures
        r == text::contains_any(text::lower(value@), phrases@),
{
    scan::contains_any(scan::lower(chars_of(value).as_slice()).as_slice(), phrases)
}

/// Whether the text asks for work on a device.
pub fn looks_like_execution_request(value: &str) -> (r: bool)
    ensures
        r == asks_for_execution(value@),
{
    let phrases = EXECUTION_PHRASES;
    mentions(value, phrases.as_slice())
}

/// Whether the text can be served without changes to the repository.
pub fn looks_like_read_only_request(value: &str) -> (r: bool)
    ensures
        r == asks_for_reading(value@),
{
    let explicit = READ_ONLY_PHRASES;
    let informational = INFORMATION_PHRASES;
    mentions(value, explicit.as_slice()) || mentions(value, informational.as_slice())
}

/// The intent that the text suggests.
pub fn infer_execution_intent(value: &str) -> (r: ExecutionIntent)
    ensures
        r == inferred_intent(value@),
{
    if looks_like_read_only_request(value) {
        ExecutionIntent::ReadOnly
    } else {
        ExecutionIntent::WorkspaceChange
    }
}

/// Whether the text refines a draft.
pub fn looks_like_draft_refinement(value: &str) -> (r: bool)
    ensures
        r == asks_for_refinement(value@),
{
    let phrases = REFINEMENT_PHRASES;
    mentions(value, phrases.as_slice())
}

/// The intent that the text demands.
pub fn extract_execution_intent_override(value: &str) -> (r: Option<ExecutionIntent>)
    ensures
        r == demanded_intent(value@),
{
    let read_only = READ_ONLY_OVERRIDES;
    let changes = CHANGE_OVERRIDES;
    if mentions(value, read_only.as_slice()) {
        Some(ExecutionIntent::ReadOnly)
    } else if mentions(value, changes.as_slice()) {
        Some(ExecutionIntent::WorkspaceChange)
    } else {
        None
    }
}

// ---------------------------------------------------------------------------
// Hints
// ---------------------------------------------------------------------------

/// What follows the first occurrence of `prefix`, whatever the case of `s`.
pub open spec fn after_prefix(s: Seq<char>, prefix: Seq<char>) -> Option<Seq<char>> {
    match text::find(text::lower(s), prefix) {
        Some(i) => Some(s.skip(i + prefix.len())),
        None => None,
    }
}

/// The text in backticks after `prefix`.
pub open spec fn quoted_hint(s: Seq<char>, prefix: Seq<char>) -> Option<Seq<char>> {
    match after_prefix(s, prefix + " `"@) {
        Some(rest) => match text::find_char(rest, '`') {
            Some(end) => text::present(Some(rest.take(end))),
            None => None,
        },
        None => None,
    }
}

/// The word after `prefix`, without the punctuation around it.
pub open spec fn keyword_hint(s: Seq<char>, prefix: Seq<char>) -> Option<Seq<char>> {
    match after_prefix(s, prefix) {
        Some(rest) => {
            let words = text::words(text::trim_start_by(rest, text::one_of(KEYWORD_SEPARATORS@)));
            if words.len() > 0 {
                text::present(Some(text::trim_by(words[0], text::one_of(VALUE_PUNCTUATION@))))
            } else {
                None
            }
        },
        None => None,
    }
}

/// The phrase after `prefix`: in backticks, or up to where it ends.
pub open spec fn phrase_hint(s: Seq<char>, prefix: Seq<char>) -> Option<Seq<char>> {
    match after_prefix(s, prefix) {
        Some(rest) => {
            let phrase = text::trim_start_by(rest, text::one_of(PHRASE_SEPARATORS@));
            if phrase.len() > 0 && phrase[0] == '`' {
                match text::find_char(phrase.skip(1), '`') {
                    Some(end) => text::present(Some(phrase.skip(1).take(end))),
                    None => None,
                }
            } else {
                let end = text::earliest(phrase, PHRASE_ENDS@, phrase.len() as int);
                text::present(Some(text::trim_by(phrase.take(end), text::just('`'))))
            }
        },
        None => None,
    }
}

/// The repository that the text names.
pub open spec fn repo_hint(s: Seq<char>) -> Option<Seq<char>> {
    text::or_else(
        quoted_hint(s, "repo"@),
        text::or_else(
            quoted_hint(s, "repository"@),
            text::or_else(keyword_hint(s, "repo"@), keyword_hint(s, "repository"@)),
        ),
    )
}

/// The base branch that the text names.
pub open spec fn branch_hint(s: Seq<char>) -> Option<Seq<char>> {
    text::or_else(
        quoted_hint(s, "base branch"@),
        text::or_else(
            quoted_hint(s, "branch"@),
            text::or_else(keyword_hint(s, "base branch"@), keyword_hint(s, "branch"@)),
        ),
    )
}

/// The title that the text gives.
pub open spec fn title_hint(s: Seq<char>) -> Option<Seq<char>> {
    text::or_else(
        quoted_hint(s, "title"@),
        text::or_else(
            phrase_hint(s, "title"@),
            text::or_else(
                phrase_hint(s, "call it"@),
                text::or_else(
                    phrase_hint(s, "rename it to"@),
                    text::or_else(
                        phrase_hint(s, "rename this to"@),
                        phrase_hint(s, "rename to"@),
                    ),
                ),
            ),
        ),
    )
}

fn rest_after(value: &str, prefix: &str) -> (r: Option<Vec<char>>)
    ensures
        match r {
            Some(rest) => after_prefix(value@, prefix@) == Some(rest@),
            None => after_prefix(value@, prefix@) is None,
        },
{
    let chars = chars_of(value);
    let lower = scan::lower(chars.as_slice());
    let prefix = chars_of(prefix);
    match scan::find(lower.as_slice(), prefix.as_slice()) {
        Some(i) => {
            let end = chars.len();
            let tail = slice_subrange(chars.as_slice(), i + prefix.len(), end);
            assert(tail@ =~= value@.skip(i + prefix@.len()));
            Some(scan::copy_chars(tail))
        },
        None => None,
    }
}

fn present_text(chars: &[char]) -> (r: Option<String>)
    ensures
        text::opt(r) == text::present(Some(chars@)),
{
    sanitize_optional_string(Some(text_of(chars)))
}

/// The text in backticks after `prefix`.
pub fn extract_backticked_hint(value: &str, prefix: &str) -> (r: Option<String>)
    ensures
        text::opt(r) == quoted_hint(value@, prefix@),
{
    let pattern = prefix.to_string().concat(" `");
    match rest_after(value, pattern.as_str()) {
        Some(rest) => match scan::find_char(rest.as_slice(), '`') {
            Some(end) => {
                let inner = slice_subrange(rest.as_slice(), 0, end);
                assert(inner@ =~= rest@.take(end as int));
                present_text(inner)
            },
            None => None,
        },
        None => None,
    }
}

/// The word after `prefix`, without the punctuation around it.
pub fn extract_keyword_value(value: &str, prefix: &str) -> (r: Option<String>)
    ensures
        text::opt(r) == keyword_hint(value@, prefix@),
{
    match rest_after(value, prefix) {
        Some(rest) => {
            let separators = KEYWORD_SEPARATORS;
            let punctuation = VALUE_PUNCTUATION;
            let words = scan::words(
                scan::trim_start_by(rest.as_slice(), &CharClass::OneOf(separators.as_slice())),
            );
            if words.len() == 0 {
                return None;
            }
            assert(scan::lists(words@)[0] == words@[0]@);
            present_text(
                scan::trim_by(words[0].as_slice(), &CharClass::OneOf(punctuation.as_slice())),
            )
        },
        None => None,
    }
}

/// The phrase after `prefix`: in backticks, or up to where it ends.
pub fn extract_phrase_value(value: &str, prefix: &str) -> (r: Option<String>)
    ensures
        text::opt(r) == phrase_hint(value@, prefix@),
{
    match rest_after(value, prefix) {
        Some(rest) => {
            let separators = PHRASE_SEPARATORS;
            let phrase = scan::trim_start_by(
                rest.as_slice(),
                &CharClass::OneOf(separators.as_slice()),
            );
            if phrase.len() > 0 && phrase[0] == '`' {
                let stripped = slice_subrange(phrase, 1, phrase.len());
                assert(stripped@ =~= phrase@.skip(1));
                match scan::find_char(stripped, '`') {
                    Some(end) => {
                        let inner = slice_subrange(stripped, 0, end);
                        assert(inner@ =~= stripped@.take(end as int));
                        present_text(inner)
                    },
                    None => None,
                }
            } else {
                let ends = PHRASE_ENDS;
                let end = scan::earliest(phrase, ends.as_slice());
                let inner = slice_subrange(phrase, 0, end);
                assert(inner@ =~= phrase@.take(end as int));
                present_text(scan::trim_by(inner, &CharClass::Just('`')))
            }
        },
        None => None,
    }
}

/// The repository that the text names.
pub fn extract_repo_hint(value: &str) -> (r: Option<String>)
    ensures
        text::opt(r) == repo_hint(value@),
{
    if let Some(hint) = extract_backticked_hint(value, "repo") {
        return Some(hint);
    }
    if let Some(hint) = extract_backticked_hint(value, "repository") {
        return Some(hint);
    }
    if let Some(hint) = extract_keyword_value(value, "repo") {
        return Some(hint);
    }
    extract_keyword_value(value, "repository")
}

/// The base branch that the text names.
pub fn extract_base_branch_hint(value: &str) -> (r: Option<String>)
    ensures
        text::opt(r) == branch_hint(value@),
{
    if let Some(hint) = extract_backticked_hint(value, "base branch") {
        return Some(hint);
    }
    if let Some(hint) = extract_backticked_hint(value, "branch") {
        return Some(hint);
    }
    if let Some(hint) = extract_keyword_value(value, "base branch") {
        return Some(hint);
    }
    extract_keyword_value(value, "branch")
}

/// The title that the text gives.
pub fn extract_title_hint(value: &str) -> (r: Option<String>)
    ensures
        text::opt(r) == title_hint(value@),
{
    if let Some(hint) = extract_backticked_hint(value, "title") {
        return Some(hint);
    }
    if let Some(hint) = extract_phrase_value(value, "title") {
        return Some(hint);
    }
    if let Some(hint) = extract_phrase_value(value, "call it") {
        return Some(hint);
    }
    if let Some(hint) = extract_phrase_value(value, "rename it to") {
        return Some(hint);
    }
    if let Some(hint) = extract_phrase_value(value, "rename this to") {
        return Some(hint);
    }
    extract_phrase_value(value, "rename to")
}

// ---------------------------------------------------------------------------
// Refinements
// ---------------------------------------------------------------------------

/// What a clause about the draft says besides: the instruction joined to it, or
/// nothing. `None` where the clause is not about the draft.
pub open spec fn metadata_rest(clause: Seq<char>) -> Option<Seq<char>> {
    let lower = text::lower(clause);
    if text::starts_with_any(lower, METADATA_OPENINGS@) {
        match text::first_needle(lower, CLAUSE_JOINTS@) {
            Some(k) => Some(
                text::trim(after_prefix(clause, CLAUSE_JOINTS@[k]@).unwrap()),
            ),
            None => Some(Seq::<char>::empty()),
        }
    } else {
        None
    }
}

/// The clause says nothing of the work itself.
pub open spec fn is_metadata(clause: Seq<char>) -> bool {
    text::is_any(text::lower(clause), BARE_CLAUSES@) || title_hint(clause) is Some || repo_hint(
        clause,
    ) is Some || branch_hint(clause) is Some || demanded_intent(clause) is Some
}

/// The instruction in a clause.
pub open spec fn clause_instruction(raw: Seq<char>) -> Option<Seq<char>> {
    let clause = text::trim(raw);
    if clause.len() == 0 {
        None
    } else {
        match metadata_rest(clause) {
            Some(rest) => if rest.len() > 0 && !is_metadata(rest) {
                Some(rest)
            } else {
                None
            },
            None => if is_metadata(clause) {
                None
            } else {
                Some(clause)
            },
        }
    }
}

/// The instructions in the clauses, in order.
pub open spec fn instructions(clauses: text::Texts) -> text::Texts
    decreases clauses.len(),
{
    if clauses.len() == 0 {
        clauses
    } else {
        text::with_line(instructions(clauses.drop_last()), clause_instruction(clauses.last()))
    }
}

/// What a refinement adds to the request.
pub open spec fn request_update(s: Seq<char>) -> Option<Seq<char>> {
    text::present(
        Some(text::join(instructions(text::split_by(s, text::one_of(CLAUSE_ENDS@))), " "@)),
    )
}

/// What a clause about the draft says besides: the instruction joined to it, or
/// nothing. `None` where the clause is not about the draft.
pub fn strip_metadata_prefix(clause: &str) -> (r: Option<String>)
    ensures
        text::opt(r) == metadata_rest(clause@),
{
    let lower = scan::lower(chars_of(clause).as_slice());
    let openings = METADATA_OPENINGS;
    if !scan::starts_with_any(lower.as_slice(), openings.as_slice()) {
        return None;
    }
    let joints = CLAUSE_JOINTS;
    match scan::first_needle(lower.as_slice(), joints.as_slice()) {
        Some(k) => {
            proof {
                lemma_first_needle_stands(lower@, joints@);
            }
            match rest_after(clause, joints[k]) {
                Some(rest) => Some(text_of(scan::trim(rest.as_slice()))),
                None => Some(scan::empty_text()),
            }
        },
        None => Some(scan::empty_text()),
    }
}

proof fn lemma_first_needle_stands(s: Seq<char>, needles: Seq<&str>)
    ensures
        text::first_needle(s, needles) matches Some(k) ==> 0 <= k < needles.len()
            && text::contains(s, needles[k]@),
    decreases needles.len(),
{
    if needles.len() > 0 {
        lemma_first_needle_stands(s, needles.drop_last());
    }
}

/// Whether the clause says nothing of the work itself.
pub fn is_metadata_only_clause(clause: &str) -> (r: bool)
    ensures
        r == is_metadata(clause@),
{
    let bare = BARE_CLAUSES;
    if scan::is_any(scan::lower_text(clause).as_str(), bare.as_slice()) {
        return true;
    }
    extract_title_hint(clause).is_some() || extract_repo_hint(clause).is_some()
        || extract_base_branch_hint(clause).is_some() || extract_execution_intent_override(
        clause,
    ).is_some()
}

fn instruction_of(raw: &str) -> (r: Option<String>)
    ensures
        text::opt(r) == clause_instruction(raw@),
{
    let clause = scan::trim_text(raw);
    if chars_of(clause.as_str()).len() == 0 {
        return None;
    }
    match strip_metadata_prefix(clause.as_str()) {
        Some(rest) => {
            if chars_of(rest.as_str()).len() > 0 && !is_metadata_only_clause(rest.as_str()) {
                Some(rest)
            } else {
                None
            }
        },
        None => {
            if is_metadata_only_clause(clause.as_str()) {
                None
            } else {
                Some(clause)
            }
        },
    }
}

/// What a refinement adds to the request.
pub fn extract_refinement_request_update(value: &str) -> (r: Option<String>)
    ensures
        text::opt(r) == request_update(value@),
{
    let ends = CLAUSE_ENDS;
    let clauses = scan::split_by(chars_of(value).as_slice(), &CharClass::OneOf(ends.as_slice()));
    let ghost model = scan::lists(clauses@);
    let mut fragments: Vec<String> = Vec::new();
    let mut i: usize = 0;
    assert(text::views(fragments@) =~= instructions(model.take(0)));
    while i < clauses.len()
        invariant
            i <= clauses@.len(),
            model == scan::lists(clauses@),
            text::views(fragments@) == instructions(model.take(i as int)),
        decreases clauses@.len() - i,
    {
        assert(model.take(i + 1).drop_last() =~= model.take(i as int));
        if let Some(fragment) = instruction_of(text_of(clauses[i].as_slice()).as_str()) {
            scan::push_line(&mut fragments, fragment);
        }
        i += 1;
    }
    assert(model.take(i as int) =~= model);
    sanitize_optional_string(Some(scan::join_texts(fragments.as_slice(), " ")))
}

/// What a refinement says of a draft.
#[derive(Debug, PartialEq, Eq)]
pub struct DraftRefinement {
    pub repo_name: Option<String>,
    pub base_branch: Option<String>,
    pub title: Option<String>,
    pub request_update: Option<String>,
}

/// The model of a refinement.
pub struct RefinementView {
    pub repo_name: Option<Seq<char>>,
    pub base_branch: Option<Seq<char>>,
    pub title: Option<Seq<char>>,
    pub request_update: Option<Seq<char>>,
}

impl View for DraftRefinement {
    type V = RefinementView;

    open spec fn view(&self) -> RefinementView {
        RefinementView {
            repo_name: text::opt(self.repo_name),
            base_branch: text::opt(self.base_branch),
            title: text::opt(self.title),
            request_update: text::opt(self.request_update),
        }
    }
}

/// What the text says of a draft.
pub open spec fn refinement(s: Seq<char>) -> RefinementView {
    RefinementView {
        repo_name: repo_hint(s),
        base_branch: branch_hint(s),
        title: title_hint(s),
        request_update: request_update(s),
    }
}

/// What the text says of a draft.
pub fn parse_draft_refinement(value: &str) -> (r: DraftRefinement)
    ensures
        r@ == refinement(value@),
{
    DraftRefinement {
        repo_name: extract_repo_hint(value),
        base_branch: extract_base_branch_hint(value),
        title: extract_title_hint(value),
        request_update: extract_refinement_request_update(value),
    }
}

/// The request with an instruction appended, unless it is the request itself.
pub open spec fn merged_request(previous: Seq<char>, update: Option<Seq<char>>) -> Seq<char> {
    match text::present(update) {
        Some(u) => if text::trim(previous) == u {
            previous
        } else {
            previous + "\n\nAdditional instruction: "@ + u
        },
        None => previous,
    }
}

/// The request with an instruction appended, unless it is the request itself.
pub fn merge_request_text(previous_request: &str, request_update: Option<&str>) -> (r: String)
    ensures
        r@ == merged_request(previous_request@, text::opt_str(request_update)),
{
    match request_update {
        Some(value) => {
            let update = scan::trim_text(value);
            if chars_of(update.as_str()).len() == 0 {
                return previous_request.to_string();
            }
            if same_text(scan::trim_text(previous_request).as_str(), update.as_str()) {
                previous_request.to_string()
            } else {
                previous_request.to_string().concat("\n\nAdditional instruction: ").concat(
                    update.as_str(),
                )
            }
        },
        None => previous_request.to_string(),
    }
}

// ---------------------------------------------------------------------------
// Drafts
// ---------------------------------------------------------------------------

/// The last message of the user.
pub open spec fn last_user(messages: Seq<MessageRecord>) -> Option<MessageRecord>
    decreases messages.len(),
{
    if messages.len() == 0 {
        None
    } else if messages.last().role@ == "user"@ {
        Some(messages.last())
    } else {
        last_user(messages.drop_last())
    }
}

/// The last draft that a message carries.
pub open spec fn last_draft(messages: Seq<MessageRecord>) -> Option<DraftView>
    decreases messages.len(),
{
    if messages.len() == 0 {
        None
    } else if draft_payload::message_draft(messages.last()) is Some {
        draft_payload::message_draft(messages.last())
    } else {
        last_draft(messages.drop_last())
    }
}

/// The position of the last message of the user.
pub fn last_user_index(messages: &[MessageRecord]) -> (r: Option<usize>)
    ensures
        match r {
            Some(i) => i < messages@.len() && last_user(messages@) == Some(messages@[i as int]),
            None => last_user(messages@) is None,
        },
{
    let mut n: usize = messages.len();
    assert(messages@.take(n as int) =~= messages@);
    while n > 0
        invariant
            n <= messages@.len(),
            last_user(messages@) == last_user(messages@.take(n as int)),
        decreases n,
    {
        assert(messages@.take(n as int).drop_last() =~= messages@.take(n - 1));
        if same_text(messages[n - 1].role.as_str(), "user") {
            return Some(n - 1);
        }
        n -= 1;
    }
    None
}

fn last_execution_draft(messages: &[MessageRecord]) -> (r: Option<ExecutionDraft>)
    ensures
        draft_payload::opt_draft(r) == last_draft(messages@),
{
    let mut n: usize = messages.len();
    assert(messages@.take(n as int) =~= messages@);
    while n > 0
        invariant
            n <= messages@.len(),
            last_draft(messages@) == last_draft(messages@.take(n as int)),
        decreases n,
    {
        assert(messages@.take(n as int).drop_last() =~= messages@.take(n - 1));
        if let Some(draft) = message_execution_draft(&messages[n - 1]) {
            return Some(draft);
        }
        n -= 1;
    }
    None
}

/// The repository of the first job.
pub open spec fn first_repo(jobs: Seq<JobRecord>) -> Option<Seq<char>> {
    if jobs.len() > 0 {
        Some(jobs[0].repo_name@)
    } else {
        None
    }
}

/// The base branch of the first job.
pub open spec fn first_branch(jobs: Seq<JobRecord>) -> Option<Seq<char>> {
    if jobs.len() > 0 {
        text::opt(jobs[0].base_branch)
    } else {
        None
    }
}

/// Why the draft was made.
pub open spec fn draft_rationale(refines: bool, intent: ExecutionIntent) -> Seq<char> {
    if refines {
        "Updated the draft using the latest conversational refinement without dispatching a job."@
    } else if intent is ReadOnly {
        "Prepared as a read-only repository investigation so the laptop can inspect and report without creating durable repo changes."@
    } else {
        "Prepared from the latest user request so it can be reviewed before dispatch."@
    }
}

/// The draft that a request for work gives, after `previous`.
pub open spec fn requested_draft(
    id: Seq<char>,
    role: Seq<char>,
    request: Seq<char>,
    previous: Option<DraftView>,
    jobs: Seq<JobRecord>,
) -> DraftView {
    DraftView {
        title: titles::job_title(request),
        repo_name: text::or_else(
            repo_hint(request),
            text::or_else(
                match previous {
                    Some(p) => p.repo_name,
                    None => None,
                },
                first_repo(jobs),
            ),
        ),
        base_branch: text::or_value(
            text::or_else(
                branch_hint(request),
                match previous {
                    Some(p) => Some(p.base_branch),
                    None => first_branch(jobs),
                },
            ),
            "main"@,
        ),
        request_text: request,
        execution_intent: inferred_intent(request),
        source_message_id: id,
        source_role: role,
        rationale: draft_rationale(
            previous is Some && asks_for_refinement(request),
            inferred_intent(request),
        ),
    }
}

/// The draft that a refinement of `previous` gives.
pub open spec fn refined_draft(
    id: Seq<char>,
    role: Seq<char>,
    request: Seq<char>,
    previous: DraftView,
    jobs: Seq<JobRecord>,
) -> DraftView {
    let said = refinement(request);
    let merged = merged_request(text::trim(previous.request_text), said.request_update);
    DraftView {
        title: match said.title {
            Some(title) => title,
            None => match said.request_update {
                Some(update) => titles::job_title(update),
                None => previous.title,
            },
        },
        repo_name: text::or_else(
            said.repo_name,
            text::or_else(previous.repo_name, first_repo(jobs)),
        ),
        base_branch: text::or_value(said.base_branch, previous.base_branch),
        request_text: merged,
        execution_intent: text::or_value(demanded_intent(request), previous.execution_intent),
        source_message_id: id,
        source_role: role,
        rationale: draft_rationale(true, ExecutionIntent::WorkspaceChange),
    }
}

/// The draft after the last message of the user: a request for work gives a new
/// one, and anything else that refines the last draft gives that, refined.
pub open spec fn next_draft(
    messages: Seq<MessageRecord>,
    jobs: Seq<JobRecord>,
) -> Option<DraftView> {
    match last_user(messages) {
        Some(user) => {
            let request = text::trim(user.content@);
            let previous = last_draft(messages);
            if asks_for_execution(request) {
                Some(requested_draft(user.id@, user.role@, request, previous, jobs))
            } else if previous is Some && asks_for_refinement(request) {
                Some(refined_draft(user.id@, user.role@, request, previous.unwrap(), jobs))
            } else {
                None
            }
        },
        None => None,
    }
}

fn draft_for_request(
    user: &MessageRecord,
    request: &str,
    previous: Option<ExecutionDraft>,
    jobs: &[JobRecord],
) -> (r: ExecutionDraft)
    ensures
        r@ == requested_draft(
            user.id@,
            user.role@,
            request@,
            draft_payload::opt_draft(previous),
            jobs@,
        ),
{
    let had_previous = previous.is_some();
    let (previous_repo, previous_branch) = match previous {
        Some(draft) => (draft.repo_name, Some(draft.base_branch)),
        None => (None, None),
    };
    let repo_name = match extract_repo_hint(request) {
        Some(name) => Some(name),
        None => match previous_repo {
            Some(name) => Some(name),
            None => if jobs.len() > 0 {
                Some(jobs[0].repo_name.clone())
            } else {
                None
            },
        },
    };
    let base_branch = match extract_base_branch_hint(request) {
        Some(branch) => branch,
        None => match previous_branch {
            Some(branch) => branch,
            None => job_base_branch(jobs),
        },
    };
    let execution_intent = infer_execution_intent(request);
    let rationale = if had_previous && looks_like_draft_refinement(request) {
        "Updated the draft using the latest conversational refinement without dispatching a job."
    } else {
        match execution_intent {
            ExecutionIntent::ReadOnly =>
            "Prepared as a read-only repository investigation so the laptop can inspect and report without creating durable repo changes.",
            ExecutionIntent::WorkspaceChange =>
            "Prepared from the latest user request so it can be reviewed before dispatch.",
        }
    };
    ExecutionDraft {
        title: derive_job_title_from_message(request),
        repo_name,
        base_branch,
        request_text: request.to_string(),
        execution_intent,
        source_message_id: user.id.clone(),
        source_role: user.role.clone(),
        rationale: rationale.to_string(),
    }
}

fn job_base_branch(jobs: &[JobRecord]) -> (r: String)
    ensures
        r@ == text::or_value(first_branch(jobs@), "main"@),
{
    if jobs.len() > 0 {
        if let Some(branch) = &jobs[0].base_branch {
            return branch.clone();
        }
    }
    "main".to_string()
}

fn refine_draft(
    user: &MessageRecord,
    request: &str,
    previous: ExecutionDraft,
    jobs: &[JobRecord],
) -> (r: ExecutionDraft)
    ensures
        r@ == refined_draft(user.id@, user.role@, request@, previous@, jobs@),
{
    let said = parse_draft_refinement(request);
    let update = match &said.request_update {
        Some(update) => Some(update.as_str()),
        None => None,
    };
    let merged = merge_request_text(
        scan::trim_text(previous.request_text.as_str()).as_str(),
        update,
    );
    let title = match said.title {
        Some(title) => title,
        None => match update {
            Some(update) => derive_job_title_from_message(update),
            None => previous.title,
        },
    };
    let repo_name = match said.repo_name {
        Some(name) => Some(name),
        None => match previous.repo_name {
            Some(name) => Some(name),
            None => if jobs.len() > 0 {
                Some(jobs[0].repo_name.clone())
            } else {
                None
            },
        },
    };
    let base_branch = match said.base_branch {
        Some(branch) => branch,
        None => previous.base_branch,
    };
    let execution_intent = match extract_execution_intent_override(request) {
        Some(intent) => intent,
        None => previous.execution_intent,
    };
    ExecutionDraft {
        title,
        repo_name,
        base_branch,
        request_text: merged,
        execution_intent,
        source_message_id: user.id.clone(),
        source_role: user.role.clone(),
        rationale: "Updated the draft using the latest conversational refinement without dispatching a job.".to_string(),
    }
}

/// The draft after the last message of the user.
pub fn maybe_build_execution_draft(
    messages: &[MessageRecord],
    jobs: &[JobRecord],
) -> (r: Option<ExecutionDraft>)
    ensures
        draft_payload::opt_draft(r) == next_draft(messages@, jobs@),
{
    let index = match last_user_index(messages) {
        Some(index) => index,
        None => return None,
    };
    let user = &messages[index];
    let request = scan::trim_text(user.content.as_str());
    let previous = last_execution_draft(messages);
    if looks_like_execution_request(request.as_str()) {
        return Some(draft_for_request(user, request.as_str(), previous, jobs));
    }
    match previous {
        Some(previous) => {
            if looks_like_draft_refinement(request.as_str()) {
                Some(refine_draft(user, request.as_str(), previous, jobs))
            } else {
                None
            }
        },
        None => None,
    }
}

// ---------------------------------------------------------------------------
// Laws
// ---------------------------------------------------------------------------

/// A read-only draft stays read-only under a refinement that does not clearly
/// ask for changes.
pub proof fn law_refinement_keeps_read_only(
    id: Seq<char>,
    role: Seq<char>,
    request: Seq<char>,
    previous: DraftView,
    jobs: Seq<JobRecord>,
)
    requires
        previous.execution_intent is ReadOnly,
        !text::contains_any(text::lower(request), CHANGE_OVERRIDES@),
    ensures
        refined_draft(id, role, request, previous, jobs).execution_intent is ReadOnly,
{
}

/// A refinement that speaks of the draft only leaves the request as it is, but
/// for white space around it, and keeps the title unless it gives one.
pub proof fn law_metadata_keeps_request(
    id: Seq<char>,
    role: Seq<char>,
    request: Seq<char>,
    previous: DraftView,
    jobs: Seq<JobRecord>,
)
    requires
        request_update(request) is None,
    ensures
        refined_draft(id, role, request, previous, jobs).request_text == text::trim(
            previous.request_text,
        ),
        title_hint(request) is None ==> refined_draft(id, role, request, previous, jobs).title
            == previous.title,
{
}

/// A refinement never shortens the request: what was asked for stays in front.
pub proof fn law_refinement_extends_request(
    id: Seq<char>,
    role: Seq<char>,
    request: Seq<char>,
    previous: DraftView,
    jobs: Seq<JobRecord>,
)
    ensures
        text::starts_with(
            refined_draft(id, role, request, previous, jobs).request_text,
            text::trim(previous.request_text),
        ),
{
    let kept = text::trim(previous.request_text);
    let merged = refined_draft(id, role, request, previous, jobs).request_text;
    assert(merged.take(kept.len() as int) =~= kept);
}

/// The clauses that speak of the draft only add nothing to the request.
pub proof fn law_metadata_clauses_add_nothing(clauses: text::Texts)
    requires
        forall|i: int| 0 <= i < clauses.len() ==> clause_instruction(#[trigger] clauses[i]) is None,
    ensures
        instructions(clauses).len() == 0,
    decreases clauses.len(),
{
    if clauses.len() > 0 {
        let before = clauses.drop_last();
        assert forall|i: int| 0 <= i < before.len() implies clause_instruction(
            #[trigger] before[i],
        ) is None by {
            assert(before[i] == clauses[i]);
        }
        law_metadata_clauses_add_nothing(before);
        assert(clause_instruction(clauses[clauses.len() - 1]) is None);
    }
}

} // verus!
