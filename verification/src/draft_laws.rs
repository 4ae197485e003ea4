//! What drafting promises: which message a draft is made of, what it takes from
//! the request, and what it keeps of what was known before.

use crate::draft_payload;
use crate::drafts;
use crate::drafts::DraftRefinement;
use crate::json::{Json, JsonView};
use crate::models::{DraftView, ExecutionDraft, ExecutionIntent, JobRecord, MessageRecord};
use crate::text;
use crate::text_lemmas;
use crate::titles;
use vstd::prelude::*;

verus! {

// ---------------------------------------------------------------------------
// The messages that count
// ---------------------------------------------------------------------------

/// The latest message of the user counts, however many messages of others follow
/// it.
pub proof fn law_latest_user_message_counts(messages: Seq<MessageRecord>, i: int)
    requires
        0 <= i < messages.len(),
        messages[i].role@ == "user"@,
        forall|j: int| i < j < messages.len() ==> (#[trigger] messages[j]).role@ != "user"@,
    ensures
        drafts::last_user(messages) == Some(messages[i]),
    decreases messages.len(),
{
    if i < messages.len() - 1 {
        let front = messages.drop_last();
        assert(messages.last() == messages[messages.len() - 1]);
        assert forall|j: int| i < j < front.len() implies (#[trigger] front[j]).role@ != "user"@ by {
            assert(front[j] == messages[j]);
        }
        law_latest_user_message_counts(front, i);
    }
}

/// The latest draft in the thread counts, however many messages without one
/// follow it.
pub proof fn law_latest_draft_counts(messages: Seq<MessageRecord>, i: int)
    requires
        0 <= i < messages.len(),
        draft_payload::message_draft(messages[i]) is Some,
        forall|j: int|
            i < j < messages.len() ==> draft_payload::message_draft(#[trigger] messages[j]) is None,
    ensures
        drafts::last_draft(messages) == draft_payload::message_draft(messages[i]),
    decreases messages.len(),
{
    if i < messages.len() - 1 {
        let front = messages.drop_last();
        assert(messages.last() == messages[messages.len() - 1]);
        assert forall|j: int| i < j < front.len() implies draft_payload::message_draft(
            #[trigger] front[j],
        ) is None by {
            assert(front[j] == messages[j]);
        }
        law_latest_draft_counts(front, i);
    }
}

/// There is a user message to answer, or an earlier draft to refine, exactly
/// where some message of the thread is one or holds one.
#[verifier::rlimit(60)]
pub proof fn law_some_message_counts(messages: Seq<MessageRecord>)
    ensures
        drafts::last_user(messages) is Some <==> exists|i: int|
            0 <= i < messages.len() && (#[trigger] messages[i]).role@ == "user"@,
        drafts::last_draft(messages) is Some <==> exists|i: int|
            0 <= i < messages.len() && draft_payload::message_draft(#[trigger] messages[i]) is Some,
    decreases messages.len(),
{
    if messages.len() > 0 {
        let front = messages.drop_last();
        law_some_message_counts(front);
        assert(messages.last() == messages[messages.len() - 1]);
        assert forall|i: int| 0 <= i < front.len() implies #[trigger] front[i] == messages[i] by {}
        if exists|i: int| 0 <= i < messages.len() && (#[trigger] messages[i]).role@ == "user"@ {
            let i = choose|i: int|
                0 <= i < messages.len() && (#[trigger] messages[i]).role@ == "user"@;
            if i < front.len() {
                assert(front[i].role@ == "user"@);
            }
        }
        if exists|i: int|
            0 <= i < messages.len() && draft_payload::message_draft(
                #[trigger] messages[i],
            ) is Some {
            let i = choose|i: int|
                0 <= i < messages.len() && draft_payload::message_draft(
                    #[trigger] messages[i],
                ) is Some;
            if i < front.len() {
                assert(draft_payload::message_draft(front[i]) is Some);
            }
        }
    }
}

// ---------------------------------------------------------------------------
// Drafts
// ---------------------------------------------------------------------------

/// The message `i` is the latest one of the user.
pub open spec fn is_latest_request(messages: Seq<MessageRecord>, i: int) -> bool {
    0 <= i < messages.len() && messages[i].role@ == "user"@ && forall|j: int|
        i < j < messages.len() ==> (#[trigger] messages[j]).role@ != "user"@
}

/// A draft is made exactly where the user asks for work, or where there is a
/// draft and the user says how to refine it.
pub proof fn law_when_a_draft_is_made(
    messages: &[MessageRecord],
    jobs: &[JobRecord],
    i: int,
    r: Option<ExecutionDraft>,
)
    requires
        call_ensures(drafts::maybe_build_execution_draft, (messages, jobs), r),
        is_latest_request(messages@, i),
    ensures
        r is Some <==> (drafts::asks_for_execution(text::trim(messages@[i].content@)) || (
        drafts::asks_for_refinement(text::trim(messages@[i].content@)) && exists|j: int|
            0 <= j < messages@.len() && draft_payload::message_draft(
                #[trigger] messages@[j],
            ) is Some)),
        r matches Some(d) ==> d.source_message_id@ == messages@[i].id@ && d.source_role@ == "user"@,
{
    law_latest_user_message_counts(messages@, i);
    law_some_message_counts(messages@);
}

/// Without a message of the user there is no draft.
pub proof fn law_no_draft_without_user(
    messages: &[MessageRecord],
    jobs: &[JobRecord],
    r: Option<ExecutionDraft>,
)
    requires
        call_ensures(drafts::maybe_build_execution_draft, (messages, jobs), r),
        forall|i: int| 0 <= i < messages@.len() ==> (#[trigger] messages@[i]).role@ != "user"@,
    ensures
        r is None,
{
    law_some_message_counts(messages@);
}

/// The repository that the user names is the draft's, whatever the earlier draft
/// and the jobs of the thread say.
pub proof fn law_named_repository_decides(
    messages: &[MessageRecord],
    jobs: &[JobRecord],
    i: int,
    r: Option<ExecutionDraft>,
    name: Seq<char>,
)
    requires
        call_ensures(drafts::maybe_build_execution_draft, (messages, jobs), r),
        is_latest_request(messages@, i),
        drafts::repo_hint(text::trim(messages@[i].content@)) == Some(name),
    ensures
        r matches Some(d) ==> d@.repo_name == Some(name),
{
    law_latest_user_message_counts(messages@, i);
}

/// The branch that the user names is the draft's, whatever the earlier draft and
/// the jobs of the thread say.
pub proof fn law_named_branch_decides(
    messages: &[MessageRecord],
    jobs: &[JobRecord],
    i: int,
    r: Option<ExecutionDraft>,
    name: Seq<char>,
)
    requires
        call_ensures(drafts::maybe_build_execution_draft, (messages, jobs), r),
        is_latest_request(messages@, i),
        drafts::branch_hint(text::trim(messages@[i].content@)) == Some(name),
    ensures
        r matches Some(d) ==> d.base_branch@ == name,
{
    law_latest_user_message_counts(messages@, i);
}

/// Where the user names no repository, the draft has that of the earlier draft;
/// where that has none either, that of the thread's first job.
pub proof fn law_repository_is_carried_over(
    messages: &[MessageRecord],
    jobs: &[JobRecord],
    i: int,
    r: Option<ExecutionDraft>,
)
    requires
        call_ensures(drafts::maybe_build_execution_draft, (messages, jobs), r),
        is_latest_request(messages@, i),
        drafts::repo_hint(text::trim(messages@[i].content@)) is None,
    ensures
        r matches Some(d) ==> match drafts::last_draft(messages@) {
            Some(previous) => if previous.repo_name is Some {
                d@.repo_name == previous.repo_name
            } else {
                if jobs@.len() > 0 {
                    d@.repo_name == Some(jobs@[0].repo_name@)
                } else {
                    d@.repo_name is None
                }
            },
            None => if jobs@.len() > 0 {
                d@.repo_name == Some(jobs@[0].repo_name@)
            } else {
                d@.repo_name is None
            },
        },
{
    law_latest_user_message_counts(messages@, i);
}

/// Where the user names no branch, the draft has that of the earlier draft;
/// without one, that of the thread's first job; without that, `main`.
pub proof fn law_branch_is_carried_over(
    messages: &[MessageRecord],
    jobs: &[JobRecord],
    i: int,
    r: Option<ExecutionDraft>,
)
    requires
        call_ensures(drafts::maybe_build_execution_draft, (messages, jobs), r),
        is_latest_request(messages@, i),
        drafts::branch_hint(text::trim(messages@[i].content@)) is None,
    ensures
        r matches Some(d) ==> match drafts::last_draft(messages@) {
            Some(previous) => d.base_branch@ == previous.base_branch,
            None => if jobs@.len() > 0 && jobs@[0].base_branch is Some {
                d.base_branch@ == jobs@[0].base_branch.unwrap()@
            } else {
                d.base_branch@ == "main"@
            },
        },
{
    law_latest_user_message_counts(messages@, i);
}

/// A request for work starts afresh: its text is the user's, and its title and
/// intent are read from that text alone.
pub proof fn law_request_for_work_starts_afresh(
    messages: &[MessageRecord],
    jobs: &[JobRecord],
    i: int,
    r: Option<ExecutionDraft>,
)
    requires
        call_ensures(drafts::maybe_build_execution_draft, (messages, jobs), r),
        is_latest_request(messages@, i),
        drafts::asks_for_execution(text::trim(messages@[i].content@)),
    ensures
        r matches Some(d) && d.request_text@ == text::trim(messages@[i].content@) && d.title@
            == titles::job_title(text::trim(messages@[i].content@)) && (d.execution_intent is ReadOnly
            <==> drafts::asks_for_reading(text::trim(messages@[i].content@))) && (d.rationale@
            == drafts::draft_rationale(true, d.execution_intent) <==> drafts::last_draft(
            messages@,
        ) is Some && drafts::asks_for_refinement(text::trim(messages@[i].content@))) && (
        d.rationale@ == drafts::draft_rationale(false, d.execution_intent) || d.rationale@
            == drafts::draft_rationale(true, d.execution_intent)),
{
    law_latest_user_message_counts(messages@, i);
    lemma_rationales();
}

/// A refinement keeps what was asked for in front and adds what the user adds.
/// The intent stays unless the user clearly asks for another. A title that the
/// user gives is taken.
#[verifier::rlimit(60)]
pub proof fn law_refinement_builds_on_draft(
    messages: &[MessageRecord],
    jobs: &[JobRecord],
    i: int,
    r: Option<ExecutionDraft>,
    previous: DraftView,
)
    requires
        call_ensures(drafts::maybe_build_execution_draft, (messages, jobs), r),
        is_latest_request(messages@, i),
        drafts::last_draft(messages@) == Some(previous),
        !drafts::asks_for_execution(text::trim(messages@[i].content@)),
        drafts::asks_for_refinement(text::trim(messages@[i].content@)),
    ensures
        r matches Some(d) && {
            let said = text::trim(messages@[i].content@);
            &&& text::starts_with(d.request_text@, text::trim(previous.request_text))
            &&& drafts::request_update(said) matches Some(u) ==> text::ends_with(d.request_text@, u)
            &&& drafts::request_update(said) is None ==> d.request_text@ == text::trim(
                previous.request_text,
            )
            &&& drafts::demanded_intent(said) matches Some(intent) ==> d.execution_intent == intent
            &&& drafts::demanded_intent(said) is None ==> d.execution_intent
                == previous.execution_intent
            &&& drafts::title_hint(said) matches Some(title) ==> d.title@ == title
            &&& drafts::title_hint(said) is None ==> match drafts::request_update(said) {
                Some(u) => d.title@ == titles::job_title(u),
                None => d.title@ == previous.title,
            }
            &&& d.rationale@ == drafts::draft_rationale(true, d.execution_intent)
        },
{
    law_latest_user_message_counts(messages@, i);
    let said = text::trim(messages@[i].content@);
    let kept = text::trim(previous.request_text);
    text_lemmas::lemma_trim_idempotent(previous.request_text, text::space());
    if let Some(d) = r {
        assert(d.request_text@.take(kept.len() as int) =~= kept);
        if let Some(u) = drafts::request_update(said) {
            let joined = text::join(
                drafts::instructions(text::split_by(said, text::one_of(drafts::CLAUSE_ENDS@))),
                " "@,
            );
            text_lemmas::lemma_trim_idempotent(joined, text::space());
            assert(text::present(Some(u)) == Some(u));
            if kept != u {
                let lead = kept + "\n\nAdditional instruction: "@;
                assert(d.request_text@ == lead + u);
                assert(d.request_text@.skip(lead.len() as int) =~= u);
            } else {
                assert(u.skip(0) =~= u);
            }
        }
    }
}

/// Merging adds nothing that is blank or already there, and otherwise puts the
/// trimmed addition behind the request.
pub proof fn law_merged_request(previous: &str, update: Option<&str>, r: String)
    requires
        call_ensures(drafts::merge_request_text, (previous, update), r),
    ensures
        text::starts_with(r@, previous@),
        r@ == previous@ <==> (match update {
            Some(u) => text::is_blank(u@) || text::trim(u@) == text::trim(previous@),
            None => true,
        }),
        r@ != previous@ ==> update is Some && text::ends_with(r@, text::trim(update.unwrap()@)),
{
    assert(r@.take(previous@.len() as int) =~= previous@);
    reveal_strlit("\n\nAdditional instruction: ");
    assert("\n\nAdditional instruction: "@.len() > 0);
    if let Some(u) = update {
        if !text::is_blank(u@) && text::trim(u@) != text::trim(previous@) {
            let lead = previous@ + "\n\nAdditional instruction: "@;
            assert(r@ == lead + text::trim(u@));
            assert(r@.len() > previous@.len());
            assert(r@.skip(lead.len() as int) =~= text::trim(u@));
        }
    }
}

// ---------------------------------------------------------------------------
// What a request asks for
// ---------------------------------------------------------------------------

/// Case does not matter to what a request asks for.
pub proof fn law_case_does_not_matter(a: Seq<char>, b: Seq<char>)
    requires
        text::lower(a) == text::lower(b),
    ensures
        drafts::asks_for_execution(a) == drafts::asks_for_execution(b),
        drafts::asks_for_reading(a) == drafts::asks_for_reading(b),
        drafts::asks_for_refinement(a) == drafts::asks_for_refinement(b),
        drafts::inferred_intent(a) == drafts::inferred_intent(b),
        drafts::demanded_intent(a) == drafts::demanded_intent(b),
{
}

/// A request asks for work exactly where it holds one of the verbs of work.
pub proof fn law_words_for_work(s: Seq<char>)
    ensures
        drafts::asks_for_execution(s) <==> {
            let l = text::lower(s);
            ||| text::contains(l, "implement "@)
            ||| text::contains(l, "fix "@)
            ||| text::contains(l, "change "@)
            ||| text::contains(l, "edit "@)
            ||| text::contains(l, "update "@)
            ||| text::contains(l, "run "@)
            ||| text::contains(l, "dispatch "@)
            ||| text::contains(l, "create a job"@)
            ||| text::contains(l, "send to laptop"@)
            ||| text::contains(l, "review the code"@)
            ||| text::contains(l, "write code"@)
        },
{
    let list = drafts::EXECUTION_PHRASES@;
    assert(list.len() == 11);
    assert(list[0] == "implement ");
    assert(list[1] == "fix ");
    assert(list[2] == "change ");
    assert(list[3] == "edit ");
    assert(list[4] == "update ");
    assert(list[5] == "run ");
    assert(list[6] == "dispatch ");
    assert(list[7] == "create a job");
    assert(list[8] == "send to laptop");
    assert(list[9] == "review the code");
    assert(list[10] == "write code");
}

/// A request is for reading exactly where it forbids changes or asks for
/// information.
#[verifier::rlimit(60)]
pub proof fn law_words_for_reading(s: Seq<char>)
    ensures
        drafts::asks_for_reading(s) <==> {
            let l = text::lower(s);
            ||| text::contains(l, "read-only"@)
            ||| text::contains(l, "read only"@)
            ||| text::contains(l, "do not modify"@)
            ||| text::contains(l, "don't modify"@)
            ||| text::contains(l, "do not change"@)
            ||| text::contains(l, "don't change"@)
            ||| text::contains(l, "no changes"@)
            ||| text::contains(l, "without changing"@)
            ||| text::contains(l, "without modifying"@)
            ||| text::contains(l, "do not create commits"@)
            ||| text::contains(l, "do not request push approval"@)
            ||| text::contains(l, "what "@)
            ||| text::contains(l, "which "@)
            ||| text::contains(l, "explain "@)
            ||| text::contains(l, "summarize "@)
            ||| text::contains(l, "summarise "@)
            ||| text::contains(l, "review "@)
            ||| text::contains(l, "inspect "@)
            ||| text::contains(l, "tell me "@)
            ||| text::contains(l, "report "@)
            ||| text::contains(l, "find "@)
            ||| text::contains(l, "identify "@)
            ||| text::contains(l, "show "@)
            ||| text::contains(l, "read "@)
            ||| text::contains(l, "where "@)
            ||| text::contains(l, "why "@)
            ||| text::contains(l, "how does "@)
        },
{
    let list = drafts::READ_ONLY_PHRASES@;
    assert(list.len() == 11);
    assert(list[0] == "read-only");
    assert(list[1] == "read only");
    assert(list[2] == "do not modify");
    assert(list[3] == "don't modify");
    assert(list[4] == "do not change");
    assert(list[5] == "don't change");
    assert(list[6] == "no changes");
    assert(list[7] == "without changing");
    assert(list[8] == "without modifying");
    assert(list[9] == "do not create commits");
    assert(list[10] == "do not request push approval");
    let more = drafts::INFORMATION_PHRASES@;
    assert(more.len() == 16);
    assert(more[0] == "what ");
    assert(more[1] == "which ");
    assert(more[2] == "explain ");
    assert(more[3] == "summarize ");
    assert(more[4] == "summarise ");
    assert(more[5] == "review ");
    assert(more[6] == "inspect ");
    assert(more[7] == "tell me ");
    assert(more[8] == "report ");
    assert(more[9] == "find ");
    assert(more[10] == "identify ");
    assert(more[11] == "show ");
    assert(more[12] == "read ");
    assert(more[13] == "where ");
    assert(more[14] == "why ");
    assert(more[15] == "how does ");
}

/// A message refines a draft exactly where it speaks of its repository, branch or
/// title, or of sending it.
pub proof fn law_words_for_refinement(s: Seq<char>)
    ensures
        drafts::asks_for_refinement(s) <==> {
            let l = text::lower(s);
            ||| text::contains(l, "repo "@)
            ||| text::contains(l, "repository "@)
            ||| text::contains(l, "branch "@)
            ||| text::contains(l, "base branch"@)
            ||| text::contains(l, "title "@)
            ||| text::contains(l, "call it "@)
            ||| text::contains(l, "rename "@)
            ||| text::contains(l, "instead"@)
            ||| text::contains(l, "use "@)
            ||| text::contains(l, "send it"@)
            ||| text::contains(l, "dispatch it"@)
            ||| text::contains(l, "run it"@)
        },
{
    let list = drafts::REFINEMENT_PHRASES@;
    assert(list.len() == 12);
    assert(list[0] == "repo ");
    assert(list[1] == "repository ");
    assert(list[2] == "branch ");
    assert(list[3] == "base branch");
    assert(list[4] == "title ");
    assert(list[5] == "call it ");
    assert(list[6] == "rename ");
    assert(list[7] == "instead");
    assert(list[8] == "use ");
    assert(list[9] == "send it");
    assert(list[10] == "dispatch it");
    assert(list[11] == "run it");
}

/// Changes are forbidden exactly in these words, and they outweigh any words that
/// allow changes.
pub proof fn law_demand_for_reading(s: Seq<char>)
    ensures
        drafts::demanded_intent(s) == Some(ExecutionIntent::ReadOnly) <==> {
            let l = text::lower(s);
            ||| text::contains(l, "read-only"@)
            ||| text::contains(l, "read only"@)
            ||| text::contains(l, "do not modify"@)
            ||| text::contains(l, "don't modify"@)
            ||| text::contains(l, "do not change"@)
            ||| text::contains(l, "don't change"@)
            ||| text::contains(l, "no changes"@)
            ||| text::contains(l, "without changing"@)
            ||| text::contains(l, "without modifying"@)
        },
{
    let list = drafts::READ_ONLY_OVERRIDES@;
    assert(list.len() == 9);
    assert(list[0] == "read-only");
    assert(list[1] == "read only");
    assert(list[2] == "do not modify");
    assert(list[3] == "don't modify");
    assert(list[4] == "do not change");
    assert(list[5] == "don't change");
    assert(list[6] == "no changes");
    assert(list[7] == "without changing");
    assert(list[8] == "without modifying");
}

/// Changes are allowed exactly where these words stand and none forbids them.
pub proof fn law_demand_for_changes(s: Seq<char>)
    ensures
        drafts::demanded_intent(s) == Some(ExecutionIntent::WorkspaceChange) <==> drafts::demanded_intent(
            s,
        ) != Some(ExecutionIntent::ReadOnly) && {
            let l = text::lower(s);
            ||| text::contains(l, "allow changes"@)
            ||| text::contains(l, "make changes"@)
            ||| text::contains(l, "modify the repo"@)
            ||| text::contains(l, "workspace change"@)
            ||| text::contains(l, "go ahead and change"@)
        },
{
    let list = drafts::CHANGE_OVERRIDES@;
    assert(list.len() == 5);
    assert(list[0] == "allow changes");
    assert(list[1] == "make changes");
    assert(list[2] == "modify the repo");
    assert(list[3] == "workspace change");
    assert(list[4] == "go ahead and change");
}

// ---------------------------------------------------------------------------
// Drafts in messages
// ---------------------------------------------------------------------------

/// A message holds the draft that its payload spells out field by field. Every
/// field is needed, but for the repository, which may be missing or null.
#[verifier::rlimit(60)]
pub proof fn law_draft_in_message(
    message: MessageRecord,
    r: Option<ExecutionDraft>,
    v: JsonView,
    fields: Seq<(Seq<char>, JsonView)>,
)
    requires
        call_ensures(draft_payload::message_execution_draft, (&message,), r),
        message.payload_json.model().field("execution_draft"@) == Some(v),
        v == JsonView::Object(fields),
    ensures
        r is Some <==> {
            &&& v.field_text("title"@) is Some
            &&& v.field_text("base_branch"@) is Some
            &&& v.field_text("request_text"@) is Some
            &&& v.field_text("source_message_id"@) is Some
            &&& v.field_text("source_role"@) is Some
            &&& v.field_text("rationale"@) is Some
            &&& v.field("execution_intent"@) matches Some(intent) && draft_payload::intent_of(
                intent,
            ) is Some
            &&& v.field("repo_name"@) matches Some(repo) ==> repo is Null || repo is Text
        },
        r matches Some(d) ==> {
            &&& v.field_text("title"@) == Some(d.title@)
            &&& v.field_text("base_branch"@) == Some(d.base_branch@)
            &&& v.field_text("request_text"@) == Some(d.request_text@)
            &&& v.field_text("source_message_id"@) == Some(d.source_message_id@)
            &&& v.field_text("source_role"@) == Some(d.source_role@)
            &&& v.field_text("rationale"@) == Some(d.rationale@)
            &&& v.field_text("repo_name"@) == text::opt(d.repo_name)
            &&& v.field("execution_intent"@) matches Some(intent) && draft_payload::intent_of(
                intent,
            ) == Some(d.execution_intent)
        },
{
    let names = draft_payload::DRAFT_FIELDS@;
    assert(names.len() == 8);
    assert(names[0] == "title");
    assert(names[1] == "repo_name");
    assert(names[2] == "base_branch");
    assert(names[3] == "request_text");
    assert(names[4] == "execution_intent");
    assert(names[5] == "source_message_id");
    assert(names[6] == "source_role");
    assert(names[7] == "rationale");
}

/// A message without a draft in its payload holds none.
pub proof fn law_no_draft_in_message(message: MessageRecord, r: Option<ExecutionDraft>)
    requires
        call_ensures(draft_payload::message_execution_draft, (&message,), r),
        message.payload_json.model().field("execution_draft"@) is None,
    ensures
        r is None,
{
}

/// An intent is read from its name, alone or as the name of an empty entry.
pub proof fn law_intent_is_read(v: Json, r: Option<ExecutionIntent>, name: Seq<char>)
    requires
        call_ensures(draft_payload::decode_intent, (&v,), r),
    ensures
        v.model() == JsonView::Text(name) ==> (r == Some(ExecutionIntent::ReadOnly) <==> name
            == "read_only"@) && (r == Some(ExecutionIntent::WorkspaceChange) <==> name
            == "workspace_change"@),
        v.model() == JsonView::Object(seq![(name, JsonView::Null)]) ==> (r == Some(
            ExecutionIntent::ReadOnly,
        ) <==> name == "read_only"@) && (r == Some(ExecutionIntent::WorkspaceChange) <==> name
            == "workspace_change"@),
        v.model() is Null || v.model() is Bool || v.model() is Number || v.model() is Array
            ==> r is None,
{
    reveal_strlit("workspace_change");
    reveal_strlit("read_only");
    assert("workspace_change"@.len() == 16);
    assert("read_only"@.len() == 9);
}

/// What a message stores as its draft is what is read back from it.
pub proof fn law_stored_draft_is_read(
    draft: Option<&ExecutionDraft>,
    payload: Json,
    message: MessageRecord,
    r: Option<ExecutionDraft>,
)
    requires
        call_ensures(draft_payload::build_message_payload, (draft,), payload),
        message.payload_json == payload,
        call_ensures(draft_payload::message_execution_draft, (&message,), r),
    ensures
        r is Some <==> draft is Some,
        r matches Some(d) ==> d@ == draft.unwrap()@,
{
    draft_payload::law_draft_comes_back(message, draft_payload::opt_draft_ref(draft));
}

/// The index of the latest user message is found where there is one.
pub proof fn law_latest_user_index(messages: &[MessageRecord], r: Option<usize>, i: int)
    requires
        call_ensures(drafts::last_user_index, (messages,), r),
        is_latest_request(messages@, i),
    ensures
        r matches Some(k) && messages@[k as int] == messages@[i],
{
    law_latest_user_message_counts(messages@, i);
}

/// A refinement is read part by part from what the user says.
pub proof fn law_refinement_parts(
    value: &str,
    r: DraftRefinement,
    repo: Option<String>,
    branch: Option<String>,
    title: Option<String>,
    update: Option<String>,
)
    requires
        call_ensures(drafts::parse_draft_refinement, (value,), r),
        call_ensures(drafts::extract_repo_hint, (value,), repo),
        call_ensures(drafts::extract_base_branch_hint, (value,), branch),
        call_ensures(drafts::extract_title_hint, (value,), title),
        call_ensures(drafts::extract_refinement_request_update, (value,), update),
    ensures
        r@.repo_name == drafts::repo_hint(value@) && text::opt(repo) == r@.repo_name,
        r@.base_branch == drafts::branch_hint(value@) && text::opt(branch) == r@.base_branch,
        r@.title == drafts::title_hint(value@) && text::opt(title) == r@.title,
        r@.request_update == drafts::request_update(value@) && text::opt(update)
            == r@.request_update,
{
}

/// What a draft says of itself tells a refinement, a request to read and a request
/// to change apart.
pub proof fn law_rationale(refines: bool, intent: ExecutionIntent, other: ExecutionIntent)
    ensures
        drafts::draft_rationale(true, intent) == drafts::draft_rationale(true, other),
        drafts::draft_rationale(refines, intent) == drafts::draft_rationale(true, intent)
            <==> refines,
        drafts::draft_rationale(false, intent) == drafts::draft_rationale(false, other) <==> intent
            == other,
{
    lemma_rationales();
}

proof fn lemma_rationales()
    ensures
        drafts::draft_rationale(true, ExecutionIntent::ReadOnly).len() == 87,
        drafts::draft_rationale(true, ExecutionIntent::WorkspaceChange).len() == 87,
        drafts::draft_rationale(false, ExecutionIntent::ReadOnly).len() == 124,
        drafts::draft_rationale(false, ExecutionIntent::WorkspaceChange).len() == 76,
{
    reveal_strlit(
        "Updated the draft using the latest conversational refinement without dispatching a job.",
    );
    reveal_strlit(
        "Prepared as a read-only repository investigation so the laptop can inspect and report without creating durable repo changes.",
    );
    reveal_strlit(
        "Prepared from the latest user request so it can be reviewed before dispatch.",
    );
}

} // verus!
