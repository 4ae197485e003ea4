//! The form in which a message carries an execution draft.

use crate::json::{Json, JsonObject, JsonView};
use crate::json;
use crate::models::{DraftView, ExecutionDraft, ExecutionIntent, MessageRecord};
use crate::scan::same_text;
use crate::text;
use vstd::prelude::*;

verus! {

/// The fields of a draft, in their order.
pub const DRAFT_FIELDS: [&'static str; 8] = [
    "title",
    "repo_name",
    "base_branch",
    "request_text",
    "execution_intent",
    "source_message_id",
    "source_role",
    "rationale",
];

/// The JSON object of a draft.
pub open spec fn draft_json(draft: DraftView) -> JsonView {
    JsonView::Object(
        seq![
            ("title"@, JsonView::Text(draft.title)),
            ("repo_name"@, json::optional_text(draft.repo_name)),
            ("base_branch"@, JsonView::Text(draft.base_branch)),
            ("request_text"@, JsonView::Text(draft.request_text)),
            ("execution_intent"@, JsonView::Text(draft.execution_intent.name())),
            ("source_message_id"@, JsonView::Text(draft.source_message_id)),
            ("source_role"@, JsonView::Text(draft.source_role)),
            ("rationale"@, JsonView::Text(draft.rationale)),
        ],
    )
}

/// The value of the field at `i`. A draft is an object with named fields or an
/// array of all of them in order.
pub open spec fn slot(v: JsonView, i: int) -> Option<JsonView> {
    match v {
        JsonView::Object(fields) => json::lookup(fields, DRAFT_FIELDS@[i]@),
        JsonView::Array(items) => if items.len() == 8 {
            Some(items[i])
        } else {
            None
        },
        _ => None,
    }
}

/// The string in the field at `i`.
pub open spec fn slot_text(v: JsonView, i: int) -> Option<Seq<char>> {
    match slot(v, i) {
        Some(value) => value.text(),
        None => None,
    }
}

/// A name of an intent.
pub open spec fn named_intent(name: Seq<char>) -> Option<ExecutionIntent> {
    if name == "workspace_change"@ {
        Some(ExecutionIntent::WorkspaceChange)
    } else if name == "read_only"@ {
        Some(ExecutionIntent::ReadOnly)
    } else {
        None
    }
}

/// An intent: its name, or an object with the name as its one key and `null`
/// under it.
pub open spec fn intent_of(v: JsonView) -> Option<ExecutionIntent> {
    match v {
        JsonView::Text(name) => named_intent(name),
        JsonView::Object(fields) => if fields.len() == 1 && fields[0].1 is Null {
            named_intent(fields[0].0)
        } else {
            None
        },
        _ => None,
    }
}

/// The repository of a draft: absent and `null` both mean none; the outer
/// option is `None` where the value is neither a string nor `null`.
pub open spec fn repo_of(v: Option<JsonView>) -> Option<Option<Seq<char>>> {
    match v {
        None => Some(None),
        Some(JsonView::Null) => Some(None),
        Some(JsonView::Text(name)) => Some(Some(name)),
        _ => None,
    }
}

/// The intent in the field for it.
pub open spec fn slot_intent(v: JsonView) -> Option<ExecutionIntent> {
    match slot(v, 4) {
        Some(value) => intent_of(value),
        None => None,
    }
}

/// The draft that a JSON value stands for.
pub open spec fn draft_of(v: JsonView) -> Option<DraftView> {
    if slot_text(v, 0) is Some && repo_of(slot(v, 1)) is Some && slot_text(v, 2) is Some
        && slot_text(v, 3) is Some && slot_intent(v) is Some && slot_text(v, 5) is Some
        && slot_text(v, 6) is Some && slot_text(v, 7) is Some {
        Some(
            DraftView {
                title: slot_text(v, 0).unwrap(),
                repo_name: repo_of(slot(v, 1)).unwrap(),
                base_branch: slot_text(v, 2).unwrap(),
                request_text: slot_text(v, 3).unwrap(),
                execution_intent: slot_intent(v).unwrap(),
                source_message_id: slot_text(v, 5).unwrap(),
                source_role: slot_text(v, 6).unwrap(),
                rationale: slot_text(v, 7).unwrap(),
            },
        )
    } else {
        None
    }
}

/// The draft that a message carries.
pub open spec fn message_draft(message: MessageRecord) -> Option<DraftView> {
    match message.payload_json.model().field("execution_draft"@) {
        Some(v) => draft_of(v),
        None => None,
    }
}

/// The model of a draft that may be absent.
pub open spec fn opt_draft(draft: Option<ExecutionDraft>) -> Option<DraftView> {
    match draft {
        Some(d) => Some(d@),
        None => None,
    }
}

/// The payload of a message with the draft, or an empty object without one.
pub open spec fn message_payload(draft: Option<DraftView>) -> JsonView {
    match draft {
        Some(d) => JsonView::Object(seq![("execution_draft"@, draft_json(d))]),
        None => JsonView::Object(seq![]),
    }
}

/// The model of a borrowed draft that may be absent.
pub open spec fn opt_draft_ref(draft: Option<&ExecutionDraft>) -> Option<DraftView> {
    match draft {
        Some(d) => Some(d@),
        None => None,
    }
}

fn encode_draft(draft: &ExecutionDraft) -> (r: Json)
    ensures
        r.model() == draft_json(draft@),
{
    let repo_name = match &draft.repo_name {
        Some(name) => Some(name.as_str()),
        None => None,
    };
    let object = JsonObject::new().with_text("title", draft.title.as_str()).with_optional_text(
        "repo_name",
        repo_name,
    ).with_text("base_branch", draft.base_branch.as_str()).with_text(
        "request_text",
        draft.request_text.as_str(),
    ).with_text("execution_intent", draft.execution_intent.as_str()).with_text(
        "source_message_id",
        draft.source_message_id.as_str(),
    ).with_text("source_role", draft.source_role.as_str()).with_text(
        "rationale",
        draft.rationale.as_str(),
    );
    assert(JsonView::Object(object.entries()) =~= draft_json(draft@)) by {
        assert(object.entries() =~= draft_json(draft@)->Object_0);
    }
    object.build()
}

/// The payload of a message with the draft, or an empty object without one.
pub fn build_message_payload(execution_draft: Option<&ExecutionDraft>) -> (r: Json)
    ensures
        r.model() == message_payload(opt_draft_ref(execution_draft)),
{
    match execution_draft {
        Some(draft) => {
            let object = JsonObject::new().with("execution_draft", encode_draft(draft));
            assert(object.entries() =~= seq![("execution_draft"@, draft_json(draft@))]);
            object.build()
        },
        None => {
            let object = JsonObject::new();
            assert(object.entries() =~= seq![]);
            object.build()
        },
    }
}

fn slot_value(v: &Json, i: usize) -> (r: Option<&Json>)
    requires
        i < 8,
    ensures
        match r {
            Some(value) => slot(v.model(), i as int) == Some(value.model()),
            None => slot(v.model(), i as int) is None,
        },
{
    match v {
        Json::Object(_) => {
            let names = DRAFT_FIELDS;
            v.get(names[i])
        },
        Json::Array(items) => {
            if items.len() == 8 {
                assert(slot(v.model(), i as int) == Some(json::values_view(items@)[i as int]));
                Some(&items[i])
            } else {
                None
            }
        },
        _ => None,
    }
}

fn slot_string(v: &Json, i: usize) -> (r: Option<String>)
    requires
        i < 8,
    ensures
        text::opt(r) == slot_text(v.model(), i as int),
{
    match slot_value(v, i) {
        Some(value) => match value.as_str() {
            Some(s) => Some(s.to_string()),
            None => None,
        },
        None => None,
    }
}

fn intent_named(name: &str) -> (r: Option<ExecutionIntent>)
    ensures
        r == named_intent(name@),
{
    if same_text(name, "workspace_change") {
        Some(ExecutionIntent::WorkspaceChange)
    } else if same_text(name, "read_only") {
        Some(ExecutionIntent::ReadOnly)
    } else {
        None
    }
}

/// The intent that a JSON value stands for.
pub fn decode_intent(v: &Json) -> (r: Option<ExecutionIntent>)
    ensures
        r == intent_of(v.model()),
{
    match v {
        Json::Text(name) => intent_named(name.as_str()),
        Json::Object(fields) => {
            if fields.len() != 1 {
                return None;
            }
            assert(json::fields_view(fields@)[0] == (fields@[0].0@, fields@[0].1.model()));
            match &fields[0].1 {
                Json::Null => intent_named(fields[0].0.as_str()),
                _ => None,
            }
        },
        _ => None,
    }
}

fn decode_repo(v: Option<&Json>) -> (r: Option<Option<String>>)
    ensures
        match r {
            Some(name) => repo_of(
                match v {
                    Some(value) => Some(value.model()),
                    None => None,
                },
            ) == Some(text::opt(name)),
            None => repo_of(
                match v {
                    Some(value) => Some(value.model()),
                    None => None,
                },
            ) is None,
        },
{
    match v {
        None => Some(None),
        Some(Json::Null) => Some(None),
        Some(Json::Text(name)) => Some(Some(name.clone())),
        _ => None,
    }
}

fn decode_draft(v: &Json) -> (r: Option<ExecutionDraft>)
    ensures
        opt_draft(r) == draft_of(v.model()),
{
    let title = slot_string(v, 0);
    let repo_name = decode_repo(slot_value(v, 1));
    let base_branch = slot_string(v, 2);
    let request_text = slot_string(v, 3);
    let execution_intent = match slot_value(v, 4) {
        Some(value) => decode_intent(value),
        None => None,
    };
    let source_message_id = slot_string(v, 5);
    let source_role = slot_string(v, 6);
    let rationale = slot_string(v, 7);
    match (title, repo_name, base_branch, request_text) {
        (Some(title), Some(repo_name), Some(base_branch), Some(request_text)) => {
            match (execution_intent, source_message_id, source_role, rationale) {
                (
                    Some(execution_intent),
                    Some(source_message_id),
                    Some(source_role),
                    Some(rationale),
                ) => Some(
                    ExecutionDraft {
                        title,
                        repo_name,
                        base_branch,
                        request_text,
                        execution_intent,
                        source_message_id,
                        source_role,
                        rationale,
                    },
                ),
                _ => None,
            }
        },
        _ => None,
    }
}

/// The draft that a message carries.
pub fn message_execution_draft(message: &MessageRecord) -> (r: Option<ExecutionDraft>)
    ensures
        opt_draft(r) == message_draft(*message),
{
    match message.payload_json.get("execution_draft") {
        Some(value) => decode_draft(value),
        None => None,
    }
}

/// A message gives back the draft that was put into its payload, and a message
/// without a draft gives none.
pub proof fn law_draft_comes_back(message: MessageRecord, draft: Option<DraftView>)
    requires
        message.payload_json.model() == message_payload(draft),
    ensures
        message_draft(message) == draft,
{
    reveal_strlit("title");
    reveal_strlit("repo_name");
    reveal_strlit("base_branch");
    reveal_strlit("request_text");
    reveal_strlit("execution_intent");
    reveal_strlit("source_message_id");
    reveal_strlit("source_role");
    reveal_strlit("rationale");
    reveal_strlit("workspace_change");
    reveal_strlit("read_only");
    reveal_with_fuel(json::lookup, 9);
    if let Some(d) = draft {
        let v = draft_json(d);
        lemma_slots(d);
        assert(message_payload(draft).field("execution_draft"@) == Some(v));
        assert("workspace_change"@.len() != "read_only"@.len());
    }
}

proof fn lemma_lookup_at(fields: Seq<(Seq<char>, JsonView)>, k: int)
    requires
        0 <= k < fields.len(),
        forall|j: int| 0 <= j < k ==> (#[trigger] fields[j]).0 != fields[k].0,
    ensures
        json::lookup(fields, fields[k].0) == Some(fields[k].1),
    decreases fields.len(),
{
    if k > 0 {
        assert(fields[0].0 != fields[k].0);
        let rest = fields.drop_first();
        assert(rest[k - 1] == fields[k]);
        assert forall|j: int| 0 <= j < k - 1 implies (#[trigger] rest[j]).0 != rest[k - 1].0 by {
            assert(rest[j] == fields[j + 1]);
        }
        lemma_lookup_at(rest, k - 1);
    }
}

proof fn lemma_slots(d: DraftView)
    ensures
        slot(draft_json(d), 0) == Some(JsonView::Text(d.title)),
        slot(draft_json(d), 1) == Some(json::optional_text(d.repo_name)),
        slot(draft_json(d), 2) == Some(JsonView::Text(d.base_branch)),
        slot(draft_json(d), 3) == Some(JsonView::Text(d.request_text)),
        slot(draft_json(d), 4) == Some(JsonView::Text(d.execution_intent.name())),
        slot(draft_json(d), 5) == Some(JsonView::Text(d.source_message_id)),
        slot(draft_json(d), 6) == Some(JsonView::Text(d.source_role)),
        slot(draft_json(d), 7) == Some(JsonView::Text(d.rationale)),
{
    reveal_strlit("title");
    reveal_strlit("repo_name");
    reveal_strlit("base_branch");
    reveal_strlit("request_text");
    reveal_strlit("execution_intent");
    reveal_strlit("source_message_id");
    reveal_strlit("source_role");
    reveal_strlit("rationale");
    // The names differ in length, but for two pairs that differ in their first
    // characters.
    assert("title"@.len() == 5);
    assert("repo_name"@.len() == 9 && "rationale"@.len() == 9);
    assert("base_branch"@.len() == 11 && "source_role"@.len() == 11);
    assert("request_text"@.len() == 12);
    assert("execution_intent"@.len() == 16);
    assert("source_message_id"@.len() == 17);
    assert("repo_name"@[0] == 'r');
    assert("rationale"@[0] == 'r' && "rationale"@[1] == 'a');
    assert("repo_name"@[1] == 'e');
    assert("base_branch"@[0] == 'b');
    assert("source_role"@[0] == 's');
    let fields = draft_json(d)->Object_0;
    lemma_lookup_at(fields, 0);
    lemma_lookup_at(fields, 1);
    lemma_lookup_at(fields, 2);
    lemma_lookup_at(fields, 3);
    lemma_lookup_at(fields, 4);
    lemma_lookup_at(fields, 5);
    lemma_lookup_at(fields, 6);
    lemma_lookup_at(fields, 7);
}

} // verus!
