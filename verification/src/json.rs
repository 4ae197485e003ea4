//! JSON values.

use crate::scan::{chars_of, same_text, trim_text};
use crate::text;
use vstd::prelude::*;

verus! {

/// A JSON value. A number is kept in its written form.
#[derive(Debug)]
pub enum Json {
    /// `null`.
    Null,
    /// `true` or `false`.
    Bool(bool),
    /// A number.
    Number(String),
    /// A string.
    Text(String),
    /// An array.
    Array(Vec<Json>),
    /// An object. Where a key stands twice, the first entry counts.
    Object(Vec<(String, Json)>),
}

/// The model of a JSON value.
pub enum JsonView {
    /// `null`.
    Null,
    /// `true` or `false`.
    Bool(bool),
    /// A number.
    Number(Seq<char>),
    /// A string.
    Text(Seq<char>),
    /// An array.
    Array(Seq<JsonView>),
    /// An object.
    Object(Seq<(Seq<char>, JsonView)>),
}

/// The entry of an object with the given key.
pub open spec fn lookup(fields: Seq<(Seq<char>, JsonView)>, key: Seq<char>) -> Option<JsonView>
    decreases fields.len(),
{
    if fields.len() == 0 {
        None
    } else if fields[0].0 == key {
        Some(fields[0].1)
    } else {
        lookup(fields.drop_first(), key)
    }
}

impl JsonView {
    /// The entry with the given key; `None` where the value is no object.
    pub open spec fn field(self, key: Seq<char>) -> Option<JsonView> {
        match self {
            JsonView::Object(fields) => lookup(fields, key),
            _ => None,
        }
    }

    /// The string, where the value is one.
    pub open spec fn text(self) -> Option<Seq<char>> {
        match self {
            JsonView::Text(s) => Some(s),
            _ => None,
        }
    }

    /// The truth value, where the value is one.
    pub open spec fn truth(self) -> Option<bool> {
        match self {
            JsonView::Bool(b) => Some(b),
            _ => None,
        }
    }

    /// The string in the entry with the given key.
    pub open spec fn field_text(self, key: Seq<char>) -> Option<Seq<char>> {
        match self.field(key) {
            Some(v) => v.text(),
            None => None,
        }
    }
}

/// The model of a list of values.
pub open spec fn values_view(values: Seq<Json>) -> Seq<JsonView>
    decreases values,
{
    Seq::new(
        values.len(),
        |i: int|
            if 0 <= i < values.len() {
                values[i].model()
            } else {
                JsonView::Null
            },
    )
}

/// The model of the entries of an object.
pub open spec fn fields_view(fields: Seq<(String, Json)>) -> Seq<(Seq<char>, JsonView)>
    decreases fields,
{
    Seq::new(
        fields.len(),
        |i: int|
            if 0 <= i < fields.len() {
                (fields[i].0@, fields[i].1.model())
            } else {
                (Seq::<char>::empty(), JsonView::Null)
            },
    )
}

impl Json {
    /// The model of the value.
    pub open spec fn model(self) -> JsonView
        decreases self,
    {
        match self {
            Json::Null => JsonView::Null,
            Json::Bool(b) => JsonView::Bool(b),
            Json::Number(n) => JsonView::Number(n@),
            Json::Text(s) => JsonView::Text(s@),
            Json::Array(values) => JsonView::Array(values_view(values@)),
            Json::Object(fields) => JsonView::Object(fields_view(fields@)),
        }
    }

    /// The entry with the given key; `None` where the value is no object.
    pub fn get(&self, key: &str) -> (r: Option<&Json>)
        ensures
            match r {
                Some(v) => self.model().field(key@) == Some(v.model()),
                None => self.model().field(key@) is None,
            },
    {
        match self {
            Json::Object(fields) => {
                let mut i: usize = 0;
                assert(fields_view(fields@).skip(0) =~= fields_view(fields@));
                while i < fields.len()
                    invariant
                        i <= fields@.len(),
                        self.model() == JsonView::Object(fields_view(fields@)),
                        lookup(fields_view(fields@), key@) == lookup(
                            fields_view(fields@).skip(i as int),
                            key@,
                        ),
                    decreases fields@.len() - i,
                {
                    assert(fields_view(fields@).skip(i as int).drop_first() =~= fields_view(
                        fields@,
                    ).skip(i + 1));
                    if same_text(fields[i].0.as_str(), key) {
                        return Some(&fields[i].1);
                    }
                    i += 1;
                }
                None
            },
            _ => None,
        }
    }

    /// The string, where the value is one.
    pub fn as_str(&self) -> (r: Option<&str>)
        ensures
            match r {
                Some(s) => self.model().text() == Some(s@),
                None => self.model().text() is None,
            },
    {
        match self {
            Json::Text(s) => Some(s.as_str()),
            _ => None,
        }
    }

    /// The truth value, where the value is one.
    pub fn as_bool(&self) -> (r: Option<bool>)
        ensures
            r == self.model().truth(),
    {
        match self {
            Json::Bool(b) => Some(*b),
            _ => None,
        }
    }

    /// The string in the entry with the given key, trimmed, where anything is
    /// left of it.
    pub fn present_text(&self, key: &str) -> (r: Option<String>)
        ensures
            text::opt(r) == text::present(self.model().field_text(key@)),
    {
        match self.get(key) {
            Some(entry) => match entry.as_str() {
                Some(s) => {
                    let trimmed = trim_text(s);
                    if chars_of(trimmed.as_str()).len() > 0 {
                        Some(trimmed)
                    } else {
                        None
                    }
                },
                None => None,
            },
            None => None,
        }
    }

    /// A copy of the value.
    pub fn copy(&self) -> (r: Json)
        ensures
            r.model() == self.model(),
        decreases self,
    {
        match self {
            Json::Null => Json::Null,
            Json::Bool(b) => Json::Bool(*b),
            Json::Number(n) => Json::Number(n.clone()),
            Json::Text(s) => Json::Text(s.clone()),
            Json::Array(values) => {
                let mut out: Vec<Json> = Vec::new();
                let mut i: usize = 0;
                while i < values.len()
                    invariant
                        i <= values@.len(),
                        self == Json::Array(*values),
                        values_view(out@) == values_view(values@).take(i as int),
                    decreases values@.len() - i,
                {
                    let ghost gone = values_view(out@);
                    assert(decreases_to!(self => self->Array_0));
                    assert(decreases_to!(values => values@[i as int]));
                    let item = values[i].copy();
                    out.push(item);
                    assert(values_view(out@) =~= gone.push(item.model()));
                    i += 1;
                }
                assert(values_view(values@).take(i as int) =~= values_view(values@));
                Json::Array(out)
            },
            Json::Object(fields) => {
                let mut out: Vec<(String, Json)> = Vec::new();
                let mut i: usize = 0;
                while i < fields.len()
                    invariant
                        i <= fields@.len(),
                        self == Json::Object(*fields),
                        fields_view(out@) == fields_view(fields@).take(i as int),
                    decreases fields@.len() - i,
                {
                    let ghost gone = fields_view(out@);
                    let key = fields[i].0.clone();
                    assert(decreases_to!(self => self->Object_0));
                    assert(decreases_to!(fields => fields@[i as int]));
                    assert(decreases_to!(fields@[i as int] => fields@[i as int].1));
                    let item = fields[i].1.copy();
                    out.push((key, item));
                    assert(fields_view(out@) =~= gone.push((key@, item.model())));
                    i += 1;
                }
                assert(fields_view(fields@).take(i as int) =~= fields_view(fields@));
                Json::Object(out)
            },
        }
    }
}

/// An object under construction.
pub struct JsonObject {
    fields: Vec<(String, Json)>,
}

impl JsonObject {
    /// The entries so far.
    pub closed spec fn entries(self) -> Seq<(Seq<char>, JsonView)> {
        fields_view(self.fields@)
    }

    /// An object without entries.
    pub fn new() -> (r: JsonObject)
        ensures
            r.entries() == Seq::<(Seq<char>, JsonView)>::empty(),
    {
        let r = JsonObject { fields: Vec::new() };
        assert(r.entries() =~= Seq::<(Seq<char>, JsonView)>::empty());
        r
    }

    /// The object with one more entry.
    pub fn with(self, key: &str, value: Json) -> (r: JsonObject)
        ensures
            r.entries() == self.entries().push((key@, value.model())),
    {
        let mut fields = self.fields;
        let ghost before = fields_view(fields@);
        let name = key.to_string();
        fields.push((name, value));
        assert(fields_view(fields@) =~= before.push((key@, value.model())));
        JsonObject { fields }
    }

    /// The object with one more entry, a string.
    pub fn with_text(self, key: &str, value: &str) -> (r: JsonObject)
        ensures
            r.entries() == self.entries().push((key@, JsonView::Text(value@))),
    {
        self.with(key, Json::Text(value.to_string()))
    }

    /// The object with one more entry: a string, or `null` where there is none.
    pub fn with_optional_text(self, key: &str, value: Option<&str>) -> (r: JsonObject)
        ensures
            r.entries() == self.entries().push((key@, optional_text(text::opt_str(value)))),
    {
        match value {
            Some(v) => self.with(key, Json::Text(v.to_string())),
            None => self.with(key, Json::Null),
        }
    }

    /// The finished object.
    pub fn build(self) -> (r: Json)
        ensures
            r.model() == JsonView::Object(self.entries()),
    {
        Json::Object(self.fields)
    }
}

/// A string, or `null` where there is none.
pub open spec fn optional_text(value: Option<Seq<char>>) -> JsonView {
    match value {
        Some(v) => JsonView::Text(v),
        None => JsonView::Null,
    }
}

} // verus!
