//! A JSON document held as plain values, with one trusted entry point that
//! parses text through serde_json. Everything that reads a parsed document
//! (field lookup, typed access) is verified code over this representation.
use vstd::prelude::*;

verus! {

/// A parsed JSON document. Numbers keep their decimal text as serde_json
/// renders it; the logic in this crate reads numbers back through
/// [`crate::strutil::parse_u64`] where it needs their value.
#[derive(Debug)]
pub enum JsonValue {
    Null,
    Bool(bool),
    Number(String),
    Str(String),
    Array(Vec<JsonValue>),
    Object(Vec<(String, JsonValue)>),
}

/// The mathematical shape of a JSON document: what [`JsonValue`] holds, with
/// every string taken as its character sequence.
pub enum JsonView {
    Null,
    Bool(bool),
    Number(Seq<char>),
    Str(Seq<char>),
    Array(Seq<JsonView>),
    Object(Seq<(Seq<char>, JsonView)>),
}

broadcast use vstd::seq::axiom_seq_index_decreases, vstd::seq::axiom_seq_subrange_decreases;

pub open spec fn json_view(v: JsonValue) -> JsonView
    decreases v,
{
    match v {
        JsonValue::Null => JsonView::Null,
        JsonValue::Bool(b) => JsonView::Bool(b),
        JsonValue::Number(s) => JsonView::Number(s@),
        JsonValue::Str(s) => JsonView::Str(s@),
        JsonValue::Array(a) => JsonView::Array(json_view_seq(a@)),
        JsonValue::Object(fs) => JsonView::Object(json_view_fields(fs@)),
    }
}

pub open spec fn json_view_seq(s: Seq<JsonValue>) -> Seq<JsonView>
    decreases s,
{
    if s.len() == 0 {
        Seq::empty()
    } else {
        seq![json_view(s[0])] + json_view_seq(s.drop_first())
    }
}

pub open spec fn json_view_fields(s: Seq<(String, JsonValue)>) -> Seq<(Seq<char>, JsonView)>
    decreases s,
{
    if s.len() == 0 {
        Seq::empty()
    } else {
        seq![(s[0].0@, json_view(s[0].1))] + json_view_fields(s.drop_first())
    }
}

impl View for JsonValue {
    type V = JsonView;

    open spec fn view(&self) -> JsonView {
        json_view(*self)
    }
}

/// The view of a sequence of documents is the pointwise view.
pub proof fn lemma_json_view_seq(s: Seq<JsonValue>)
    ensures
        json_view_seq(s).len() == s.len(),
        forall|i: int| 0 <= i < s.len() ==> #[trigger] json_view_seq(s)[i] == json_view(s[i]),
    decreases s.len(),
{
    if s.len() > 0 {
        lemma_json_view_seq(s.drop_first());
    }
}

/// The view of an object's field list is the pointwise view of its entries.
pub proof fn lemma_json_view_fields(s: Seq<(String, JsonValue)>)
    ensures
        json_view_fields(s).len() == s.len(),
        forall|i: int|
            0 <= i < s.len() ==> #[trigger] json_view_fields(s)[i] == (
                s[i].0@,
                json_view(s[i].1),
            ),
    decreases s.len(),
{
    if s.len() > 0 {
        lemma_json_view_fields(s.drop_first());
    }
}

/// The value under the first field named `key`, if any.
pub open spec fn view_obj_get(fields: Seq<(Seq<char>, JsonView)>, key: Seq<char>) -> Option<
    JsonView,
>
    decreases fields.len(),
{
    if fields.len() == 0 {
        None
    } else if fields[0].0 == key {
        Some(fields[0].1)
    } else {
        view_obj_get(fields.drop_first(), key)
    }
}

impl JsonView {
    /// Field lookup on an object; `None` on any other shape.
    pub open spec fn get(self, key: Seq<char>) -> Option<JsonView> {
        match self {
            JsonView::Object(fs) => view_obj_get(fs, key),
            _ => None,
        }
    }

    pub open spec fn as_str(self) -> Option<Seq<char>> {
        match self {
            JsonView::Str(s) => Some(s),
            _ => None,
        }
    }

    pub open spec fn as_bool(self) -> Option<bool> {
        match self {
            JsonView::Bool(b) => Some(b),
            _ => None,
        }
    }

    pub open spec fn as_array(self) -> Option<Seq<JsonView>> {
        match self {
            JsonView::Array(a) => Some(a),
            _ => None,
        }
    }
}

impl JsonValue {
    /// The value under the first field named `key` of an object.
    pub fn get<'a>(&'a self, key: &str) -> (r: Option<&'a JsonValue>)
        ensures
            match r {
                Some(v) => self@.get(key@) == Some(v@),
                None => self@.get(key@) is None,
            },
    {
        match self {
            JsonValue::Object(fs) => {
                let ghost fields = self@->Object_0;
                proof {
                    lemma_json_view_fields(fs@);
                }
                let mut i: usize = 0;
                assert(fields.skip(0) =~= fields);
                loop
                    invariant
                        self@ is Object,
                        fields == self@->Object_0,
                        fields.len() == fs@.len(),
                        forall|j: int|
                            0 <= j < fs@.len() ==> #[trigger] fields[j] == (
                                fs@[j].0@,
                                json_view(fs@[j].1),
                            ),
                        i <= fs@.len(),
                        view_obj_get(fields, key@) == view_obj_get(fields.skip(i as int), key@),
                    decreases fs@.len() - i,
                {
                    if i == fs.len() {
                        return None;
                    }
                    let entry = &fs[i];
                    if crate::strutil::str_eq(entry.0.as_str(), key) {
                        assert(fields.skip(i as int)[0] == (fs@[i as int].0@, json_view(
                            fs@[i as int].1,
                        )));
                        return Some(&entry.1);
                    }
                    assert(fields.skip(i as int)[0] == (fs@[i as int].0@, json_view(
                        fs@[i as int].1,
                    )));
                    assert(fields.skip(i as int).drop_first() =~= fields.skip(i + 1 as int));
                    i += 1;
                }
            },
            _ => None,
        }
    }

    pub fn as_str<'a>(&'a self) -> (r: Option<&'a String>)
        ensures
            match r {
                Some(s) => self@.as_str() == Some(s@),
                None => self@.as_str() is None,
            },
    {
        match self {
            JsonValue::Str(s) => Some(s),
            _ => None,
        }
    }

    pub fn as_bool(&self) -> (r: Option<bool>)
        ensures
            r == self@.as_bool(),
    {
        match self {
            JsonValue::Bool(b) => Some(*b),
            _ => None,
        }
    }

    pub fn as_array<'a>(&'a self) -> (r: Option<&'a Vec<JsonValue>>)
        ensures
            match r {
                Some(a) => self@.as_array() == Some(json_view_seq(a@)),
                None => self@.as_array() is None,
            },
    {
        match self {
            JsonValue::Array(a) => Some(a),
            _ => None,
        }
    }
}

#[verifier::external_type_specification]
#[verifier::external_body]
pub struct ExSerdeValue(serde_json::Value);

/// What serde_json makes of a piece of JSON text: the parsed document, or
/// `None` where the text is not valid JSON. The result depends on the text
/// alone.
pub uninterp spec fn json_of(s: Seq<char>) -> Option<JsonView>;

/// Relies on `serde_json::from_str::<serde_json::Value>`: parses text by the
/// JSON grammar, reporting a parse failure as an error. The result is a pure
/// function of the text.
#[verifier::external_body]
pub(crate) fn parse_json(s: &str) -> (r: Option<JsonValue>)
    ensures
        r matches Some(v) ==> json_of(s@) == Some(v@),
        r is None ==> json_of(s@) is None,
{
    match serde_json::from_str::<serde_json::Value>(s) {
        Ok(v) => Some(value_from_serde(v)),
        Err(_) => None,
    }
}

/// Maps each `serde_json::Value` variant onto the crate's own form, one arm
/// per variant, moving fields; a number keeps its decimal text. Called only
/// from `parse_json`.
#[verifier::external_body]
fn value_from_serde(v: serde_json::Value) -> JsonValue {
    match v {
        serde_json::Value::Null => JsonValue::Null,
        serde_json::Value::Bool(b) => JsonValue::Bool(b),
        serde_json::Value::Number(n) => JsonValue::Number(n.to_string()),
        serde_json::Value::String(s) => JsonValue::Str(s),
        serde_json::Value::Array(a) => JsonValue::Array(
            a.into_iter().map(value_from_serde).collect(),
        ),
        serde_json::Value::Object(m) => JsonValue::Object(
            m.into_iter().map(|(k, x)| (k, value_from_serde(x))).collect(),
        ),
    }
}

} // verus!
