//! JSON documents built by the library and written out by `serde_json`.

use vstd::prelude::*;

verus! {

/// `serde_json::Value`, a JSON document as `serde_json` holds it.
#[verifier::external_type_specification]
#[verifier::external_body]
pub struct ExJsonValue(serde_json::Value);

/// A JSON document as plain values: a string, a number, an array, or an
/// object with its fields in the order they were given.
pub enum JsonView {
    Str(Seq<char>),
    Num(u32),
    Arr(Seq<JsonView>),
    Obj(Seq<(Seq<char>, JsonView)>),
}

/// A JSON document the library builds.
#[derive(Debug)]
pub enum Json {
    Str(String),
    Num(u32),
    Arr(Vec<Json>),
    Obj(Vec<(String, Json)>),
}

impl Json {
    /// The document as plain values.
    pub open spec fn tree(&self) -> JsonView
        decreases self,
    {
        match self {
            Json::Str(s) => JsonView::Str(s@),
            Json::Num(n) => JsonView::Num(*n),
            Json::Arr(items) => JsonView::Arr(
                Seq::new(
                    items@.len(),
                    |i: int|
                        if 0 <= i < items@.len() {
                            items@[i].tree()
                        } else {
                            JsonView::Num(0)
                        },
                ),
            ),
            Json::Obj(fields) => JsonView::Obj(
                Seq::new(
                    fields@.len(),
                    |i: int|
                        if 0 <= i < fields@.len() {
                            (fields@[i].0@, fields@[i].1.tree())
                        } else {
                            (seq![], JsonView::Num(0))
                        },
                ),
            ),
        }
    }
}

/// The name for the text `serde_json` writes for a document (through
/// `Value::to_string`): compact, object keys in sorted order.
pub uninterp spec fn json_text(doc: JsonView) -> Seq<char>;

/// Converts a document into a `serde_json::Value`, node for node: a string
/// into `Value::String`, a number through `Value::from`, an array into
/// `Value::Array`, an object into `Value::Object` built from its fields.
/// Nothing is claimed of the value.
#[verifier::external_body]
fn json_value(doc: &Json) -> serde_json::Value {
    match doc {
        Json::Str(s) => serde_json::Value::String(s.clone()),
        Json::Num(n) => serde_json::Value::from(*n),
        Json::Arr(items) => serde_json::Value::Array(items.iter().map(json_value).collect()),
        Json::Obj(fields) => serde_json::Value::Object(
            fields.iter().map(|(k, v)| (k.clone(), json_value(v))).collect(),
        ),
    }
}

/// Writes a document with `serde_json` (`Value::to_string`). Claims that
/// the text is `json_text` of the document: `serde_json` writes a value
/// the same way every time.
#[verifier::external_body]
pub(crate) fn write_json(doc: &Json) -> (text: String)
    ensures
        text@ == json_text(doc.tree()),
{
    json_value(doc).to_string()
}

} // verus!
