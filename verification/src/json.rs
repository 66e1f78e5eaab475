//! JSON objects for the payloads that the coordination layer writes itself.

use crate::textmap::TextMap;
use vstd::prelude::*;

verus! {

/// The value of a field of a JSON object.
#[derive(Debug, PartialEq, Eq)]
pub enum JsonValue {
    /// `null`.
    Null,
    /// A string.
    Text(String),
    /// An object whose values are strings.
    Object(TextMap),
}

/// The mathematical value of a [`JsonValue`].
pub enum JsonValueView {
    Null,
    Text(Seq<char>),
    Object(Seq<(Seq<char>, Seq<char>)>),
}

impl View for JsonValue {
    type V = JsonValueView;

    open spec fn view(&self) -> JsonValueView {
        match self {
            JsonValue::Null => JsonValueView::Null,
            JsonValue::Text(text) => JsonValueView::Text(text@),
            JsonValue::Object(entries) => JsonValueView::Object(entries@),
        }
    }
}

/// A field of a JSON object.
#[derive(Debug, PartialEq, Eq)]
pub struct JsonField {
    pub name: String,
    pub value: JsonValue,
}

impl View for JsonField {
    type V = (Seq<char>, JsonValueView);

    open spec fn view(&self) -> (Seq<char>, JsonValueView) {
        (self.name@, self.value@)
    }
}

/// The mathematical value of a list of fields.
pub open spec fn field_views(fields: Seq<JsonField>) -> Seq<(Seq<char>, JsonValueView)> {
    fields.map_values(|f: JsonField| f@)
}

/// The bytes of the JSON object that is made by setting the given fields one
/// after the other, as `serde_json::to_vec` writes it; `None` where it
/// reports an error.
pub uninterp spec fn json_object(fields: Seq<(Seq<char>, JsonValueView)>) -> Option<Seq<u8>>;

/// A text as a JSON string: between double quotes, with the characters that
/// need it escaped, as serde_json writes it.
pub uninterp spec fn json_string(text: Seq<char>) -> Seq<char>;

/// Makes a `serde_json::Value` of the text and calls its `to_string`, which
/// writes the value as compact JSON. The result is taken to be the text named
/// [`json_string`], which is a function of the characters of `text` alone.
#[verifier::external_body]
pub(crate) fn quote(text: &str) -> (quoted: String)
    ensures
        quoted@ == json_string(text@),
{
    serde_json::Value::String(text.to_string()).to_string()
}

/// Why a JSON text could not be written.
#[derive(Debug, Clone, Copy, PartialEq, Eq, Structural)]
pub struct JsonError;

/// Builds a `serde_json::Map` by `Map::insert`, field after field, and calls
/// `serde_json::to_vec` on the object. The result is taken to be the bytes
/// named [`json_object`], which are a function of the fields alone.
#[verifier::external_body]
pub(crate) fn encode_object(fields: &Vec<JsonField>) -> (bytes: Result<Vec<u8>, JsonError>)
    ensures
        match bytes {
            Ok(b) => json_object(field_views(fields@)) == Some(b@),
            Err(_) => json_object(field_views(fields@)).is_none(),
        },
{
    let mut object = serde_json::Map::new();
    for field in fields.iter() {
        let value = match &field.value {
            JsonValue::Null => serde_json::Value::Null,
            JsonValue::Text(text) => serde_json::Value::String(text.clone()),
            JsonValue::Object(entries) => serde_json::Value::Object(
                (0..entries.len()).map(|i| (entries.key_at(i).into(), entries.value_at(i).into())).collect(),
            ),
        };
        object.insert(field.name.clone(), value);
    }
    serde_json::to_vec(&serde_json::Value::Object(object)).map_err(|_| JsonError)
}

} // verus!
