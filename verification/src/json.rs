//! Values of JSON, as far as replies are read by position.

use serde_json::Value;
use vstd::prelude::*;

verus! {

/// A JSON value, with nothing inside that the library could see.
#[verifier::external_type_specification]
#[verifier::external_body]
pub struct ExValue(serde_json::Value);

/// What a JSON value holds.
pub enum JsonModel {
    /// An array.
    Array(Seq<JsonModel>),
    /// A string.
    Text(Seq<char>),
    /// Anything else: null, a boolean, a number or an object.
    Other,
}

impl JsonModel {
    /// The item of an array at a position, where there is one.
    pub open spec fn at(self, i: int) -> Option<JsonModel> {
        match self {
            JsonModel::Array(items) => if 0 <= i < items.len() {
                Some(items[i])
            } else {
                None
            },
            _ => None,
        }
    }

    /// The text of a string.
    pub open spec fn text(self) -> Option<Seq<char>> {
        match self {
            JsonModel::Text(s) => Some(s),
            _ => None,
        }
    }

    /// The text at a position of an array.
    pub open spec fn text_at(self, i: int) -> Option<Seq<char>> {
        match self.at(i) {
            Some(item) => item.text(),
            None => None,
        }
    }
}

/// What a JSON value holds.
pub uninterp spec fn json_model(v: serde_json::Value) -> JsonModel;

/// What `serde_json::from_str` reads in a text, or the message of its error.
pub uninterp spec fn json_read(text: Seq<char>) -> Result<JsonModel, Seq<char>>;

/// `serde_json::from_str` for a `Value`. What it reads, and the message where it
/// cannot, depends on the text alone. The grammar of JSON is not written out
/// here.
#[verifier::external_body]
pub(crate) fn parse_json(text: &str) -> (r: Result<Value, String>)
    ensures
        match r {
            Ok(v) => json_read(text@) == Ok::<JsonModel, Seq<char>>(json_model(v)),
            Err(message) => json_read(text@) == Err::<JsonModel, Seq<char>>(message@),
        },
{
    serde_json::from_str(text).map_err(|e: serde_json::Error| e.to_string())
}

/// `Value::get` with a number gives the item of an array at that position; there
/// is none past the end, nor in a value that is no array.
#[verifier::external_body]
pub(crate) fn item_at(v: &Value, i: usize) -> (r: Option<&Value>)
    ensures
        match r {
            Some(item) => json_model(*v).at(i as int) == Some(json_model(*item)),
            None => json_model(*v).at(i as int) is None,
        },
{
    v.get(i)
}

/// `Value::as_array` gives the items of an array, and nothing of any other
/// value.
pub assume_specification[ serde_json::Value::as_array ](v: &serde_json::Value) -> (r: Option<
    &Vec<serde_json::Value>,
>)
    ensures
        match r {
            Some(items) => json_model(*v) == JsonModel::Array(
                items@.map_values(|item: serde_json::Value| json_model(item)),
            ),
            None => !(json_model(*v) is Array),
        },
;

/// `Value::as_str` gives the text of a string, and nothing of any other value.
pub assume_specification[ serde_json::Value::as_str ](v: &serde_json::Value) -> (r: Option<&str>)
    ensures
        match r {
            Some(s) => json_model(*v) == JsonModel::Text(s@),
            None => json_model(*v).text() is None,
        },
;

/// The text at a position of an array.
pub fn text_at(v: &Value, i: usize) -> (r: Option<String>)
    ensures
        r.deep_view() == json_model(*v).text_at(i as int),
{
    match item_at(v, i) {
        Some(item) => match item.as_str() {
            Some(s) => Some(s.to_string()),
            None => None,
        },
        None => None,
    }
}

} // verus!
