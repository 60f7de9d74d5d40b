//! JSON documents as `serde_json` reads them, and the model that the
//! contracts of this crate speak of.

use vstd::prelude::*;

verus! {

/// A JSON document as a mathematical value.
///
/// `Integer` stands for a number that `serde_json` keeps as an integer: one
/// written without fraction or exponent that lies between `i64::MIN` and
/// `u64::MAX` and is not minus zero. Every other number is `Real`, minus zero
/// among them. An object holds one value for each name: where the text
/// repeats a name, the last member of that name.
pub enum Json {
    Null,
    Bool(bool),
    Integer(int),
    Real,
    Text(Seq<char>),
    List(Seq<Json>),
    Object(Map<Seq<char>, Json>),
}

impl Json {
    /// Whether the document is an object that has a member named `key`.
    pub open spec fn has_member(self, key: Seq<char>) -> bool {
        match self {
            Json::Object(members) => members.contains_key(key),
            _ => false,
        }
    }

    /// The member named `key` of an object that has one.
    pub open spec fn member(self, key: Seq<char>) -> Json
        recommends
            self.has_member(key),
    {
        match self {
            Json::Object(members) => members[key],
            _ => Json::Null,
        }
    }

    /// The document as a signed 64-bit integer, where it is one.
    pub open spec fn as_i64(self) -> Option<i64> {
        match self {
            Json::Integer(n) => if i64::MIN <= n <= i64::MAX {
                Some(n as i64)
            } else {
                None
            },
            _ => None,
        }
    }
}

/// `serde_json::Value`, carried through as an opaque value: what it holds is
/// known only through `value_content`.
#[verifier::external_type_specification]
#[verifier::external_body]
pub struct ExValue(serde_json::Value);

/// `serde_json::Error`, of which nothing is read.
#[verifier::external_type_specification]
#[verifier::external_body]
pub struct ExJsonError(serde_json::Error);

/// The document that `serde_json` reads from `text` as a whole value, or
/// `None` where it rejects the text. Every member is read, also one that
/// nothing asks for: a number beyond the range of a float, or a nesting
/// deeper than the reader allows, anywhere in the text makes it `None`.
pub uninterp spec fn json_text(text: Seq<u8>) -> Option<Json>;

/// The document that a `serde_json::Value` holds.
pub uninterp spec fn value_content(value: serde_json::Value) -> Json;

/// Calls `serde_json::from_slice` for a `serde_json::Value`.
///
/// Trusted: the value returned holds the document that `json_text` names for
/// these bytes, and an error is returned exactly where `json_text` is `None`.
#[verifier::external_body]
pub(crate) fn decode(text: &[u8]) -> (r: Result<serde_json::Value, serde_json::Error>)
    ensures
        match r {
            Ok(value) => json_text(text@) == Some(value_content(value)),
            Err(_) => json_text(text@) is None,
        },
{
    serde_json::from_slice::<serde_json::Value>(text)
}

/// Calls `serde_json::Value::get` with a string key.
///
/// Trusted: the result is the member of that name where the value is an
/// object that has one, and `None` for every other value.
#[verifier::external_body]
pub(crate) fn member<'a>(value: &'a serde_json::Value, key: &str) -> (r: Option<
    &'a serde_json::Value,
>)
    ensures
        match r {
            Some(found) => value_content(*value).has_member(key@) && value_content(*found)
                == value_content(*value).member(key@),
            None => !value_content(*value).has_member(key@),
        },
{
    value.get(key)
}

/// Calls `serde_json::Value::as_i64`.
///
/// Trusted: the result is the number held where the value is an integer that
/// fits in `i64`, and `None` for every other value.
#[verifier::external_body]
pub(crate) fn integer(value: &serde_json::Value) -> (r: Option<i64>)
    ensures
        r == value_content(*value).as_i64(),
{
    value.as_i64()
}

} // verus!
