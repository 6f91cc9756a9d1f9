//! JSON values.
use serde_json::Value;
use vstd::prelude::*;
use crate::list::{first_where, lemma_first_index};
use crate::text::same;

verus! {

/// A number: how it is written, and its value where it is a 64-bit integer.
#[derive(Debug)]
pub struct JsonNumber {
    pub text: String,
    pub as_i64: Option<i64>,
    pub as_u64: Option<u64>,
}

/// A JSON value. The members of an object stand in the order in which they are
/// shown, each key once. Arrays and objects also hold how they are written on
/// one line.
#[derive(Debug)]
pub enum Json {
    Null,
    Bool(bool),
    Number(JsonNumber),
    Text(String),
    Array { items: Vec<Json>, line: String },
    Object { members: Vec<(String, Json)>, line: String },
}

/// Whether a member has a key.
pub open spec fn has_key(key: Seq<char>) -> spec_fn((String, Json)) -> bool {
    |m: (String, Json)| m.0@ == key
}

/// The value of an object's member; nothing where there is no such member or
/// the value is no object.
pub open spec fn member(j: Json, key: Seq<char>) -> Option<Json> {
    match j {
        Json::Object { members, .. } => match first_where(members@, has_key(key)) {
            Some(m) => Some(m.1),
            None => None,
        },
        _ => None,
    }
}

/// The text of a string value.
pub open spec fn text_of_json(j: Json) -> Option<Seq<char>> {
    match j {
        Json::Text(s) => Some(s@),
        _ => None,
    }
}

/// The items of an array.
pub open spec fn items_of(j: Json) -> Option<Seq<Json>> {
    match j {
        Json::Array { items, .. } => Some(items@),
        _ => None,
    }
}

/// The text of an object's member.
pub open spec fn member_text(j: Json, key: Seq<char>) -> Option<Seq<char>> {
    match member(j, key) {
        Some(v) => text_of_json(v),
        None => None,
    }
}

/// The items of an object's member.
pub open spec fn member_items(j: Json, key: Seq<char>) -> Option<Seq<Json>> {
    match member(j, key) {
        Some(v) => items_of(v),
        None => None,
    }
}

/// The value of an unsigned number.
pub open spec fn unsigned_of(j: Json) -> Option<u64> {
    match j {
        Json::Number(n) => n.as_u64,
        _ => None,
    }
}

/// The value of a signed number.
pub open spec fn signed_of(j: Json) -> Option<i64> {
    match j {
        Json::Number(n) => n.as_i64,
        _ => None,
    }
}

/// Whether a value is `true`.
pub open spec fn is_true(j: Json) -> bool {
    match j {
        Json::Bool(b) => b,
        _ => false,
    }
}

impl Json {
    /// Tests whether a value is `true`.
    pub fn is_true(&self) -> (r: bool)
        ensures
            r == is_true(*self),
    {
        match self {
            Json::Bool(b) => *b,
            _ => false,
        }
    }

    /// The value of an object's member.
    pub fn get(&self, key: &str) -> (r: Option<&Json>)
        ensures
            r is Some == member(*self, key@) is Some,
            r is Some ==> *r->0 == member(*self, key@)->0,
    {
        match self {
            Json::Object { members, line } => {
                let mut i: usize = 0;
                while i < members.len()
                    invariant
                        i <= members@.len(),
                        *self == (Json::Object { members: *members, line: *line }),
                        forall|j: int| 0 <= j < i ==> !has_key(key@)(#[trigger] members@[j]),
                    decreases members@.len() - i,
                {
                    if same(members[i].0.as_str(), key) {
                        proof {
                            lemma_first_index(members@, i as int, has_key(key@));
                        }
                        return Some(&members[i].1);
                    }
                    i += 1;
                }
                proof {
                    lemma_first_index(members@, i as int, has_key(key@));
                }
                None
            },
            _ => None,
        }
    }

    /// The text of a string value.
    pub fn as_str(&self) -> (r: Option<&str>)
        ensures
            r is Some == text_of_json(*self) is Some,
            r is Some ==> r->0@ == text_of_json(*self)->0,
    {
        match self {
            Json::Text(s) => Some(s.as_str()),
            _ => None,
        }
    }

    /// The items of an array.
    pub fn as_array(&self) -> (r: Option<&Vec<Json>>)
        ensures
            r is Some == items_of(*self) is Some,
            r is Some ==> r->0@ == items_of(*self)->0,
    {
        match self {
            Json::Array { items, line: _ } => Some(items),
            _ => None,
        }
    }

    /// The value of an unsigned number.
    pub fn as_u64(&self) -> (r: Option<u64>)
        ensures
            r == unsigned_of(*self),
    {
        match self {
            Json::Number(n) => n.as_u64,
            _ => None,
        }
    }

    /// The value of a signed number.
    pub fn as_i64(&self) -> (r: Option<i64>)
        ensures
            r == signed_of(*self),
    {
        match self {
            Json::Number(n) => n.as_i64,
            _ => None,
        }
    }

    /// The text of an object's member.
    pub fn get_str(&self, key: &str) -> (r: Option<&str>)
        ensures
            r is Some == member_text(*self, key@) is Some,
            r is Some ==> r->0@ == member_text(*self, key@)->0,
    {
        match self.get(key) {
            Some(v) => v.as_str(),
            None => None,
        }
    }

    /// The items of an object's member.
    pub fn get_array(&self, key: &str) -> (r: Option<&Vec<Json>>)
        ensures
            r is Some == member_items(*self, key@) is Some,
            r is Some ==> r->0@ == member_items(*self, key@)->0,
    {
        match self.get(key) {
            Some(v) => v.as_array(),
            None => None,
        }
    }
}

/// How a value is written on one line: a text as it is, nothing as `null`.
pub open spec fn line_of(j: Json, null: Seq<char>) -> Seq<char> {
    match j {
        Json::Null => null,
        Json::Bool(b) => if b {
            "true"@
        } else {
            "false"@
        },
        Json::Number(n) => n.text@,
        Json::Text(s) => s@,
        Json::Array { line, .. } => line@,
        Json::Object { line, .. } => line@,
    }
}

impl Json {
    /// Writes a value on one line: a text as it is, nothing as `null`.
    pub fn to_line(&self, null: &str) -> (r: String)
        ensures
            r@ == line_of(*self, null@),
    {
        match self {
            Json::Null => null.to_owned(),
            Json::Bool(b) => if *b {
                "true".to_owned()
            } else {
                "false".to_owned()
            },
            Json::Number(n) => n.text.clone(),
            Json::Text(s) => s.clone(),
            Json::Array { items: _, line } => line.clone(),
            Json::Object { members: _, line } => line.clone(),
        }
    }

    /// Tests whether a value is an object.
    pub fn is_object(&self) -> (r: bool)
        ensures
            r == (*self is Object),
    {
        match self {
            Json::Object { members: _, line: _ } => true,
            _ => false,
        }
    }
}

// ---------------------------------------------------------------------------
// Parsing
// ---------------------------------------------------------------------------

/// A value as `serde_json` holds it.
#[verifier::external_type_specification]
#[verifier::external_body]
pub struct ExValue(serde_json::Value);

/// `serde_json`: takes a `Value` apart, one variant for each of its own, with the
/// text that `Value::to_string` gives for numbers, arrays and objects. Nothing is
/// claimed of the result: it is a part of `parse_json`, whose result has a name.
#[verifier::external_body]
fn take_apart(value: &serde_json::Value) -> Json {
    let line = value.to_string();
    match value {
        Value::Null => Json::Null,
        Value::Bool(b) => Json::Bool(*b),
        Value::Number(n) => {
            Json::Number(JsonNumber { text: line, as_i64: n.as_i64(), as_u64: n.as_u64() })
        }
        Value::String(s) => Json::Text(s.clone()),
        Value::Array(a) => Json::Array { items: a.iter().map(take_apart).collect(), line },
        Value::Object(o) => {
            let members = o.iter().map(|(k, v)| (k.clone(), take_apart(v))).collect();
            Json::Object { members, line }
        }
    }
}

/// The value that `serde_json` reads from a text; nothing where the text is not
/// JSON.
pub uninterp spec fn parsed_json(text: Seq<char>) -> Option<Json>;

/// `serde_json`: `from_str` into a `Value`, taken apart. Whether the text is JSON,
/// and the value that it holds, depend on the text alone. Which value that is on a
/// given text is left unsaid: it takes the grammar of JSON.
#[verifier::external_body]
pub(crate) fn parse_json(text: &str) -> (r: Option<Json>)
    ensures
        r == parsed_json(text@),
{
    let value: Value = serde_json::from_str(text).ok()?;
    Some(take_apart(&value))
}

} // verus!
