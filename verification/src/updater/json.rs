//! A JSON document as plain values, and the lookups that the updater makes in it.
use vstd::prelude::*;

verus! {

/// A JSON value. Numbers are kept as the text of their literal; an object keeps
/// its members in order, each key once.
pub enum JsonValue {
    Null,
    Bool(bool),
    Number(String),
    Str(String),
    Array(Vec<JsonValue>),
    Object(Vec<(String, JsonValue)>),
}

/// The value of the member `key` among `members`, looked up from the front.
pub open spec fn member_of(members: Seq<(String, JsonValue)>, key: Seq<char>) -> Option<JsonValue>
    decreases members.len(),
{
    if members.len() == 0 {
        None
    } else if members[0].0@ == key {
        Some(members[0].1)
    } else {
        member_of(members.drop_first(), key)
    }
}

impl JsonValue {
    /// The value at the JSON pointer `/key`, for a key without `/` or `~` that is
    /// not an array index: the member `key` of an object, and nothing for any
    /// other value.
    pub open spec fn spec_member(self, key: Seq<char>) -> Option<JsonValue> {
        match self {
            JsonValue::Object(members) => member_of(members@, key),
            _ => None,
        }
    }

    /// The text of a string value.
    pub open spec fn spec_as_str(self) -> Option<Seq<char>> {
        match self {
            JsonValue::Str(s) => Some(s@),
            _ => None,
        }
    }

    /// The elements of an array value.
    pub open spec fn spec_as_array(self) -> Option<Seq<JsonValue>> {
        match self {
            JsonValue::Array(items) => Some(items@),
            _ => None,
        }
    }

    /// The value of the member `key` of an object; `None` for a missing member
    /// and for a value that is not an object.
    pub fn member(&self, key: &String) -> (found: Option<&JsonValue>)
        ensures
            match found {
                Some(v) => self.spec_member(key@) == Some(*v),
                None => self.spec_member(key@) is None,
            },
    {
        match self {
            JsonValue::Object(members) => {
                let n = members.len();
                let mut i: usize = 0;
                assert(members@.skip(0) =~= members@);
                while i < n
                    invariant
                        self.spec_member(key@) == member_of(members@, key@),
                        n == members@.len(),
                        i <= n,
                        member_of(members@, key@) == member_of(members@.skip(i as int), key@),
                    decreases n - i,
                {
                    let ghost rest = members@.skip(i as int);
                    assert(rest[0] == members@[i as int]);
                    assert(rest.drop_first() =~= members@.skip(i + 1));
                    if members[i].0 == *key {
                        return Some(&members[i].1);
                    }
                    i = i + 1;
                }
                assert(members@.skip(n as int).len() == 0);
                None
            },
            _ => None,
        }
    }

    /// The text of a string value; `None` for any other value.
    pub fn as_str(&self) -> (text: Option<&String>)
        ensures
            match text {
                Some(t) => self.spec_as_str() == Some(t@),
                None => self.spec_as_str() is None,
            },
    {
        match self {
            JsonValue::Str(s) => Some(s),
            _ => None,
        }
    }

    /// The elements of an array value; `None` for any other value.
    pub fn as_array(&self) -> (items: Option<&Vec<JsonValue>>)
        ensures
            match items {
                Some(v) => self.spec_as_array() == Some(v@),
                None => self.spec_as_array() is None,
            },
    {
        match self {
            JsonValue::Array(items) => Some(items),
            _ => None,
        }
    }
}

#[verifier::external_type_specification]
#[verifier::external_body]
pub struct ExSerdeJsonValue(serde_json::Value);

/// The document that `serde_json::from_str` reads from `text`, as plain values;
/// `None` when `text` is not JSON.
pub uninterp spec fn json_document(text: Seq<char>) -> Option<JsonValue>;

/// `serde_json::from_str::<serde_json::Value>`: parses `text` as JSON. The contract
/// names the crate's answer, a function of the text alone (objects come out in
/// the crate's own key order, a repeated key keeping its last value), taken one
/// for one into `JsonValue`: each variant to the same variant, a number to its text.
#[verifier::external_body]
pub fn parse_json(text: &str) -> (document: Option<JsonValue>)
    ensures
        document == json_document(text@),
{
    serde_json::from_str::<serde_json::Value>(text).ok().map(json_from_serde)
}

/// The one-for-one conversion of `parse_json`: a tree of `serde_json::Value` as the
/// same tree of `JsonValue`. It is the recursive part of `parse_json`'s body, which
/// alone calls it; nothing is claimed of it on its own.
#[verifier::external_body]
fn json_from_serde(value: serde_json::Value) -> JsonValue {
    match value {
        serde_json::Value::Null => JsonValue::Null,
        serde_json::Value::Bool(b) => JsonValue::Bool(b),
        serde_json::Value::Number(n) => JsonValue::Number(n.to_string()),
        serde_json::Value::String(s) => JsonValue::Str(s),
        serde_json::Value::Array(items) => JsonValue::Array(items.into_iter().map(json_from_serde).collect()),
        serde_json::Value::Object(members) => {
            JsonValue::Object(members.into_iter().map(|(k, v)| (k, json_from_serde(v))).collect())
        },
    }
}

} // verus!
