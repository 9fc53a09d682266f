//! JSON documents as trees, read from text by `serde_json`.
use crate::text::{chars_eq, chars_of};
use vstd::prelude::*;

verus! {

/// A JSON value. A number is kept as the text that writes it; an object is
/// kept as its members in the order of their names.
#[derive(Debug)]
pub enum Json {
    Null,
    Bool(bool),
    Number(String),
    Text(String),
    Array(Vec<Json>),
    Object(Vec<(String, Json)>),
}

#[verifier::external_type_specification]
#[verifier::external_body]
pub struct ExJsonValue(serde_json::Value);

/// The document that a text writes in JSON, if it writes one.
pub uninterp spec fn json_document(raw: Seq<char>) -> Option<Json>;

/// Copies a `serde_json::Value` into a `Json`, variant by variant; a number
/// becomes its `to_string`, an object its members in the order in which
/// `serde_json` iterates them.
#[verifier::external_body]
fn json_of(v: &serde_json::Value) -> Json {
    match v {
        serde_json::Value::Null => Json::Null,
        serde_json::Value::Bool(b) => Json::Bool(*b),
        serde_json::Value::Number(n) => Json::Number(n.to_string()),
        serde_json::Value::String(s) => Json::Text(s.clone()),
        serde_json::Value::Array(a) => Json::Array(a.iter().map(json_of).collect()),
        serde_json::Value::Object(m) => Json::Object(
            m.iter().map(|(k, x)| (k.clone(), json_of(x))).collect(),
        ),
    }
}

/// `serde_json::from_str` for a `serde_json::Value`: the document that the
/// text writes, or nothing where the text is no JSON. The same text always
/// gives the same document.
#[verifier::external_body]
fn read_json(raw: &str) -> (out: Option<Json>)
    ensures
        out == json_document(raw@),
{
    match serde_json::from_str::<serde_json::Value>(raw) {
        Ok(v) => Some(json_of(&v)),
        Err(_) => None,
    }
}

/// Position `i` holds the first member of the name `key`.
pub open spec fn is_member_at(members: Seq<(String, Json)>, key: Seq<char>, i: int) -> bool {
    &&& 0 <= i < members.len()
    &&& members[i].0@ == key
    &&& forall|j: int| 0 <= j < i ==> (#[trigger] members[j]).0@ != key
}

impl Json {
    /// The member of an object under the name `key`.
    pub open spec fn member(self, key: Seq<char>) -> Option<Json> {
        match self {
            Json::Object(members) => {
                let i = choose|i: int| is_member_at(members@, key, i);
                if is_member_at(members@, key, i) {
                    Some(members@[i].1)
                } else {
                    None
                }
            },
            _ => None,
        }
    }

    /// The items of an array.
    pub open spec fn items(self) -> Option<Seq<Json>> {
        match self {
            Json::Array(items) => Some(items@),
            _ => None,
        }
    }

    /// The text of a string value.
    pub open spec fn text(self) -> Option<Seq<char>> {
        match self {
            Json::Text(s) => Some(s@),
            _ => None,
        }
    }

    /// The member of an object under the name `key`.
    pub fn get(&self, key: &str) -> (r: Option<&Json>)
        ensures
            match r {
                Some(j) => self.member(key@) == Some(*j),
                None => self.member(key@) is None,
            },
    {
        match self {
            Json::Object(members) => {
                let k = chars_of(key);
                let mut i: usize = 0;
                while i < members.len()
                    invariant
                        i <= members.len(),
                        k@ == key@,
                        self matches Json::Object(m) && m == members,
                        forall|j: int| 0 <= j < i ==> (#[trigger] members@[j]).0@ != key@,
                    decreases members.len() - i,
                {
                    let name = chars_of(members[i].0.as_str());
                    if chars_eq(name.as_slice(), k.as_slice()) {
                        proof {
                            assert(is_member_at(members@, key@, i as int));
                            let c = choose|c: int| is_member_at(members@, key@, c);
                            assert(c == i);
                        }
                        return Some(&members[i].1);
                    }
                    i += 1;
                }
                None
            },
            _ => None,
        }
    }

    /// The items of an array.
    pub fn as_array(&self) -> (r: Option<&Vec<Json>>)
        ensures
            match r {
                Some(v) => self.items() == Some(v@),
                None => self.items() is None,
            },
    {
        match self {
            Json::Array(items) => Some(items),
            _ => None,
        }
    }

    /// The text of a string value.
    pub fn as_str(&self) -> (r: Option<&str>)
        ensures
            match r {
                Some(s) => self.text() == Some(s@),
                None => self.text() is None,
            },
    {
        match self {
            Json::Text(s) => Some(s.as_str()),
            _ => None,
        }
    }
}

/// Reads a JSON document from text.
pub fn parse_json(raw: &str) -> (out: Option<Json>)
    ensures
        out == json_document(raw@),
{
    read_json(raw)
}

} // verus!
