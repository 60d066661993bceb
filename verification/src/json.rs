//! JSON documents as a tree of the library's own, read with `serde_json`.
//!
//! `serde_json` does the parsing. What it hands back is copied, node for
//! node, into [`JsonValue`], a plain tree that the aggregation code can walk
//! and that a caller can write down by hand.

use crate::text::same_text;
use vstd::prelude::*;

verus! {

/// `serde_json::Value`, the document tree that `serde_json` builds. Nothing
/// is known of a value of it but what [`value_tree`] names.
#[verifier::external_type_specification]
#[verifier::external_body]
pub struct ExValue(serde_json::Value);

/// `serde_json::Error`, the reason a text was refused. It is carried, never
/// looked into.
#[verifier::external_type_specification]
#[verifier::external_body]
pub struct ExError(serde_json::Error);

/// A member of a JSON object: a key and the value under it.
#[derive(Debug, PartialEq, Eq)]
pub struct JsonMember {
    pub key: String,
    pub value: JsonValue,
}

/// A JSON document or any part of one.
#[derive(Debug, PartialEq, Eq)]
pub enum JsonValue {
    Null,
    Bool(bool),
    /// A number, kept as the text that writes it.
    Number(String),
    Text(String),
    Array(Vec<JsonValue>),
    /// The members of an object, in the order the document tree lists them.
    Object(Vec<JsonMember>),
}

/// The mathematical content of a [`JsonValue`].
pub enum JsonModel {
    Null,
    Bool(bool),
    Number(Seq<char>),
    Text(Seq<char>),
    Array(Seq<JsonModel>),
    Object(Seq<MemberModel>),
}

/// The mathematical content of a [`JsonMember`].
pub struct MemberModel {
    pub key: Seq<char>,
    pub value: JsonModel,
}

impl View for JsonMember {
    type V = MemberModel;

    open spec fn view(&self) -> MemberModel {
        MemberModel { key: self.key@, value: self.value@ }
    }
}

impl View for JsonValue {
    type V = JsonModel;

    open spec fn view(&self) -> JsonModel
        decreases self,
    {
        match self {
            JsonValue::Null => JsonModel::Null,
            JsonValue::Bool(flag) => JsonModel::Bool(*flag),
            JsonValue::Number(text) => JsonModel::Number(text@),
            JsonValue::Text(text) => JsonModel::Text(text@),
            JsonValue::Array(items) => JsonModel::Array(
                Seq::new(
                    items.len() as nat,
                    |i: int|
                        if 0 <= i < items.len() {
                            items[i]@
                        } else {
                            JsonModel::Null
                        },
                ),
            ),
            JsonValue::Object(members) => JsonModel::Object(
                Seq::new(
                    members.len() as nat,
                    |i: int|
                        if 0 <= i < members.len() {
                            MemberModel { key: members[i].key@, value: members[i].value@ }
                        } else {
                            MemberModel { key: Seq::empty(), value: JsonModel::Null }
                        },
                ),
            ),
        }
    }
}

/// The contents of a list of values, in order.
pub open spec fn value_views(values: Seq<JsonValue>) -> Seq<JsonModel> {
    values.map_values(|value: JsonValue| value@)
}

/// The index of the first member at or after `from` that stands under `key`.
pub open spec fn member_index(
    members: Seq<MemberModel>,
    key: Seq<char>,
    from: int,
) -> Option<int>
    decreases members.len() - from,
{
    if from < 0 || from >= members.len() {
        None
    } else if members[from].key == key {
        Some(from)
    } else {
        member_index(members, key, from + 1)
    }
}

impl JsonModel {
    /// The value under `key`, where this is an object that has the key.
    pub open spec fn member(self, key: Seq<char>) -> Option<JsonModel> {
        match self {
            JsonModel::Object(members) => match member_index(members, key, 0) {
                Some(i) => Some(members[i].value),
                None => None,
            },
            _ => None,
        }
    }

    /// The element at `index`, where this is an array that long.
    pub open spec fn element(self, index: int) -> Option<JsonModel> {
        match self {
            JsonModel::Array(items) => if 0 <= index < items.len() {
                Some(items[index])
            } else {
                None
            },
            _ => None,
        }
    }

    /// The elements, where this is an array.
    pub open spec fn items(self) -> Option<Seq<JsonModel>> {
        match self {
            JsonModel::Array(items) => Some(items),
            _ => None,
        }
    }

    /// The characters, where this is a string.
    pub open spec fn text(self) -> Option<Seq<char>> {
        match self {
            JsonModel::Text(text) => Some(text),
            _ => None,
        }
    }

    /// The first member, where this is an object that has one.
    pub open spec fn first_member(self) -> Option<MemberModel> {
        match self {
            JsonModel::Object(members) => if members.len() > 0 {
                Some(members[0])
            } else {
                None
            },
            _ => None,
        }
    }
}

/// What `serde_json::from_str` makes of `text`, read as a `serde_json::Value`:
/// the document tree, or `None` where it refuses the text.
pub uninterp spec fn json_document(text: Seq<char>) -> Option<JsonModel>;

/// The tree that a `serde_json::Value` holds: its variant, its payload and,
/// for arrays and objects, its children in the order its iterators give.
pub uninterp spec fn value_tree(value: serde_json::Value) -> JsonModel;

/// Calls `serde_json::from_str` for a `serde_json::Value`.
///
/// The contract only names the outcome: a text that `serde_json` accepts
/// gives the tree called `json_document`, a text that it refuses gives none.
/// `serde_json` bounds the nesting depth and returns an error past it.
#[verifier::external_body]
fn read_document(text: &str) -> (parsed: Result<serde_json::Value, serde_json::Error>)
    ensures
        match parsed {
            Ok(value) => json_document(text@) == Some(value_tree(value)),
            Err(_) => json_document(text@) is None,
        },
{
    serde_json::from_str::<serde_json::Value>(text)
}

/// Copies a `serde_json::Value` into a [`JsonValue`], variant for variant.
///
/// A number is kept as the text that `serde_json::Number` displays; the
/// members of an object come in the order `serde_json::Map::iter` walks
/// them.
#[verifier::external_body]
fn tree_of(value: &serde_json::Value) -> (tree: JsonValue)
    ensures
        tree@ == value_tree(*value),
{
    match value {
        serde_json::Value::Null => JsonValue::Null,
        serde_json::Value::Bool(flag) => JsonValue::Bool(*flag),
        serde_json::Value::Number(number) => JsonValue::Number(number.to_string()),
        serde_json::Value::String(text) => JsonValue::Text(text.clone()),
        serde_json::Value::Array(items) => JsonValue::Array(items.iter().map(tree_of).collect()),
        serde_json::Value::Object(members) => JsonValue::Object(
            members.iter().map(|(k, v)| JsonMember { key: k.clone(), value: tree_of(v) }).collect(),
        ),
    }
}

/// Parses a JSON text into a tree; `None` where the text is not JSON.
pub fn parse_json(text: &str) -> (document: Option<JsonValue>)
    ensures
        match document {
            Some(tree) => json_document(text@) == Some(tree@),
            None => json_document(text@) is None,
        },
{
    match read_document(text) {
        Ok(value) => Some(tree_of(&value)),
        Err(_) => None,
    }
}

impl JsonValue {
    /// The value under `key`, where this is an object that has the key.
    pub fn get(&self, key: &str) -> (found: Option<&JsonValue>)
        ensures
            match found {
                Some(value) => self@.member(key@) == Some(value@),
                None => self@.member(key@) is None,
            },
    {
        match self {
            JsonValue::Object(members) => {
                let ghost listed = self@->Object_0;
                let mut i: usize = 0;
                while i < members.len()
                    invariant
                        i <= members.len(),
                        self@ == JsonModel::Object(listed),
                        listed.len() == members.len(),
                        forall|k: int|
                            0 <= k < members.len() ==> listed[k] == members[k]@,
                        member_index(listed, key@, 0) == member_index(listed, key@, i as int),
                    decreases members.len() - i,
                {
                    if same_text(members[i].key.as_str(), key) {
                        return Some(&members[i].value);
                    }
                    i += 1;
                }
                None
            },
            _ => None,
        }
    }

    /// The element at `index`, where this is an array that long.
    pub fn at(&self, index: usize) -> (found: Option<&JsonValue>)
        ensures
            match found {
                Some(value) => self@.element(index as int) == Some(value@),
                None => self@.element(index as int) is None,
            },
    {
        match self {
            JsonValue::Array(items) => if index < items.len() {
                Some(&items[index])
            } else {
                None
            },
            _ => None,
        }
    }

    /// The elements, where this is an array.
    pub fn as_array(&self) -> (found: Option<&Vec<JsonValue>>)
        ensures
            match found {
                Some(items) => self@.items() == Some(value_views(items@)),
                None => self@.items() is None,
            },
    {
        match self {
            JsonValue::Array(items) => {
                Some(items)
            },
            _ => None,
        }
    }

    /// The characters, where this is a string.
    pub fn as_text(&self) -> (found: Option<&str>)
        ensures
            match found {
                Some(text) => self@.text() == Some(text@),
                None => self@.text() is None,
            },
    {
        match self {
            JsonValue::Text(text) => Some(text.as_str()),
            _ => None,
        }
    }

    /// The first member, where this is an object that has one.
    pub fn first_member(&self) -> (found: Option<&JsonMember>)
        ensures
            match found {
                Some(member) => self@.first_member() == Some(member@),
                None => self@.first_member() is None,
            },
    {
        match self {
            JsonValue::Object(members) => if members.len() > 0 {
                Some(&members[0])
            } else {
                None
            },
            _ => None,
        }
    }
}


} // verus!
