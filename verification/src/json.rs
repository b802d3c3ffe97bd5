//! JSON texts, as `serde_json` reads them.
use crate::order;
use vstd::prelude::*;

verus! {

/// The value of a JSON text, as far as it is looked at.
pub enum JsonTree {
    Text(Seq<char>),
    List(Seq<JsonTree>),
    /// The members, in the order of their keys.
    Table(Seq<(Seq<char>, JsonTree)>),
    Other,
}

/// A value of `serde_json`.
#[verifier::external_type_specification]
#[verifier::external_body]
pub struct ExValue(serde_json::Value);

/// An error of `serde_json`.
#[verifier::external_type_specification]
#[verifier::external_body]
pub struct ExError(serde_json::Error);

/// What a value of `serde_json` holds.
pub uninterp spec fn json_tree(v: serde_json::Value) -> JsonTree;

/// What `serde_json::from_str` reads from a text; none where it refuses the text.
pub uninterp spec fn json_text(text: Seq<char>) -> Option<JsonTree>;

/// `serde_json::from_str` depends on the text alone. Which texts it refuses, and what it reads
/// from the others, is not stated.
#[verifier::external_body]
pub(crate) fn read_json(text: &str) -> (r: Result<serde_json::Value, serde_json::Error>)
    ensures
        match r {
            Ok(v) => json_text(text@) == Some(json_tree(v)),
            Err(_) => json_text(text@) is None,
        },
{
    serde_json::from_str(text)
}

/// The member under `key`, where `t` is an object that has one.
pub open spec fn member_of(t: JsonTree, key: Seq<char>) -> Option<JsonTree> {
    match t {
        JsonTree::Table(ms) => if exists|i: int| 0 <= i < ms.len() && (#[trigger] ms[i]).0 == key {
            let i = choose|i: int| 0 <= i < ms.len() && (#[trigger] ms[i]).0 == key;
            Some(ms[i].1)
        } else {
            None
        },
        _ => None,
    }
}

/// `serde_json::Value::get` with a string gives the member of an object under that key, and
/// nothing where there is none or the value is no object.
#[verifier::external_body]
pub(crate) fn member<'a>(v: &'a serde_json::Value, key: &str) -> (r: Option<&'a serde_json::Value>)
    ensures
        match r {
            Some(m) => member_of(json_tree(*v), key@) == Some(json_tree(*m)),
            None => member_of(json_tree(*v), key@) is None,
        },
{
    v.get(key)
}

/// `serde_json::Value::as_str` gives the text of a string, and nothing for other values.
pub assume_specification[ serde_json::Value::as_str ](v: &serde_json::Value) -> (r: Option<&str>)
    ensures
        match json_tree(*v) {
            JsonTree::Text(s) => r is Some && r->0@ == s,
            _ => r is None,
        },
;

/// `serde_json::Value::as_array` gives the items of an array, and nothing for other values.
pub assume_specification[ serde_json::Value::as_array ](v: &serde_json::Value) -> (r: Option<
    &Vec<serde_json::Value>,
>)
    ensures
        match json_tree(*v) {
            JsonTree::List(items) => r is Some && r->0@.len() == items.len() && forall|i: int|
                0 <= i < items.len() ==> json_tree(#[trigger] r->0@[i]) == items[i],
            _ => r is None,
        },
;

/// `serde_json::Value::as_object` gives the members of an object, and nothing for other values.
/// The members come in the order of their keys, each key once.
#[verifier::external_body]
pub(crate) fn members<'a>(v: &'a serde_json::Value) -> (r: Option<Vec<(&'a String, &'a serde_json::Value)>>)
    ensures
        match json_tree(*v) {
            JsonTree::Table(ms) => r is Some && r->0@.len() == ms.len() && (forall|i: int|
                0 <= i < ms.len() ==> (#[trigger] r->0@[i]).0@ == ms[i].0 && json_tree(*r->0@[i].1) == ms[i].1)
                && (forall|i: int, j: int|
                0 <= i < j < ms.len() ==> order::less((#[trigger] r->0@[i]).0@, (#[trigger] r->0@[j]).0@)),
            _ => r is None,
        },
{
    v.as_object().map(|m| m.iter().collect())
}

} // verus!
