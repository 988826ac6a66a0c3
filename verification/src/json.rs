//! Structured values: the JSON trees of `serde_json`, as the decoder reads
//! and edits them.
//!
//! Verus cannot look inside a `serde_json::Value`. The tree one holds is
//! named by [`json_view`], and the three functions at the end of this file,
//! which make the calls into `serde_json`, are believed, not proved, to read
//! and change the tree as their contracts say.

use serde_json::Value;
use vstd::prelude::*;

verus! {

/// `serde_json::Value`, a value that Verus cannot look inside.
#[verifier::external_type_specification]
#[verifier::external_body]
pub struct ExValue(serde_json::Value);

/// `serde_json::Number`, a value that Verus cannot look inside.
#[verifier::external_type_specification]
#[verifier::external_body]
pub struct ExNumber(serde_json::Number);

/// Mathematical model of a structured value.
pub enum JsonView {
    Null,
    Bool(bool),
    Number(serde_json::Number),
    Text(Seq<char>),
    Array(Seq<JsonView>),
    Object(Map<Seq<char>, JsonView>),
}

impl JsonView {
    /// The member stored under `key`, if this is an object that has one.
    pub open spec fn member(self, key: Seq<char>) -> Option<JsonView> {
        match self {
            JsonView::Object(members) => if members.contains_key(key) {
                Some(members[key])
            } else {
                None
            },
            _ => None,
        }
    }

    /// The text, if this is a string.
    pub open spec fn text(self) -> Option<Seq<char>> {
        match self {
            JsonView::Text(text) => Some(text),
            _ => None,
        }
    }

    /// This object with `item` stored under `key`, in place of what was
    /// there. Anything but an object is left as it is.
    pub open spec fn with_member(self, key: Seq<char>, item: JsonView) -> JsonView {
        match self {
            JsonView::Object(members) => JsonView::Object(members.insert(key, item)),
            _ => self,
        }
    }
}

/// The member under `key` of the value reached so far, if a value was
/// reached and has one.
pub open spec fn member_of(reached: Option<JsonView>, key: Seq<char>) -> Option<JsonView> {
    match reached {
        Some(value) => value.member(key),
        None => None,
    }
}

/// The tree that a `serde_json::Value` holds.
pub uninterp spec fn json_view(v: Value) -> JsonView;

/// The model of a value that may be absent.
pub open spec fn json_option(r: Option<&Value>) -> Option<JsonView> {
    match r {
        Some(value) => Some(json_view(*value)),
        None => None,
    }
}

/// One step down a tree: the member under `key` of the value reached so
/// far.
pub fn value_member<'a>(reached: Option<&'a Value>, key: &str) -> (r: Option<&'a Value>)
    ensures
        json_option(r) == member_of(json_option(reached), key@),
{
    match reached {
        Some(value) => value_get(value, key),
        None => None,
    }
}

/// `Value::get` with a string index: the member under `key` where `v` is an
/// object that has one, and nothing otherwise.
#[verifier::external_body]
pub(crate) fn value_get<'a>(v: &'a Value, key: &str) -> (r: Option<&'a Value>)
    ensures
        match r {
            Some(inner) => json_view(*v).member(key@) == Some(json_view(*inner)),
            None => json_view(*v).member(key@) is None,
        },
{
    v.get(key)
}

/// `Value::as_str`: the text where `v` is a string, and nothing otherwise.
#[verifier::external_body]
pub(crate) fn value_as_str<'a>(v: &'a Value) -> (r: Option<&'a str>)
    ensures
        match r {
            Some(text) => json_view(*v).text() == Some(text@),
            None => json_view(*v).text() is None,
        },
{
    v.as_str()
}

/// `Value::as_object_mut` followed by `Map::insert`: where `v` is an object,
/// `item` is stored under `key`, replacing what was there, and the answer is
/// `true`; anything else is left untouched and the answer is `false`.
#[verifier::external_body]
pub(crate) fn value_insert(v: &mut Value, key: String, item: Value) -> (done: bool)
    ensures
        done == (json_view(*old(v)) is Object),
        json_view(*final(v)) == json_view(*old(v)).with_member(key@, json_view(item)),
{
    match v.as_object_mut() {
        Some(members) => {
            members.insert(key, item);
            true
        },
        None => false,
    }
}

} // verus!
