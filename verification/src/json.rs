//! JSON documents, as far as a configuration is read: objects and strings.
//! Parsing is `serde_json`'s.

use crate::ast::optional_text_of;
use serde_json::Value;
use vstd::prelude::*;

verus! {

/// `serde_json::Value`, carried through as it is.
#[verifier::external_type_specification]
#[verifier::external_body]
pub struct ExJsonValue(serde_json::Value);

/// `serde_json::Error`, carried through as it is.
#[verifier::external_type_specification]
#[verifier::external_body]
pub struct ExJsonError(serde_json::Error);

/// A JSON value: a string, an object with its members, or any other value,
/// of which nothing is kept.
#[derive(Debug, PartialEq)]
pub enum Json {
    Text(String),
    Object(Vec<Member>),
    Other,
}

/// A member of an object.
#[derive(Debug, PartialEq)]
pub struct Member {
    pub key: String,
    pub value: Json,
}

/// What a JSON value holds.
pub enum JsonView {
    Text(Seq<char>),
    Object(Seq<MemberView>),
    Other,
}

/// What a member holds.
pub struct MemberView {
    pub key: Seq<char>,
    pub value: JsonView,
}

impl View for Json {
    type V = JsonView;

    open spec fn view(&self) -> JsonView
        decreases self,
    {
        match self {
            Json::Text(text) => JsonView::Text(text@),
            Json::Object(members) => JsonView::Object(
                Seq::new(
                    members@.len(),
                    |i: int|
                        if 0 <= i < members@.len() {
                            MemberView { key: members@[i].key@, value: members@[i].value.view() }
                        } else {
                            arbitrary()
                        },
                ),
            ),
            Json::Other => JsonView::Other,
        }
    }
}

/// The view of an optional value.
pub open spec fn optional_json(json: Option<&Json>) -> Option<JsonView> {
    match json {
        Some(json) => Some(json@),
        None => None,
    }
}

/// What `serde_json::from_str` makes of `text`: the document, or none where
/// it refuses the text.
pub uninterp spec fn json_document(text: Seq<char>) -> Option<JsonView>;

/// What a `serde_json::Value` holds.
pub uninterp spec fn json_contents(value: Value) -> JsonView;

/// Calls `serde_json::from_str` for a `Value`. Trusted: the value holds the
/// document that `json_document` names for this text, and an error comes
/// where there is none.
#[verifier::external_body]
fn json_from_str(text: &str) -> (r: Result<Value, serde_json::Error>)
    ensures
        match r {
            Ok(value) => json_document(text@) == Some(json_contents(value)),
            Err(_) => json_document(text@) is None,
        },
{
    serde_json::from_str::<Value>(text)
}

/// Hands out what a `Value` holds, variant by variant: a string as it is, an
/// object member by member in the order of `Map::iter`, nothing of the rest.
/// Trusted: the result holds what `json_contents` names.
#[verifier::external_body]
fn json_tree(value: &Value) -> (r: Json)
    ensures
        r@ == json_contents(*value),
{
    match value {
        Value::Null => Json::Other,
        Value::Bool(_) => Json::Other,
        Value::Number(_) => Json::Other,
        Value::String(text) => Json::Text(text.clone()),
        Value::Array(_) => Json::Other,
        Value::Object(members) => Json::Object(
            members.iter().map(|(key, value)| Member { key: key.clone(), value: json_tree(value) }).collect(),
        ),
    }
}

/// The value of the first member with this key.
pub open spec fn find_member(members: Seq<MemberView>, key: Seq<char>) -> Option<JsonView>
    decreases members.len(),
{
    if members.len() == 0 {
        None
    } else if members[0].key == key {
        Some(members[0].value)
    } else {
        find_member(members.skip(1), key)
    }
}

/// The member of an object under `key`; none where the value is no object or
/// has no such member.
pub open spec fn member_of(json: JsonView, key: Seq<char>) -> Option<JsonView> {
    match json {
        JsonView::Object(members) => find_member(members, key),
        _ => None,
    }
}

/// The text of a string; none where the value is no string.
pub open spec fn text_of(json: JsonView) -> Option<Seq<char>> {
    match json {
        JsonView::Text(text) => Some(text),
        _ => None,
    }
}

/// The view of an optional document.
pub open spec fn optional_document(json: Option<Json>) -> Option<JsonView> {
    match json {
        Some(json) => Some(json@),
        None => None,
    }
}

impl Json {
    /// Reads a document; none where the text is no JSON.
    pub fn parse(text: &str) -> (r: Option<Json>)
        ensures
            optional_document(r) == json_document(text@),
    {
        match json_from_str(text) {
            Ok(value) => Some(json_tree(&value)),
            Err(_) => None,
        }
    }

    /// The member under `key`.
    pub fn member(&self, key: &str) -> (r: Option<&Json>)
        ensures
            optional_json(r) == member_of(self@, key@),
    {
        match self {
            Json::Object(members) => {
                let ghost all = self@->Object_0;
                let wanted: String = key.to_string();
                let mut i: usize = 0;
                assert(all.skip(0) == all);
                while i < members.len()
                    invariant
                        i <= members.len(),
                        wanted@ == key@,
                        self@ == JsonView::Object(all),
                        all.len() == members@.len(),
                        forall|j: int|
                            0 <= j < all.len() ==> (#[trigger] all[j]).key == members@[j].key@
                                && all[j].value == members@[j].value@,
                        find_member(all, key@) == find_member(all.skip(i as int), key@),
                    decreases members.len() - i,
                {
                    assert(all.skip(i as int)[0] == all[i as int]);
                    assert(all.skip(i as int).skip(1) == all.skip(i + 1));
                    if members[i].key == wanted {
                        assert(all[i as int].key == key@);
                        assert(all[i as int].value == members@[i as int].value@);
                        return Some(&members[i].value);
                    }
                    assert(all[i as int].key != key@);
                    i += 1;
                }
                None
            },
            _ => None,
        }
    }

    /// The text, where the value is a string.
    pub fn text(&self) -> (r: Option<&str>)
        ensures
            optional_text_of(r) == text_of(self@),
    {
        match self {
            Json::Text(text) => Some(text.as_str()),
            _ => None,
        }
    }
}

} // verus!
