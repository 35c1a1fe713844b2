//! Members of a wire object: how a field of a record is written, and how it
//! is read back.
//!
//! An optional field that holds nothing is left out when written. When read,
//! a missing member and a `null` member both stand for "no value"; a member
//! of the wrong type is a decode failure.

use crate::error::BridgeError;
use crate::json::{lemma_object_view, member_models, Json, JsonModel};
use vstd::prelude::*;

verus! {

/// The characters of an optional text.
pub open spec fn text_model(text: Option<String>) -> Option<Seq<char>> {
    match text {
        Some(t) => Some(t@),
        None => None,
    }
}

/// The member that carries an optional number: none where there is no number.
pub open spec fn int_member(key: Seq<char>, value: Option<i32>) -> Seq<(Seq<char>, JsonModel)> {
    match value {
        Some(i) => seq![(key, JsonModel::Int(i as int))],
        None => Seq::empty(),
    }
}

/// The member that carries an optional text: none where there is no text.
pub open spec fn text_member(key: Seq<char>, value: Option<Seq<char>>) -> Seq<
    (Seq<char>, JsonModel),
> {
    match value {
        Some(t) => seq![(key, JsonModel::Text(t))],
        None => Seq::empty(),
    }
}

/// What an optional number decodes to from the member found for it:
/// `Some(None)` for a missing or `null` member, `None` for a member that is
/// not a number in the range of `i32`.
pub open spec fn optional_int(found: Option<JsonModel>) -> Option<Option<i32>> {
    match found {
        None => Some(None),
        Some(JsonModel::Null) => Some(None),
        Some(value) => match value.int32() {
            Some(i) => Some(Some(i)),
            None => None,
        },
    }
}

/// What an optional text decodes to from the member found for it:
/// `Some(None)` for a missing or `null` member, `None` for a member that is
/// not a string.
pub open spec fn optional_text(found: Option<JsonModel>) -> Option<Option<Seq<char>>> {
    match found {
        None => Some(None),
        Some(JsonModel::Null) => Some(None),
        Some(value) => match value.text() {
            Some(t) => Some(Some(t)),
            None => None,
        },
    }
}

/// What a required number decodes to: `None` unless the member is there and
/// is a number in the range of `i32`.
pub open spec fn required_int(found: Option<JsonModel>) -> Option<i32> {
    match found {
        Some(value) => value.int32(),
        None => None,
    }
}

/// What a required 64-bit number decodes to.
pub open spec fn required_long(found: Option<JsonModel>) -> Option<i64> {
    match found {
        Some(value) => value.int64(),
        None => None,
    }
}

/// What a required text decodes to: `None` unless the member is there and is
/// a string.
pub open spec fn required_text(found: Option<JsonModel>) -> Option<Seq<char>> {
    match found {
        Some(value) => value.text(),
        None => None,
    }
}

/// Appends the member for an optional number.
pub fn push_int_member(members: &mut Vec<(String, Json)>, key: &str, value: Option<i32>)
    ensures
        member_models(final(members)@) == member_models(old(members)@) + int_member(key@, value),
{
    match value {
        Some(i) => {
            members.push((key.to_owned(), Json::Int(i as i64)));
        },
        None => {},
    }
    assert(member_models(members@) =~= member_models(old(members)@) + int_member(key@, value));
}

/// Appends the member for an optional text.
pub fn push_text_member(members: &mut Vec<(String, Json)>, key: &str, value: &Option<String>)
    ensures
        member_models(final(members)@) == member_models(old(members)@) + text_member(
            key@,
            text_model(*value),
        ),
{
    match value {
        Some(t) => {
            members.push((key.to_owned(), Json::Text(t.clone())));
        },
        None => {},
    }
    assert(member_models(members@) =~= member_models(old(members)@) + text_member(
        key@,
        text_model(*value),
    ));
}

/// Appends one member.
pub fn push_member(members: &mut Vec<(String, Json)>, key: &str, value: Json)
    ensures
        member_models(final(members)@) == member_models(old(members)@).push((key@, value@)),
{
    members.push((key.to_owned(), value));
    assert(member_models(members@) =~= member_models(old(members)@).push((key@, value@)));
}

/// Appends copies of the given members, in their order.
pub fn push_members(members: &mut Vec<(String, Json)>, more: &Vec<(String, Json)>)
    ensures
        member_models(final(members)@) == member_models(old(members)@) + member_models(more@),
{
    let mut i: usize = 0;
    while i < more.len()
        invariant
            i <= more.len(),
            member_models(members@) == member_models(old(members)@) + member_models(more@).take(
                i as int,
            ),
        decreases more.len() - i,
    {
        let ghost before = member_models(members@);
        let value = more[i].1.clone();
        members.push((more[i].0.clone(), value));
        assert(member_models(members@) =~= before.push(member_models(more@)[i as int]));
        assert(member_models(more@).take(i + 1) =~= member_models(more@).take(i as int).push(
            member_models(more@)[i as int],
        ));
        i = i + 1;
    }
    assert(member_models(more@).take(i as int) =~= member_models(more@));
}

/// An object with the given members.
pub fn object(members: Vec<(String, Json)>) -> (json: Json)
    ensures
        json@ == JsonModel::Object(member_models(members@)),
{
    proof {
        lemma_object_view(members);
    }
    Json::Object(members)
}

/// Reads an optional number from the member `key`.
pub fn optional_i32_field(json: &Json, key: &str) -> (read: Result<Option<i32>, BridgeError>)
    ensures
        match optional_int(json@.field(key@)) {
            Some(value) => read == Ok::<Option<i32>, BridgeError>(value),
            None => read == Err::<Option<i32>, BridgeError>(BridgeError::Decode),
        },
{
    match json.get(key) {
        None => Ok(None),
        Some(value) => {
            if value.is_null() {
                Ok(None)
            } else {
                match value.as_i32() {
                    Some(i) => Ok(Some(i)),
                    None => Err(BridgeError::Decode),
                }
            }
        },
    }
}

/// Reads an optional text from the member `key`.
pub fn optional_text_field(json: &Json, key: &str) -> (read: Result<Option<String>, BridgeError>)
    ensures
        match optional_text(json@.field(key@)) {
            Some(value) => read matches Ok(text) && text_model(text) == value,
            None => read == Err::<Option<String>, BridgeError>(BridgeError::Decode),
        },
{
    match json.get(key) {
        None => Ok(None),
        Some(value) => {
            if value.is_null() {
                Ok(None)
            } else {
                match value.as_text() {
                    Some(t) => Ok(Some(t.to_owned())),
                    None => Err(BridgeError::Decode),
                }
            }
        },
    }
}

/// Reads a required number from the member `key`.
pub fn required_i32_field(json: &Json, key: &str) -> (read: Result<i32, BridgeError>)
    ensures
        match required_int(json@.field(key@)) {
            Some(value) => read == Ok::<i32, BridgeError>(value),
            None => read == Err::<i32, BridgeError>(BridgeError::Decode),
        },
{
    match json.get(key) {
        None => Err(BridgeError::Decode),
        Some(value) => match value.as_i32() {
            Some(i) => Ok(i),
            None => Err(BridgeError::Decode),
        },
    }
}

/// Reads a required 64-bit number from the member `key`.
pub fn required_i64_field(json: &Json, key: &str) -> (read: Result<i64, BridgeError>)
    ensures
        match required_long(json@.field(key@)) {
            Some(value) => read == Ok::<i64, BridgeError>(value),
            None => read == Err::<i64, BridgeError>(BridgeError::Decode),
        },
{
    match json.get(key) {
        None => Err(BridgeError::Decode),
        Some(value) => match value.as_i64() {
            Some(i) => Ok(i),
            None => Err(BridgeError::Decode),
        },
    }
}

/// Reads a required text from the member `key`.
pub fn required_text_field(json: &Json, key: &str) -> (read: Result<String, BridgeError>)
    ensures
        match required_text(json@.field(key@)) {
            Some(value) => read matches Ok(text) && text@ == value,
            None => read == Err::<String, BridgeError>(BridgeError::Decode),
        },
{
    match json.get(key) {
        None => Err(BridgeError::Decode),
        Some(value) => match value.as_text() {
            Some(t) => Ok(t.to_owned()),
            None => Err(BridgeError::Decode),
        },
    }
}

} // verus!
