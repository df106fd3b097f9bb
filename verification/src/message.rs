//! Reading a client's message from the text of a WebSocket frame: the
//! JSON reading is serde_json's; which fields the server reads, and what
//! makes a message unreadable, is decided here.

use crate::types::{ClientMessage, MessageView};
use vstd::prelude::*;

verus! {

/// The string at `key` of the JSON object written `text`: `None` when
/// `text` is not JSON, or the field is missing or not a string.
pub uninterp spec fn spec_json_str_field(text: Seq<char>, key: Seq<char>) -> Option<Seq<char>>;

/// The boolean at `key` of the JSON object written `text`: `None` when
/// `text` is not JSON, or the field is missing or not a boolean.
pub uninterp spec fn spec_json_bool_field(text: Seq<char>, key: Seq<char>) -> Option<bool>;

/// The JSON value written `text`, written out again by serde_json; `None`
/// when `text` is not JSON.
pub uninterp spec fn spec_json_text(text: Seq<char>) -> Option<Seq<char>>;

/// `serde_json::from_str` into a `serde_json::Value`, then `Value::as_str`
/// on the value at `key` (a missing key reads as null). Claimed: the
/// result depends on the text and the key alone (named
/// `spec_json_str_field`).
#[verifier::external_body]
fn json_str_field(text: &str, key: &str) -> (r: Option<String>)
    ensures
        r.deep_view() == spec_json_str_field(text@, key@),
{
    let v: serde_json::Value = serde_json::from_str(text).ok()?;
    v[key].as_str().map(String::from)
}

/// `serde_json::from_str` into a `serde_json::Value`, then `Value::as_bool`
/// on the value at `key`. Claimed: the result depends on the text and the
/// key alone (named `spec_json_bool_field`).
#[verifier::external_body]
fn json_bool_field(text: &str, key: &str) -> (r: Option<bool>)
    ensures
        r == spec_json_bool_field(text@, key@),
{
    let v: serde_json::Value = serde_json::from_str(text).ok()?;
    v[key].as_bool()
}

/// `serde_json::from_str` into a `serde_json::Value`, then the value's
/// `Display` (`to_string`). Claimed: the result depends on the text alone
/// (named `spec_json_text`).
#[verifier::external_body]
fn json_text(text: &str) -> (r: Option<String>)
    ensures
        r.deep_view() == spec_json_text(text@),
{
    let v: serde_json::Value = serde_json::from_str(text).ok()?;
    Some(v.to_string())
}

/// Why a frame's text is not served.
#[derive(Clone, Copy, Debug, PartialEq, Eq)]
pub enum TextError {
    /// The text is not JSON, or has no string `type`.
    Unreadable,
    /// The message lacks a field that its kind needs, or calls before its
    /// sender has signed in.
    Incomplete,
}

/// The message that the frame text `text` carries: its string `type`,
/// the string fields `id`, `name`, `emoji`, `pk`, the field `password`
/// read both as a flag and as a text, and the whole value written out
/// again; `None` when there is no string `type`.
pub open spec fn spec_read_message(text: Seq<char>) -> Option<MessageView> {
    match spec_json_str_field(text, "type"@) {
        None => None,
        Some(kind) => Some(
            MessageView {
                kind,
                id: spec_json_str_field(text, "id"@),
                name: spec_json_str_field(text, "name"@),
                emoji: spec_json_str_field(text, "emoji"@),
                password_flag: spec_json_bool_field(text, "password"@),
                password_text: spec_json_str_field(text, "password"@),
                pk: spec_json_str_field(text, "pk"@),
                json: match spec_json_text(text) {
                    Some(j) => j,
                    None => Seq::empty(),
                },
            },
        ),
    }
}

/// Reads the message that the frame text `text` carries.
pub fn read_message(text: &str) -> (res: Option<ClientMessage>)
    ensures
        match res {
            Some(m) => spec_read_message(text@) == Some(m@),
            None => spec_read_message(text@) is None,
        },
{
    let kind = json_str_field(text, "type")?;
    let json = match json_text(text) {
        Some(j) => j,
        None => String::new(),
    };
    Some(ClientMessage {
        kind,
        id: json_str_field(text, "id"),
        name: json_str_field(text, "name"),
        emoji: json_str_field(text, "emoji"),
        password_flag: json_bool_field(text, "password"),
        password_text: json_str_field(text, "password"),
        pk: json_str_field(text, "pk"),
        json,
    })
}

/// A frame is read as a message exactly when its JSON has a string
/// `type`. The message's kind is that string; its `id`, `name`, `emoji`
/// and `pk` are the string fields of those names; its password is the
/// `password` field read as a flag and as a text; and its JSON is the
/// frame's JSON written out again.
pub proof fn lemma_read_message_fields(text: Seq<char>)
    ensures
        spec_read_message(text) is Some <==> spec_json_str_field(text, "type"@) is Some,
        spec_read_message(text) matches Some(m) ==> {
            &&& spec_json_str_field(text, "type"@) == Some(m.kind)
            &&& m.id == spec_json_str_field(text, "id"@)
            &&& m.name == spec_json_str_field(text, "name"@)
            &&& m.emoji == spec_json_str_field(text, "emoji"@)
            &&& m.pk == spec_json_str_field(text, "pk"@)
            &&& m.password_flag == spec_json_bool_field(text, "password"@)
            &&& m.password_text == spec_json_str_field(text, "password"@)
            &&& spec_json_text(text) matches Some(j) ==> m.json == j
        },
{
}

} // verus!
