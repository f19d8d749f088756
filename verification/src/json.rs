//! The JSON questions the tool-call parser asks of `serde_json`: whether a
//! text parses, what a member of an object holds and what a JSON string
//! says. JSON itself is serde_json's; each answer is named by the text it
//! was asked about.

use vstd::prelude::*;

verus! {

/// What `serde_json` reports for `text` read as a JSON value: `None` when
/// it parses, else the message of its error.
pub uninterp spec fn json_error_of(text: Seq<char>) -> Option<Seq<char>>;

/// The compact JSON text of member `key`, when `text` parses to an object
/// that has that member.
pub uninterp spec fn json_member_of(text: Seq<char>, key: Seq<char>) -> Option<Seq<char>>;

/// The string a JSON string literal `text` stands for, when it is one.
pub uninterp spec fn json_string_of(text: Seq<char>) -> Option<Seq<char>>;

/// `serde_json::from_str::<serde_json::Value>(text)`: `None` when it
/// parses, else the error rendered by its `Display`. Which texts parse and
/// what the message says is serde_json's and is named, not stated.
#[verifier::external_body]
pub(crate) fn json_error(text: &str) -> (r: Option<String>)
    ensures
        r.deep_view() == json_error_of(text@),
{
    match serde_json::from_str::<serde_json::Value>(text) {
        Ok(_) => None,
        Err(error) => Some(error.to_string()),
    }
}

/// `serde_json::from_str::<serde_json::Value>(text)`, then `get(key)` on
/// the value and the member rendered back by `to_string` (compact JSON).
/// `None` when the text does not parse or holds no such member; the
/// member's text is named, not stated.
#[verifier::external_body]
pub(crate) fn json_member(text: &str, key: &str) -> (r: Option<String>)
    ensures
        r.deep_view() == json_member_of(text@, key@),
{
    match serde_json::from_str::<serde_json::Value>(text) {
        Ok(value) => value.get(key).map(|member| member.to_string()),
        Err(_) => None,
    }
}

/// `serde_json::from_str::<String>(text)`: the string a JSON string literal
/// stands for, `None` for any other text. The decoding is named, not
/// stated.
#[verifier::external_body]
pub(crate) fn json_string(text: &str) -> (r: Option<String>)
    ensures
        r.deep_view() == json_string_of(text@),
{
    serde_json::from_str::<String>(text).ok()
}

/// The unsigned integer a JSON text `text` holds, when it is one that fits
/// a `u64`.
pub uninterp spec fn json_u64_of(text: Seq<char>) -> Option<u64>;

/// `serde_json::from_str::<serde_json::Value>(text)`, then `as_u64` on the
/// value: the number when the text is a JSON integer that fits a `u64`,
/// `None` for anything else. Which texts those are is serde_json's and is
/// named, not stated.
#[verifier::external_body]
pub(crate) fn json_u64(text: &str) -> (r: Option<u64>)
    ensures
        r == json_u64_of(text@),
{
    match serde_json::from_str::<serde_json::Value>(text) {
        Ok(value) => value.as_u64(),
        Err(_) => None,
    }
}

/// JSON's insignificant whitespace: space, tab, line feed, carriage return.
pub open spec fn is_json_whitespace(c: char) -> bool {
    c == ' ' || c == '\t' || c == '\n' || c == '\r'
}

/// `text` is `word` with nothing but JSON whitespace before and after it.
pub open spec fn padded_word(text: Seq<char>, word: Seq<char>) -> bool {
    exists|i: int|
        #![trigger text.subrange(i, i + word.len())]
        0 <= i && i + word.len() <= text.len() && text.subrange(i, i + word.len()) == word
            && (forall|k: int| 0 <= k < i ==> is_json_whitespace(#[trigger] text[k]))
            && (forall|k: int| i + word.len() <= k < text.len() ==> is_json_whitespace(#[trigger] text[k]))
}

/// The boolean a JSON text `text` holds: the literal `true` or `false`,
/// with only JSON whitespace around it.
pub open spec fn json_bool_of(text: Seq<char>) -> Option<bool> {
    if padded_word(text, "true"@) {
        Some(true)
    } else if padded_word(text, "false"@) {
        Some(false)
    } else {
        None
    }
}

/// `serde_json::from_str::<serde_json::Value>(text)`, then `as_bool` on the
/// value. serde_json skips JSON whitespace before a value and accepts only
/// whitespace after it, and a JSON boolean is one of the two literals, so
/// the result is the boolean exactly when the text is `true` or `false`
/// padded with whitespace, and `None` for anything else.
#[verifier::external_body]
pub(crate) fn json_bool(text: &str) -> (r: Option<bool>)
    ensures
        r == json_bool_of(text@),
{
    match serde_json::from_str::<serde_json::Value>(text) {
        Ok(value) => value.as_bool(),
        Err(_) => None,
    }
}

/// The elements of a JSON array text `text`, each rendered back as compact
/// JSON text, when the text is an array.
pub uninterp spec fn json_items_of(text: Seq<char>) -> Option<Seq<Seq<char>>>;

/// `serde_json::from_str::<serde_json::Value>(text)`, then `as_array`, and
/// each element rendered by `to_string` (compact JSON), in order; `None`
/// when the text is not a JSON array. Named, not stated.
#[verifier::external_body]
pub(crate) fn json_items(text: &str) -> (r: Option<Vec<String>>)
    ensures
        r.deep_view() == json_items_of(text@),
{
    match serde_json::from_str::<serde_json::Value>(text) {
        Ok(value) => value.as_array().map(|items| items.iter().map(|item| item.to_string()).collect()),
        Err(_) => None,
    }
}

/// The members of a JSON object text `text`, as (key, compact JSON text of
/// the value) pairs in the order the object's map iterates them, when the
/// text is an object.
pub uninterp spec fn json_entries_of(text: Seq<char>) -> Option<Seq<(Seq<char>, Seq<char>)>>;

/// `serde_json::from_str::<serde_json::Value>(text)`, then `as_object`, and
/// each member as its key and its value rendered by `to_string` (compact
/// JSON), in the map's order; `None` when the text is not a JSON object.
/// Named, not stated.
#[verifier::external_body]
pub(crate) fn json_entries(text: &str) -> (r: Option<Vec<(String, String)>>)
    ensures
        r.deep_view() == json_entries_of(text@),
{
    match serde_json::from_str::<serde_json::Value>(text) {
        Ok(value) => value.as_object().map(|members| members.iter().map(|(k, v)| (k.clone(), v.to_string())).collect()),
        Err(_) => None,
    }
}

} // verus!
