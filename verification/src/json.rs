//! Members of JSON objects, read from their text.

use vstd::prelude::*;

verus! {

/// The string that the member `key` of the object in a text holds.
pub uninterp spec fn json_str_of(text: Seq<char>, key: Seq<char>) -> Option<Seq<char>>;

/// The boolean that the member `key` of the object in a text holds.
pub uninterp spec fn json_bool_of(text: Seq<char>, key: Seq<char>) -> Option<bool>;

/// The integer that the member `key` of the object in a text holds, where it fits.
pub uninterp spec fn json_i64_of(text: Seq<char>, key: Seq<char>) -> Option<i64>;

/// `serde_json::Value::as_str` on the member `key`: `None` where the text does not
/// parse, holds no object, has no such member, or holds something else there.
#[verifier::external_body]
pub(crate) fn str_member(text: &str, key: &str) -> (member: Option<String>)
    ensures
        match json_str_of(text@, key@) {
            Some(value) => member matches Some(m) && m@ == value,
            None => member is None,
        },
{
    serde_json::from_str::<serde_json::Value>(text).ok()?.get(key)?.as_str().map(str::to_owned)
}

/// `serde_json::Value::as_bool` on the member `key`: `None` as for a string.
#[verifier::external_body]
pub(crate) fn bool_member(text: &str, key: &str) -> (member: Option<bool>)
    ensures
        member == json_bool_of(text@, key@),
{
    serde_json::from_str::<serde_json::Value>(text).ok()?.get(key)?.as_bool()
}

/// `serde_json::Value::as_i64` on the member `key`: `None` as for a string, and for
/// a number that is no `i64`.
#[verifier::external_body]
pub(crate) fn i64_member(text: &str, key: &str) -> (member: Option<i64>)
    ensures
        member == json_i64_of(text@, key@),
{
    serde_json::from_str::<serde_json::Value>(text).ok()?.get(key)?.as_i64()
}

/// What a text stands for, where there is one.
pub open spec fn text_of(text: Option<String>) -> Option<Seq<char>> {
    match text {
        Some(t) => Some(t@),
        None => None,
    }
}

} // verus!
