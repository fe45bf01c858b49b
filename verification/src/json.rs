//! Reading members of JSON documents.

use vstd::prelude::*;

verus! {

#[verifier::external_type_specification]
#[verifier::external_body]
pub struct ExJsonValue(serde_json::Value);

/// The members of a JSON object, by key: for each, its text where it holds
/// a string, and its number where it holds an integer in the range of `i64`.
/// A document that is no object has no members.
pub uninterp spec fn json_members(document: serde_json::Value) -> Map<
    Seq<char>,
    (Option<Seq<char>>, Option<int>),
>;

/// The members of the JSON document that a text writes; `None` where the
/// text is no JSON document.
pub uninterp spec fn json_document(text: Seq<char>) -> Option<
    Map<Seq<char>, (Option<Seq<char>>, Option<int>)>,
>;

/// The text of the member `key`, where there is such a member and it holds
/// a string.
pub open spec fn member_text(
    members: Map<Seq<char>, (Option<Seq<char>>, Option<int>)>,
    key: Seq<char>,
) -> Option<Seq<char>> {
    if members.contains_key(key) {
        members[key].0
    } else {
        None
    }
}

/// The number of the member `key`, where there is such a member and it
/// holds an integer in the range of `i64`.
pub open spec fn member_integer(
    members: Map<Seq<char>, (Option<Seq<char>>, Option<int>)>,
    key: Seq<char>,
) -> Option<int> {
    if members.contains_key(key) {
        members[key].1
    } else {
        None
    }
}

/// Calls `serde_json::from_str` for a `serde_json::Value`. The contract
/// claims that whether the text is accepted, and the members of the document
/// that comes back, depend on the text alone.
#[verifier::external_body]
pub(crate) fn parse_document(text: &str) -> (document: Option<serde_json::Value>)
    ensures
        match document {
            Some(value) => json_document(text@) == Some(json_members(value)),
            None => json_document(text@) is None,
        },
{
    serde_json::from_str::<serde_json::Value>(text).ok()
}

/// Indexes a `serde_json::Value` by a key and calls `Value::as_str` on what
/// is there. The contract claims that the result is the text of that member
/// where the document is an object, has the member and the member is a
/// string, and `None` otherwise.
#[verifier::external_body]
pub(crate) fn read_text(document: &serde_json::Value, key: &str) -> (text: Option<String>)
    ensures
        match text {
            Some(found) => member_text(json_members(*document), key@) == Some(found@),
            None => member_text(json_members(*document), key@) is None,
        },
{
    document[key].as_str().map(|found| found.to_owned())
}

/// Indexes a `serde_json::Value` by a key and calls `Value::as_i64` on what
/// is there. The contract claims that the result is the number of that
/// member where the document is an object, has the member and the member is
/// an integer that fits `i64`, and `None` otherwise.
#[verifier::external_body]
pub(crate) fn read_integer(document: &serde_json::Value, key: &str) -> (number: Option<i64>)
    ensures
        match number {
            Some(found) => member_integer(json_members(*document), key@) == Some(found as int),
            None => member_integer(json_members(*document), key@) is None,
        },
{
    document[key].as_i64()
}

} // verus!
