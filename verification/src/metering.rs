//! Token counts in the answers of an OpenAI-compatible provider.
use vstd::prelude::*;

verus! {

/// A parsed JSON value.
#[verifier::external_type_specification]
#[verifier::external_body]
pub struct ExJsonValue(serde_json::Value);

/// What is read of a JSON value: the members of an object, a number that is a whole
/// number of 64 bits and not negative, and nothing of the rest.
pub enum JsonModel {
    /// An object, by its keys.
    Object(Map<Seq<char>, JsonModel>),
    /// A number.
    Unsigned(u64),
    /// Anything else.
    Other,
}

/// What a parsed value holds.
pub uninterp spec fn json_contents(value: serde_json::Value) -> JsonModel;

/// What the bytes hold as a JSON document, if they are one.
pub uninterp spec fn json_document(bytes: Seq<u8>) -> Option<JsonModel>;

/// `serde_json::from_slice` into a `serde_json::Value`. Claimed: whether it succeeds,
/// and what the value holds, depends on the bytes alone.
#[verifier::external_body]
fn parse_json(body: &[u8]) -> (r: Option<serde_json::Value>)
    ensures
        match r {
            Some(value) => json_document(body@) == Some(json_contents(value)),
            None => json_document(body@) is None,
        },
{
    serde_json::from_slice(body).ok()
}

/// `serde_json::Value::get` with a text key. Claimed: it gives the member of that
/// name of an object, and nothing where there is none or the value is no object.
#[verifier::external_body]
fn json_get<'a>(value: &'a serde_json::Value, key: &str) -> (r: Option<&'a serde_json::Value>)
    ensures
        match r {
            Some(found) => member(json_contents(*value), key@) == Some(json_contents(*found)),
            None => member(json_contents(*value), key@) is None,
        },
{
    value.get(key)
}

/// `serde_json::Value::as_u64`. Claimed: it gives a number that is whole, not
/// negative and of at most 64 bits, and nothing else.
#[verifier::external_body]
fn json_as_u64(value: &serde_json::Value) -> (r: Option<u64>)
    ensures
        r == as_count(json_contents(*value)),
{
    value.as_u64()
}

/// The member of that name, if the value is an object and has one.
pub open spec fn member(value: JsonModel, key: Seq<char>) -> Option<JsonModel> {
    match value {
        JsonModel::Object(members) => if members.contains_key(key) {
            Some(members[key])
        } else {
            None
        },
        _ => None,
    }
}

/// The count that a value is, if it is one.
pub open spec fn as_count(value: JsonModel) -> Option<u64> {
    match value {
        JsonModel::Unsigned(n) => Some(n),
        _ => None,
    }
}

/// The count in a member, if there is one.
pub open spec fn count_in(value: JsonModel, key: Seq<char>) -> Option<u64> {
    match member(value, key) {
        Some(found) => as_count(found),
        None => None,
    }
}

/// The tokens sent and received that a document reports: both counts of its `usage`
/// member, or nothing where either is missing or no count.
pub open spec fn usage_counts(document: JsonModel) -> Option<(u64, u64)> {
    match member(document, "usage"@) {
        None => None,
        Some(usage) => match (
            count_in(usage, "prompt_tokens"@),
            count_in(usage, "completion_tokens"@),
        ) {
            (Some(input), Some(output)) => Some((input, output)),
            _ => None,
        },
    }
}

fn usage_field(usage: &serde_json::Value, key: &str) -> (r: Option<u64>)
    ensures
        r == count_in(json_contents(*usage), key@),
{
    match json_get(usage, key) {
        Some(field) => json_as_u64(field),
        None => None,
    }
}

/// The tokens sent and received that a parsed document reports.
pub fn usage_of_document(document: &serde_json::Value) -> (r: Option<(u64, u64)>)
    ensures
        r == usage_counts(json_contents(*document)),
{
    match json_get(document, "usage") {
        None => None,
        Some(usage) => {
            let input: u64 = match usage_field(usage, "prompt_tokens") {
                Some(n) => n,
                None => {
                    return None;
                },
            };
            let output: u64 = match usage_field(usage, "completion_tokens") {
                Some(n) => n,
                None => {
                    return None;
                },
            };
            Some((input, output))
        },
    }
}

/// The tokens sent and received that the body of an answer reports; nothing where it
/// is no JSON document, has no `usage`, or lacks a count.
pub fn parse_openai_usage(body: &[u8]) -> (r: Option<(u64, u64)>)
    ensures
        r == match json_document(body@) {
            Some(document) => usage_counts(document),
            None => None,
        },
{
    match parse_json(body) {
        Some(document) => usage_of_document(&document),
        None => None,
    }
}

/// A document reports tokens exactly where its `usage` member is an object with both counts: those
/// of the prompt were sent, and those of the completion received.
pub proof fn law_usage_needs_both_counts(document: JsonModel, sent: u64, received: u64)
    ensures
        usage_counts(document) == Some((sent, received)) <==> (document matches JsonModel::Object(
            members,
        ) && members.contains_key("usage"@) && (members["usage"@] matches JsonModel::Object(counts)
            && counts.contains_key("prompt_tokens"@) && counts["prompt_tokens"@]
            == JsonModel::Unsigned(sent) && counts.contains_key("completion_tokens"@)
            && counts["completion_tokens"@] == JsonModel::Unsigned(received))),
{
}

} // verus!
