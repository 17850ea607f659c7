//! The JSON parser that the library relies on.
//!
//! Manifests are JSON documents, and `serde_json` reads them, as plain JSON
//! and as the pods of `k8s_openapi`. Nothing in this file is proved: each
//! function states what the parser is taken to do, and the rest of the
//! library is proved from those statements.

use vstd::prelude::*;

verus! {

#[verifier::external_type_specification]
#[verifier::external_body]
pub struct ExValue(serde_json::Value);

#[verifier::external_type_specification]
#[verifier::external_body]
pub struct ExJsonError(serde_json::Error);

#[verifier::external_type_specification]
#[verifier::external_body]
pub struct ExPod(k8s_openapi::api::core::v1::Pod);

/// The strings that a document holds: each JSON pointer that leads to a
/// string value, with that string.
pub uninterp spec fn json_strings(doc: serde_json::Value) -> Map<Seq<char>, Seq<char>>;

/// What reading `text` as JSON gives: the strings of the document it
/// denotes, or `None` where `text` is not one JSON value.
pub uninterp spec fn json_text_strings(text: Seq<char>) -> Option<Map<Seq<char>, Seq<char>>>;

/// Calls `serde_json::from_str` for a `serde_json::Value`.
///
/// The contract says only that the outcome is determined by the text: the
/// parser accepts `text` exactly when `json_text_strings` is defined there,
/// and the document it returns holds exactly those strings.
#[verifier::external_body]
pub(crate) fn parse_document(text: &str) -> (parsed: Result<serde_json::Value, serde_json::Error>)
    ensures
        match parsed {
            Ok(doc) => json_text_strings(text@) == Some(json_strings(doc)),
            Err(_) => json_text_strings(text@) is None,
        },
{
    serde_json::from_str::<serde_json::Value>(text)
}

/// Calls `serde_json::Value::pointer` and hands out the value found there if
/// it is a string.
///
/// The contract says that the result is the entry of `json_strings` for
/// `pointer`: `None` where the pointer leads nowhere or to a value that is
/// not a string.
#[verifier::external_body]
pub(crate) fn string_at(doc: &serde_json::Value, pointer: &str) -> (found: Option<String>)
    ensures
        match found {
            Some(text) => json_strings(*doc).contains_key(pointer@) && json_strings(
                *doc,
            )[pointer@] == text@,
            None => !json_strings(*doc).contains_key(pointer@),
        },
{
    match doc.pointer(pointer) {
        Some(serde_json::Value::String(text)) => Some(text.clone()),
        _ => None,
    }
}

/// Whether `text` reads as the manifest of a pod.
pub uninterp spec fn is_pod_text(text: Seq<char>) -> bool;

/// Calls `serde_json::from_str` for a `k8s_openapi::api::core::v1::Pod`.
///
/// The contract says only that the text decides whether a pod comes out:
/// the parser accepts `text` exactly when `is_pod_text` holds of it. Nothing
/// is said of the pod itself.
#[verifier::external_body]
pub(crate) fn parse_pod(text: &str) -> (parsed: Result<
    k8s_openapi::api::core::v1::Pod,
    serde_json::Error,
>)
    ensures
        parsed is Ok <==> is_pod_text(text@),
{
    serde_json::from_str::<k8s_openapi::api::core::v1::Pod>(text)
}

} // verus!
