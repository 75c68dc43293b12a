//! Whether serde_json reads a text as one JSON value.
use vstd::prelude::*;

verus! {

/// Whether `serde_json::from_slice::<serde::de::IgnoredAny>` reads `bytes` as
/// one complete JSON value (with nothing but whitespace after it).
pub uninterp spec fn serde_json_accepts(bytes: Seq<u8>) -> bool;

/// Whether `serde_json::from_str::<serde::de::IgnoredAny>` reads `text` as
/// one complete JSON value (with nothing but whitespace after it).
pub uninterp spec fn serde_json_accepts_text(text: Seq<char>) -> bool;

/// Calls `serde_json::from_slice`, skipping over the value with
/// `serde::de::IgnoredAny`, and reports whether it succeeded. Trusted: the
/// result is what serde_json's grammar says of `input`, which is left unstated
/// under the name `serde_json_accepts`; it depends on the bytes alone.
#[verifier::external_body]
pub(crate) fn is_valid_json(input: &[u8]) -> (r: bool)
    ensures
        r == serde_json_accepts(input@),
{
    serde_json::from_slice::<serde::de::IgnoredAny>(input).is_ok()
}

/// Calls `serde_json::from_str`, skipping over the value with
/// `serde::de::IgnoredAny`, and reports whether it succeeded. Trusted: the
/// result is what serde_json's grammar says of `input`, left unstated under
/// the name `serde_json_accepts_text`; it depends on the text alone.
#[verifier::external_body]
pub(crate) fn is_valid_json_text(input: &str) -> (r: bool)
    ensures
        r == serde_json_accepts_text(input@),
{
    serde_json::from_str::<serde::de::IgnoredAny>(input).is_ok()
}

} // verus!
