//! Extraction of the reply text from the response envelope.
//!
//! On success the endpoint returns a JSON body whose reply text sits at
//! `candidates[0].content.parts[0].text`.  The text is taken in its raw
//! JSON-escaped rendering (quotes stripped); settling its escapes is the
//! normalizer's task, and what is done with the extracted text is stated
//! and proved where it is taken as an argument:
//! [`crate::exchange::complete_exchange`].

use vstd::prelude::*;

verus! {

use crate::normalize::{spec_strip_quotes, strip_quotes};
use crate::session::opt_doc_view;

/// What the envelope walk returns for a raw response body: the compact JSON
/// rendering of the value at `candidates[0].content.parts[0].text`, or
/// nothing when the body is malformed or the path is missing.  The walk is
/// a function of the body bytes alone, so its result carries this name.
pub uninterp spec fn reply_of(raw: Seq<u8>) -> Option<Seq<u8>>;

/// Relies on `serde_json::from_slice` (malformed input gives an error,
/// never a panic), `serde_json::Value::get` with a string key and with a
/// numeric index (`None` on a missing member, a type mismatch or an index
/// out of range), and serde_json's `Display` for `Value` (the compact JSON
/// rendering; a string value comes back quoted, its escapes still in
/// place).  All of them are deterministic functions of the body bytes, so
/// the walk as a whole is named [`reply_of`]; the intermediate values are
/// opaque JSON nodes that never leave this body.
#[verifier::external_body]
fn extract_raw_text(raw_body: &Vec<u8>) -> (r: Option<Vec<u8>>)
    ensures
        opt_doc_view(r) == reply_of(raw_body@),
{
    let parsed: serde_json::Value = serde_json::from_slice(raw_body.as_slice()).ok()?;
    let text = parsed.get("candidates")?.get(0)?.get("content")?.get("parts")?.get(0)?.get(
        "text",
    )?;
    Some(text.to_string().into_bytes())
}

/// The extracted reply text of a raw response body: the named envelope walk
/// with the surrounding quotes of the JSON rendering stripped.
pub open spec fn spec_extract_reply(raw: Seq<u8>) -> Option<Seq<u8>> {
    match reply_of(raw) {
        Some(t) => Some(spec_strip_quotes(t)),
        None => None,
    }
}

/// Extracts the first candidate's first text part from a raw response
/// body, in its raw escaped rendering with the surrounding quotes
/// stripped; `None` exactly when the body is malformed or the path is
/// missing.
pub fn extract_reply(raw_body: &Vec<u8>) -> (r: Option<Vec<u8>>)
    ensures
        opt_doc_view(r) == spec_extract_reply(raw_body@),
{
    match extract_raw_text(raw_body) {
        Some(t) => Some(strip_quotes(&t)),
        None => None,
    }
}

} // verus!
