//! Trusted boundary to the `json` crate: validating chat documents and
//! extracting the fields the chat matcher reads.
//!
//! Each extraction is a pure function of the raw bytes (and an index),
//! so its result carries an uninterpreted name; the decisions taken on
//! the extracted values are verified in `events`.

use vstd::prelude::*;

verus! {

/// Whether a byte sequence is a UTF-8 JSON document that the parser
/// accepts.  Which documents those are is the `json` crate's affair;
/// the name only fixes that it depends on the bytes alone.
pub uninterp spec fn json_parseable(b: Seq<u8>) -> bool;

/// The sender text of a chat body: the string at `with[0].text`, when
/// the document parses and that node is a string.
pub uninterp spec fn chat_sender_of(b: Seq<u8>) -> Option<Seq<u8>>;

/// How many elements the rich-text array `with[1].extra` holds (zero
/// when absent, not an array, or the document does not parse).
pub uninterp spec fn chat_extra_count_of(b: Seq<u8>) -> int;

/// The string at `with[1].extra[i].text`, when present.
pub uninterp spec fn chat_extra_text_of(b: Seq<u8>, i: int) -> Option<Seq<u8>>;

/// The plain-string form of `with[1]`, when the body is a bare string.
pub uninterp spec fn chat_fallback_of(b: Seq<u8>) -> Option<Seq<u8>>;

/// Relies on json::parse, with std::str::from_utf8 converting the
/// argument: whether the bytes parse depends on the bytes alone.
#[verifier::external_body]
pub fn json_ok(b: &Vec<u8>) -> (r: bool)
    ensures
        r == json_parseable(b@),
{
    match std::str::from_utf8(b.as_slice()) {
        Ok(s) => json::parse(s).is_ok(),
        Err(_) => false,
    }
}

/// Relies on json::parse, json's `Index` (null on a miss) and
/// JsonValue::as_str: the sender text depends on the bytes alone.
#[verifier::external_body]
pub fn chat_sender(raw: &Vec<u8>) -> (r: Option<Vec<u8>>)
    ensures
        match chat_sender_of(raw@) {
            Some(s) => r matches Some(v) && v@ == s,
            None => r is None,
        },
{
    let text = std::str::from_utf8(raw.as_slice()).ok()?;
    let parsed = json::parse(text).ok()?;
    parsed["with"][0]["text"].as_str().map(|s| s.as_bytes().to_vec())
}

/// Relies on json::parse, json's `Index` and JsonValue::len (array
/// length, zero for other nodes): the count depends on the bytes
/// alone.
#[verifier::external_body]
pub fn chat_extra_count(raw: &Vec<u8>) -> (r: usize)
    ensures
        r as int == chat_extra_count_of(raw@),
{
    match std::str::from_utf8(raw.as_slice()) {
        Ok(text) => match json::parse(text) {
            Ok(parsed) => parsed["with"][1]["extra"].len(),
            Err(_) => 0,
        },
        Err(_) => 0,
    }
}

/// Relies on json::parse, json's `Index` and JsonValue::as_str: the
/// element text depends on the bytes and the index alone.
#[verifier::external_body]
pub fn chat_extra_text(raw: &Vec<u8>, i: usize) -> (r: Option<Vec<u8>>)
    ensures
        match chat_extra_text_of(raw@, i as int) {
            Some(s) => r matches Some(v) && v@ == s,
            None => r is None,
        },
{
    let text = std::str::from_utf8(raw.as_slice()).ok()?;
    let parsed = json::parse(text).ok()?;
    parsed["with"][1]["extra"][i]["text"].as_str().map(|s| s.as_bytes().to_vec())
}

/// Relies on json::parse, json's `Index` and JsonValue::as_str: the
/// fallback text depends on the bytes alone.
#[verifier::external_body]
pub fn chat_fallback(raw: &Vec<u8>) -> (r: Option<Vec<u8>>)
    ensures
        match chat_fallback_of(raw@) {
            Some(s) => r matches Some(v) && v@ == s,
            None => r is None,
        },
{
    let text = std::str::from_utf8(raw.as_slice()).ok()?;
    let parsed = json::parse(text).ok()?;
    parsed["with"][1].as_str().map(|s| s.as_bytes().to_vec())
}

} // verus!
