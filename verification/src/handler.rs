//! Answers that are not JSON documents of the API's own types.
use vstd::prelude::*;
use crate::json::{JsonValue, json_object1, json_string, spec_get};

verus! {

/// An HTML page, sent with status 200 as `text/html; charset=utf-8`.
#[derive(Debug)]
pub struct HtmlResponse(pub String);

/// The body of an error answer: an object whose `error` member is the message.
pub fn error_body(message: &str) -> (v: JsonValue)
    ensures
        spec_get(v, "error"@) matches Some(JsonValue::String(m)) && m@ == message@,
        v matches JsonValue::Object(es) && es@.len() == 1,
{
    json_object1("error", json_string(message))
}

} // verus!
