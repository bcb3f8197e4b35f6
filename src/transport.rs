use vstd::prelude::*;
use vstd::utf8::{decode_utf8, valid_utf8};
use crate::error::ReporterError;
use crate::text::digit_char;

verus! {

#[verifier::external_type_specification]
#[verifier::external_body]
pub struct ExUri(hyper::Uri);

/// Whether the text parses as a URI.
pub uninterp spec fn uri_accepts(s: Seq<char>) -> bool;

/// A hexadecimal digit, lower case.
pub open spec fn hex_digit(d: nat) -> char {
    if d < 10 {
        digit_char(d)
    } else if d == 10 {
        'a'
    } else if d == 11 {
        'b'
    } else if d == 12 {
        'c'
    } else if d == 13 {
        'd'
    } else if d == 14 {
        'e'
    } else {
        'f'
    }
}

/// How one character stands inside a JSON string: the quote, the backslash
/// and the control characters are escaped, with the short forms where JSON
/// has one; every other character stands for itself.
pub open spec fn json_escape(c: char) -> Seq<char> {
    let n = c as u32;
    if c == '"' {
        seq!['\\', '"']
    } else if c == '\\' {
        seq!['\\', '\\']
    } else if n == 0x08 {
        seq!['\\', 'b']
    } else if n == 0x09 {
        seq!['\\', 't']
    } else if n == 0x0A {
        seq!['\\', 'n']
    } else if n == 0x0C {
        seq!['\\', 'f']
    } else if n == 0x0D {
        seq!['\\', 'r']
    } else if n < 0x20 {
        seq!['\\', 'u', '0', '0', hex_digit((n / 16) as nat), hex_digit((n % 16) as nat)]
    } else {
        seq![c]
    }
}

/// The characters of `s`, each escaped for a JSON string.
pub open spec fn json_escaped(s: Seq<char>) -> Seq<char>
    decreases s.len(),
{
    if s.len() == 0 {
        Seq::empty()
    } else {
        json_escaped(s.drop_last()) + json_escape(s.last())
    }
}

/// The JSON string literal that encodes `s`.
pub open spec fn json_string_of(s: Seq<char>) -> Seq<char> {
    seq!['"'] + json_escaped(s) + seq!['"']
}

/// Relies on `<hyper::Uri as FromStr>::from_str`: whether parsing succeeds
/// depends on the text alone.
#[verifier::external_body]
fn parse_uri(s: &str) -> (r: Option<hyper::Uri>)
    ensures
        r is Some <==> uri_accepts(s@),
{
    s.parse::<hyper::Uri>().ok()
}

/// Relies on `serde_json::to_string` on a `str`: the text between quotes,
/// escaped by serde_json's table; writing into its buffer cannot fail.
#[verifier::external_body]
fn json_string(s: &str) -> (r: Result<String, serde_json::Error>)
    ensures
        r is Ok,
        r matches Ok(t) ==> t@ == json_string_of(s@),
{
    serde_json::to_string(s)
}

/// Relies on `String::from_utf8`: succeeds exactly on valid UTF-8 and then holds the decoded text.
#[verifier::external_body]
fn string_from_utf8(b: Vec<u8>) -> (r: Option<String>)
    ensures
        r is Some <==> valid_utf8(b@),
        r matches Some(s) ==> s@ == decode_utf8(b@),
{
    String::from_utf8(b).ok()
}

/// Parses the destination of the reports.
pub fn parse_destination(webhook: &str) -> (r: Result<hyper::Uri, ReporterError>)
    ensures
        r is Ok <==> uri_accepts(webhook@),
        r matches Err(e) ==> e matches ReporterError::InvalidUrl(u) && u@ == webhook@,
{
    match parse_uri(webhook) {
        Some(u) => Ok(u),
        None => Err(ReporterError::InvalidUrl(String::from_str(webhook))),
    }
}

/// The JSON object with the single member `text`, given that member's encoded value.
pub open spec fn text_payload(encoded: Seq<char>) -> Seq<char> {
    "{\"text\":"@ + encoded + "}"@
}

/// Wraps an encoded JSON value as the member `text` of a JSON object.
pub fn frame_text_payload(encoded: &str) -> (r: String)
    ensures
        r@ == text_payload(encoded@),
{
    let mut s = String::from_str("{\"text\":");
    s.append(encoded);
    s.append("}");
    s
}

/// The JSON request body that carries one fragment: `{"text":"<fragment>"}`.
pub fn request_body(fragment: &str) -> (r: Result<String, ReporterError>)
    ensures
        r is Ok,
        r matches Ok(b) ==> b@ == text_payload(json_string_of(fragment@)),
{
    match json_string(fragment) {
        Ok(t) => Ok(frame_text_payload(t.as_str())),
        Err(e) => Err(ReporterError::SerializationError(e)),
    }
}

/// Whether a response status counts as delivered: 200 to 204 inclusive.
pub open spec fn success_status(code: u16) -> bool {
    200 <= code <= 204
}

/// Whether a response status counts as delivered.
pub fn is_success_status(code: u16) -> (r: bool)
    ensures
        r == success_status(code),
{
    200 <= code && code <= 204
}

/// `e` is the failure for a response with the failure status `code` and body
/// `body`: the decoded body when it is UTF-8, else the status alone.
pub open spec fn rejection(code: u16, body: Seq<u8>, e: ReporterError) -> bool {
    if valid_utf8(body) {
        e matches ReporterError::ServerError(c, m) && c == code && m@ == decode_utf8(body)
    } else {
        e == ReporterError::ServerResponseNotUtf8(code)
    }
}

/// Classifies the server's answer to one fragment. A failure status with a
/// UTF-8 body gives `ServerError` with the decoded body; one with any other
/// body gives `ServerResponseNotUtf8`, which carries the status alone.
pub fn classify_response(code: u16, body: Vec<u8>) -> (r: Result<(), ReporterError>)
    ensures
        r is Ok <==> success_status(code),
        r matches Err(e) ==> rejection(code, body@, e),
{
    if is_success_status(code) {
        return Ok(());
    }
    match string_from_utf8(body) {
        Some(text) => Err(ReporterError::ServerError(code, text)),
        None => Err(ReporterError::ServerResponseNotUtf8(code)),
    }
}

} // verus!
