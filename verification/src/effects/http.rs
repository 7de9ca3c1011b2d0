//! What the HTTP effects send and what they make of status codes.

use crate::text::{decimal, has_prefix};
use std::time::Duration;
use vstd::prelude::*;
use vstd::utf8::{decode_utf8, valid_utf8};

verus! {

/// A request to be posted.
#[derive(Debug)]
pub struct HttpRequest {
    /// Where to.
    pub url: String,
    /// Header names and values.
    pub headers: Vec<(String, String)>,
    /// The text that is posted.
    pub body: String,
    /// How long to wait for the response.
    pub timeout: Duration,
}

/// The request was understood and accepted.
pub open spec fn is_success_code(status: u16) -> bool {
    200 <= status < 300
}

/// The request was at fault.
pub open spec fn is_client_error_code(status: u16) -> bool {
    400 <= status < 500
}

/// The server failed.
pub open spec fn is_server_error_code(status: u16) -> bool {
    500 <= status < 600
}

/// Whether a request was accepted.
pub fn is_success(status: u16) -> (r: bool)
    ensures
        r == is_success_code(status),
{
    200 <= status && status < 300
}

/// Whether a request was at fault.
pub fn is_client_error(status: u16) -> (r: bool)
    ensures
        r == is_client_error_code(status),
{
    400 <= status && status < 500
}

/// Whether the server failed.
pub fn is_server_error(status: u16) -> (r: bool)
    ensures
        r == is_server_error_code(status),
{
    500 <= status && status < 600
}

/// How `StatusCode` is displayed: the code and the phrase that goes with it.
pub uninterp spec fn status_line(status: u16) -> Seq<char>;

/// The `Display` of the `reqwest::StatusCode` of a number, such as `404 Not
/// Found`. It starts with the digits of the code and a space. A number that is
/// no status code (below 100 or above 999) gives no text.
#[verifier::external_body]
pub(crate) fn status_text(status: u16) -> (r: String)
    ensures
        r@ == status_line(status),
        100 <= status <= 999 ==> has_prefix(r@, decimal(status as nat) + " "@),
{
    reqwest::StatusCode::from_u16(status).map(|code| code.to_string()).unwrap_or_default()
}

/// `String::from_utf8`: the text that the bytes encode; nothing where they are no
/// UTF-8.
#[verifier::external_body]
fn text_from_utf8(bytes: Vec<u8>) -> (r: Option<String>)
    ensures
        match r {
            Some(text) => valid_utf8(bytes@) && text@ == decode_utf8(bytes@),
            None => !valid_utf8(bytes@),
        },
{
    String::from_utf8(bytes).ok()
}

/// The text of a body that is to be read as JSON. A body that is no UTF-8 holds none.
pub fn json_body(bytes: Vec<u8>) -> (r: String)
    ensures
        r@ == (if valid_utf8(bytes@) {
            decode_utf8(bytes@)
        } else {
            Seq::empty()
        }),
{
    match text_from_utf8(bytes) {
        Some(text) => text,
        None => String::new(),
    }
}

} // verus!
