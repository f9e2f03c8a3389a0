//! From the answer of the server to the text of a document.

use crate::decimal::{decimal_nat, unsigned_string};
use crate::error::LoadError;
use std::io::Read;
use vstd::prelude::*;

verus! {

/// What the server answered to the request for a document.
#[derive(Debug, PartialEq, Eq)]
pub struct Response {
    /// The HTTP status.
    pub status: u16,
    /// The body as it was sent, the compressed document; `None` where the
    /// body could not be read.
    pub body: Option<Vec<u8>>,
}

impl Response {
    /// The bytes of the body, where it was read.
    pub open spec fn spec_body(self) -> Option<Seq<u8>> {
        match self.body {
            Some(bytes) => Some(bytes@),
            None => None,
        }
    }

    /// The bytes of the body, where it was read.
    pub fn body(&self) -> (r: Option<&[u8]>)
        ensures
            r is Some == self.spec_body() is Some,
            r is Some ==> r.unwrap()@ == self.spec_body().unwrap(),
    {
        match &self.body {
            Some(bytes) => Some(bytes.as_slice()),
            None => None,
        }
    }
}

/// How a status is written: the number and its reason phrase, as in
/// `404 Not Found`; `None` for a number that is no HTTP status.
pub uninterp spec fn status_line_of(status: u16) -> Option<Seq<char>>;

/// Writes a status with `reqwest::StatusCode::from_u16` and the `Display` of
/// the status code.
///
/// Trusted: the outcome depends on the number alone.
#[verifier::external_body]
fn status_line(status: u16) -> (r: Option<String>)
    ensures
        r is Some == status_line_of(status) is Some,
        r is Some ==> r.unwrap()@ == status_line_of(status).unwrap(),
{
    match reqwest::StatusCode::from_u16(status) {
        Ok(code) => Some(code.to_string()),
        Err(_) => None,
    }
}

/// How a status is named in a message: its status line, or for a number that
/// is no HTTP status the number in decimal.
pub open spec fn status_text_of(status: u16) -> Seq<char> {
    match status_line_of(status) {
        Some(line) => line,
        None => decimal_nat(status as nat),
    }
}

/// How a status is named in a message.
pub fn status_text(status: u16) -> (r: String)
    ensures
        r@ == status_text_of(status),
{
    match status_line(status) {
        Some(line) => line,
        None => unsigned_string(status as u64),
    }
}

/// The text that a gzip payload decompresses to, or `None` where the payload
/// is not gzip or what it holds is not UTF-8.
pub uninterp spec fn gunzip_of(payload: Seq<u8>) -> Option<Seq<char>>;

/// Decompresses with `flate2::read::GzDecoder`, read to its end as a string.
///
/// Trusted: the outcome depends on the payload alone.
#[verifier::external_body]
fn gunzip(payload: &[u8]) -> (r: Option<String>)
    ensures
        r is Some == gunzip_of(payload@) is Some,
        r is Some ==> r.unwrap()@ == gunzip_of(payload@).unwrap(),
{
    let mut text = String::new();
    match flate2::read::GzDecoder::new(payload).read_to_string(&mut text) {
        Ok(_) => Some(text),
        Err(_) => None,
    }
}

/// Whether an HTTP status reports success: 200 to 299.
pub open spec fn is_success(status: u16) -> bool {
    200 <= status < 300
}

/// The text of a document, from the status and the body of the server's
/// answer, or the reason there is none. The status is looked at first: an
/// answer without success is refused for its status, whatever became of its
/// body. A body that could not be read counts as one that does not
/// decompress.
pub open spec fn response_text_of(status: u16, body: Option<Seq<u8>>) -> Result<
    Seq<char>,
    LoadError,
> {
    if !is_success(status) {
        Err(LoadError::Status(status))
    } else {
        match body {
            Some(payload) => match gunzip_of(payload) {
                Some(text) => Ok(text),
                None => Err(LoadError::Encoding),
            },
            None => Err(LoadError::Encoding),
        }
    }
}

/// Whether an HTTP status reports success.
pub fn status_is_success(status: u16) -> (r: bool)
    ensures
        r == is_success(status),
{
    200 <= status && status < 300
}

/// The text of a compressed payload.
pub fn decompress(payload: &[u8]) -> (r: Result<String, LoadError>)
    ensures
        match gunzip_of(payload@) {
            Some(text) => r is Ok && r.unwrap()@ == text,
            None => r == Err::<String, LoadError>(LoadError::Encoding),
        },
{
    match gunzip(payload) {
        Some(text) => Ok(text),
        None => Err(LoadError::Encoding),
    }
}

/// The text of a document, from the status and the body of the server's
/// answer.
pub fn response_text(status: u16, body: Option<&[u8]>) -> (r: Result<String, LoadError>)
    ensures
        match response_text_of(
            status,
            match body {
                Some(payload) => Some(payload@),
                None => None,
            },
        ) {
            Ok(text) => r is Ok && r.unwrap()@ == text,
            Err(e) => r == Err::<String, LoadError>(e),
        },
{
    if !status_is_success(status) {
        Err(LoadError::Status(status))
    } else {
        match body {
            Some(payload) => decompress(payload),
            None => Err(LoadError::Encoding),
        }
    }
}

} // verus!
