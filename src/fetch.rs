use vstd::prelude::*;
use crate::json::{append_decimal, decimal};

verus! {

/// Why a location could not be read.
pub enum FetchError {
    /// The server answered with a status outside `200..300`.
    HttpStatus(u16),
    /// The path names no regular file.
    NotFound(String),
    /// The request failed before a status came back.
    NetworkFailure(String),
    /// The file exists but could not be read.
    ReadFailure(String),
}

/// Why a scan failed.
pub enum ScanError {
    Fetch(FetchError),
    /// The exposition text could not be decoded.
    Decode(String),
    /// A projected text holds a character that the host's text cannot hold.
    Encoding,
}

/// The text of a scan error.
pub open spec fn error_text(e: ScanError) -> Seq<char> {
    match e {
        ScanError::Fetch(FetchError::HttpStatus(c)) => "Failed to fetch metrics text with status: "@
            + decimal(c as nat),
        ScanError::Fetch(FetchError::NotFound(p)) => "Metrics file not found: "@ + p@,
        ScanError::Fetch(FetchError::NetworkFailure(m)) => "Failed to fetch metrics text: "@ + m@,
        ScanError::Fetch(FetchError::ReadFailure(m)) => "Failed to read metrics file: "@ + m@,
        ScanError::Decode(m) => "Failed to parse metrics text: "@ + m@,
        ScanError::Encoding => "Failed to encode metrics: a text holds a NUL character"@,
    }
}

impl ScanError {
    /// A message describing the error.
    pub fn message(&self) -> (r: String)
        ensures
            r@ == error_text(*self),
    {
        match self {
            ScanError::Fetch(FetchError::HttpStatus(c)) => {
                let mut out = String::from_str("Failed to fetch metrics text with status: ");
                append_decimal(&mut out, *c as u64);
                out
            },
            ScanError::Fetch(FetchError::NotFound(p)) => {
                let mut out = String::from_str("Metrics file not found: ");
                out.append(p.as_str());
                out
            },
            ScanError::Fetch(FetchError::NetworkFailure(m)) => {
                let mut out = String::from_str("Failed to fetch metrics text: ");
                out.append(m.as_str());
                out
            },
            ScanError::Fetch(FetchError::ReadFailure(m)) => {
                let mut out = String::from_str("Failed to read metrics file: ");
                out.append(m.as_str());
                out
            },
            ScanError::Encoding => String::from_str(
                "Failed to encode metrics: a text holds a NUL character",
            ),
            ScanError::Decode(m) => {
                let mut out = String::from_str("Failed to parse metrics text: ");
                out.append(m.as_str());
                out
            },
        }
    }
}

/// Whether an HTTP status reports success.
pub open spec fn is_success(status: u16) -> bool {
    200 <= status < 300
}

/// The result of an HTTP fetch that returned `status`, with `body` the result
/// of reading the response body.
pub fn http_outcome(status: u16, body: Result<String, FetchError>) -> (r: Result<String, FetchError>)
    ensures
        is_success(status) ==> r == body,
        !is_success(status) ==> r == Err::<String, FetchError>(FetchError::HttpStatus(status)),
{
    if 200 <= status && status < 300 {
        body
    } else {
        Err(FetchError::HttpStatus(status))
    }
}

/// The result of reading `location` as a file; `content` is `None` when no
/// regular file stands there.
pub fn file_outcome(location: &str, content: Option<String>) -> (r: Result<String, FetchError>)
    ensures
        content is Some ==> r == Ok::<String, FetchError>(content->0),
        content is None ==> (match r {
            Err(FetchError::NotFound(p)) => p@ == location@,
            _ => false,
        }),
{
    match content {
        Some(c) => Ok(c),
        None => Err(FetchError::NotFound(String::from_str(location))),
    }
}

} // verus!
