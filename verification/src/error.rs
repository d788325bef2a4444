//! The spider's error type.

use vstd::prelude::*;
use crate::text::concat;

verus! {

/// Errors of the crawling and decoding steps.
#[derive(Debug, Clone)]
pub enum SpiderError {
    /// A request to the server failed.
    RequestError(String),
    /// HTML could not be parsed.
    HtmlParseError(String),
    /// Content could not be decoded or decrypted.
    DecodingError(String),
    /// No chapters were found.
    NotFoundChapters(String),
    /// The Cloudflare challenge could not be passed.
    CloudflareBypassError(String),
    /// A file operation failed.
    FileError(String),
    /// Concurrent work failed.
    ConcurrencyError(String),
    /// Anything else.
    Other(String),
}

/// The displayed text of an error: a prefix naming its kind, then the detail.
pub open spec fn spider_error_message_spec(e: SpiderError) -> Seq<char> {
    match e {
        SpiderError::RequestError(m) => "Request error: "@ + m@,
        SpiderError::HtmlParseError(m) => "HTML parse error: "@ + m@,
        SpiderError::DecodingError(m) => "Decoding error: "@ + m@,
        SpiderError::NotFoundChapters(m) => "Chapters not found: "@ + m@,
        SpiderError::CloudflareBypassError(m) => "Cloudflare bypass error: "@ + m@,
        SpiderError::FileError(m) => "File error: "@ + m@,
        SpiderError::ConcurrencyError(m) => "Concurrency error: "@ + m@,
        SpiderError::Other(m) => "Other error: "@ + m@,
    }
}

impl SpiderError {
    /// The error as text, e.g. `Decoding error: invalid AES padding`.
    pub fn message(&self) -> (res: String)
        ensures
            res@ == spider_error_message_spec(*self),
    {
        match self {
            SpiderError::RequestError(m) => concat("Request error: ", m.as_str()),
            SpiderError::HtmlParseError(m) => concat("HTML parse error: ", m.as_str()),
            SpiderError::DecodingError(m) => concat("Decoding error: ", m.as_str()),
            SpiderError::NotFoundChapters(m) => concat("Chapters not found: ", m.as_str()),
            SpiderError::CloudflareBypassError(m) => concat("Cloudflare bypass error: ", m.as_str()),
            SpiderError::FileError(m) => concat("File error: ", m.as_str()),
            SpiderError::ConcurrencyError(m) => concat("Concurrency error: ", m.as_str()),
            SpiderError::Other(m) => concat("Other error: ", m.as_str()),
        }
    }
}

} // verus!
