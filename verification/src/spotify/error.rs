//! Errors of the Spotify integration.
use vstd::prelude::*;

use crate::text::joined;

verus! {

/// The error that `serde_json` reports for a reply that does not parse.
#[verifier::external_type_specification]
#[verifier::external_body]
pub struct ExJsonError(serde_json::Error);

/// The error of std's I/O operations.
#[verifier::external_type_specification]
#[verifier::external_body]
pub struct ExIoError(std::io::Error);

/// The error that `url` reports for a text that is not a URL.
#[verifier::external_type_specification]
#[verifier::external_body]
pub struct ExUrlParseError(url::ParseError);

/// Errors of the Spotify integration.
#[derive(Debug)]
pub enum SpotifyError {
    /// An HTTP request failed or was answered with a failure status.
    Http(String),
    /// A reply could not be read as JSON.
    Json(serde_json::Error),
    /// The API or the authorization flow could not give what was asked.
    Api(String),
    /// Local I/O failed (such as the redirect listener).
    Io(std::io::Error),
    /// A URL could not be built.
    Parse(url::ParseError),
}

/// The `Display` text of a `serde_json` error; nothing is stated of its
/// content.
#[verifier::external_body]
fn json_error_text(e: &serde_json::Error) -> String {
    e.to_string()
}

/// The `Display` text of a std I/O error; nothing is stated of its content.
#[verifier::external_body]
fn io_error_text(e: &std::io::Error) -> String {
    e.to_string()
}

/// The `Display` text of a `url` parse error; nothing is stated of its
/// content.
#[verifier::external_body]
fn url_error_text(e: &url::ParseError) -> String {
    e.to_string()
}

/// The label that the message of each kind of error starts with.
pub open spec fn error_label(e: SpotifyError) -> Seq<char> {
    match e {
        SpotifyError::Http(_) => "HTTP error: "@,
        SpotifyError::Json(_) => "JSON error: "@,
        SpotifyError::Api(_) => "API error: "@,
        SpotifyError::Io(_) => "Io error: "@,
        SpotifyError::Parse(_) => "Parse error: "@,
    }
}

impl SpotifyError {
    /// The message of the error: its kind's label, then the detail (the text
    /// that an HTTP or API error carries, or the text of the underlying
    /// error).
    pub fn message(&self) -> (r: String)
        ensures
            r@.len() >= error_label(*self).len(),
            r@.subrange(0, error_label(*self).len() as int) == error_label(*self),
            self matches SpotifyError::Http(m) ==> r@ == error_label(*self) + m@,
            self matches SpotifyError::Api(m) ==> r@ == error_label(*self) + m@,
    {
        let r = match self {
            SpotifyError::Http(m) => joined("HTTP error: ", m.as_str()),
            SpotifyError::Json(e) => joined("JSON error: ", json_error_text(e).as_str()),
            SpotifyError::Api(m) => joined("API error: ", m.as_str()),
            SpotifyError::Io(e) => joined("Io error: ", io_error_text(e).as_str()),
            SpotifyError::Parse(e) => joined("Parse error: ", url_error_text(e).as_str()),
        };
        proof {
            assert(r@.subrange(0, error_label(*self).len() as int) =~= error_label(*self));
        }
        r
    }
}

} // verus!
