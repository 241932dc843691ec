//! The Authorization Code flow: the authorization URL that the browser
//! opens, the local address that the redirect comes back to, and the code
//! that it carries. See
//! <https://developer.spotify.com/documentation/web-api/tutorials/code-flow>.
//! The PKCE and Client Credentials flows are not supported.
use vstd::prelude::*;

use crate::encoding::pairs_view;
use crate::http_listener::{split_uri, uri_components, ListenResult};
use crate::spotify::error::SpotifyError;
use crate::text::{joined, owned, same_text};

verus! {

/// What `url::Url::parse_with_params` gives for a base URL and query pairs:
/// `None` where the base does not parse, else the serialized URL with the
/// pairs appended as its form-encoded query.
pub uninterp spec fn url_with_query(
    base: Seq<char>,
    pairs: Seq<(Seq<char>, Seq<char>)>,
) -> Option<Seq<char>>;

/// `url::Url::parse_with_params` with the given pairs, serialized with
/// `Url::as_str`.
#[verifier::external_body]
fn url_with_params(base: &str, pairs: &Vec<(String, String)>) -> (r: Result<
    String,
    url::ParseError,
>)
    ensures
        r is Ok <==> url_with_query(base@, pairs_view(pairs@)) is Some,
        r matches Ok(u) ==> u@ == url_with_query(base@, pairs_view(pairs@))->0,
{
    match url::Url::parse_with_params(base, pairs.iter().map(|p| (p.0.as_str(), p.1.as_str()))) {
        Ok(u) => Ok(u.as_str().to_owned()),
        Err(e) => Err(e),
    }
}

/// The `Display` text of an invalid-URI error of `http`; nothing is stated
/// of its content.
#[verifier::external_body]
fn invalid_uri_text(e: &http::uri::InvalidUri) -> String {
    e.to_string()
}

/// The accounts service page where the user authorizes the application.
pub open spec fn authorize_base_text() -> Seq<char> {
    "https://accounts.spotify.com/authorize"@
}

/// The scopes the tool asks for: reading private and collaborative
/// playlists and the library, and modifying playback.
pub open spec fn scopes_text() -> Seq<char> {
    "playlist-read-private user-library-read playlist-read-collaborative user-modify-playback-state"@
}

/// The query pairs of the authorization URL.
pub open spec fn authorize_pairs(client_id: Seq<char>, redirect_uri: Seq<char>) -> Seq<
    (Seq<char>, Seq<char>),
> {
    seq![
        ("response_type"@, "code"@),
        ("client_id"@, client_id),
        ("scope"@, scopes_text()),
        ("redirect_uri"@, redirect_uri),
    ]
}

/// A pair of strings.
fn pair(a: &str, b: &str) -> (r: (String, String))
    ensures
        r.0@ == a@,
        r.1@ == b@,
{
    (a.to_owned(), b.to_owned())
}

/// The URL that the browser opens for the user to authorize the
/// application: the first step of the Authorization Code flow. After the
/// user agrees, Spotify redirects to `redirect_uri` with the code.
pub fn authorize_url(client_id: &str, redirect_uri: &str) -> (r: Result<String, SpotifyError>)
    ensures
        match url_with_query(authorize_base_text(), authorize_pairs(client_id@, redirect_uri@)) {
            Some(u) => r matches Ok(s) && s@ == u,
            None => r matches Err(SpotifyError::Parse(_)),
        },
{
    let mut pairs: Vec<(String, String)> = Vec::new();
    pairs.push(pair("response_type", "code"));
    pairs.push(pair("client_id", client_id));
    pairs.push(
        pair(
            "scope",
            "playlist-read-private user-library-read playlist-read-collaborative user-modify-playback-state",
        ),
    );
    pairs.push(pair("redirect_uri", redirect_uri));
    proof {
        assert(pairs_view(pairs@) =~= authorize_pairs(client_id@, redirect_uri@));
    }
    match url_with_params("https://accounts.spotify.com/authorize", &pairs) {
        Ok(u) => Ok(u),
        Err(e) => Err(SpotifyError::Parse(e)),
    }
}

/// Where the redirect of the authorization comes back to: the host of the
/// redirect URI as the text of an IP address (an IPv6 literal without its
/// brackets), its port and path.
#[derive(Debug)]
pub struct RedirectTarget {
    pub host: String,
    pub port: u16,
    pub path: String,
}

/// The prefix of the error message for a redirect URI that does not parse.
pub open spec fn redirect_parse_prefix() -> Seq<char> {
    "Failed to parse redirect URI: "@
}

/// The prefix of the error message for a redirect host that is not an IP
/// address.
pub open spec fn host_parse_prefix() -> Seq<char> {
    "Failed to parse host in redirect URI: "@
}

/// The message of the error for a redirect host that is an IP address but
/// not a loopback one.
pub open spec fn loopback_message() -> Seq<char> {
    "Redirect URI host must be a literal loopback IP (127.0.0.1 or ::1)"@
}

/// The host of a URI as the text of an IP address: an IPv6 literal
/// (`[::1]`) without its brackets, any other host as it is.
pub open spec fn address_text(host: Seq<char>) -> Seq<char> {
    if host.len() >= 2 && host[0] == '[' && host[host.len() - 1] == ']' {
        host.subrange(1, host.len() - 1)
    } else {
        host
    }
}

/// Whether an IP address, written as std writes it, is one of the two
/// loopback addresses the redirect may name.
pub open spec fn is_loopback_text(ip: Seq<char>) -> bool {
    ip == "127.0.0.1"@ || ip == "::1"@
}

/// The host as the text of an IP address (see `address_text`).
fn host_address(host: &str) -> (r: String)
    ensures
        r@ == address_text(host@),
{
    let n = host.unicode_len();
    if n >= 2 && host.get_char(0) == '[' && host.get_char(n - 1) == ']' {
        owned(host.substring_char(1, n - 1))
    } else {
        owned(host)
    }
}

/// Reads the redirect URI: its host (as the text of an IP address, see
/// `address_text`), port and path. The URI must parse, and have a host and
/// a port. Whether the host is a loopback address is judged by
/// `loopback_ip`.
pub fn redirect_target(redirect_uri: &str) -> (r: Result<RedirectTarget, SpotifyError>)
    ensures
        match uri_components(redirect_uri@) {
            None => r matches Err(SpotifyError::Api(m)) && m@.len() >= redirect_parse_prefix().len()
                && m@.subrange(0, redirect_parse_prefix().len() as int) == redirect_parse_prefix(),
            Some(c) => if c.2 is None {
                r matches Err(SpotifyError::Api(m)) && m@ == "Redirect URI must have a host"@
            } else if c.3 is None {
                r matches Err(SpotifyError::Api(m)) && m@ == "Redirect URI must have a port"@
            } else {
                r matches Ok(t) && t.host@ == address_text(c.2->0) && t.port == c.3->0 && t.path@
                    == c.0
            },
        },
{
    match split_uri(redirect_uri) {
        Err(e) => {
            let detail = invalid_uri_text(&e);
            let m = joined("Failed to parse redirect URI: ", detail.as_str());
            proof {
                assert(m@.subrange(0, redirect_parse_prefix().len() as int)
                    =~= redirect_parse_prefix());
            }
            Err(SpotifyError::Api(m))
        },
        Ok(parts) => match parts.host {
            None => Err(SpotifyError::Api("Redirect URI must have a host".to_owned())),
            Some(host) => match parts.port {
                None => Err(SpotifyError::Api("Redirect URI must have a port".to_owned())),
                Some(port) => Ok(
                    RedirectTarget { host: host_address(host.as_str()), port, path: parts.path },
                ),
            },
        },
    }
}

/// Judges the redirect host from how it parses as an IP address: `parsed`
/// is the address as std's `IpAddr` writes it, or the text of the parse
/// error. A host that is no IP address (a hostname, such as `localhost`,
/// whose address is not fixed) fails with that text; an address other than
/// `127.0.0.1` and `::1` fails too; the loopback address is returned.
pub fn loopback_ip(parsed: Result<String, String>) -> (r: Result<String, SpotifyError>)
    ensures
        match parsed {
            Err(detail) => r matches Err(SpotifyError::Api(m)) && m@ == host_parse_prefix()
                + detail@,
            Ok(ip) => if is_loopback_text(ip@) {
                r matches Ok(x) && x@ == ip@
            } else {
                r matches Err(SpotifyError::Api(m)) && m@ == loopback_message()
            },
        },
{
    match parsed {
        Err(detail) => Err(
            SpotifyError::Api(joined("Failed to parse host in redirect URI: ", detail.as_str())),
        ),
        Ok(ip) => {
            if same_text(ip.as_str(), "127.0.0.1") || same_text(ip.as_str(), "::1") {
                Ok(ip)
            } else {
                Err(
                    SpotifyError::Api(
                        "Redirect URI host must be a literal loopback IP (127.0.0.1 or ::1)".to_owned(),
                    ),
                )
            }
        },
    }
}

/// The authorization code that the redirect carries in its `code` query
/// parameter: the second step of the Authorization Code flow.
pub fn authorization_code(redirect: &ListenResult) -> (r: Result<String, SpotifyError>)
    ensures
        redirect.query@.contains_key("code"@) ==> (r matches Ok(c) && c@
            == redirect.query@["code"@]),
        !redirect.query@.contains_key("code"@) ==> (r matches Err(SpotifyError::Api(m)) && m@
            == "Authorization code not found"@),
{
    match redirect.query.get("code") {
        None => Err(SpotifyError::Api("Authorization code not found".to_owned())),
        Some(code) => Ok(code.clone()),
    }
}

} // verus!
