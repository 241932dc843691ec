//! The HTTP requests that the client sends to the Spotify accounts service
//! and Web API, the paging through listings, and the reading of replies.
use vstd::prelude::*;
use vstd::utf8::encode_utf8;

use crate::encoding::{
    base64_bytes, base64_encode, form_body, form_encode, url_encode, url_encoded,
};
use crate::spotify::api::{PaginatedResponse, Playlist};
use crate::spotify::client::AuthParams;
use crate::spotify::error::SpotifyError;
use crate::text::{decimal, joined, replace_all, replaced, same_text, u16_to_decimal, usize_to_decimal};

verus! {

/// The HTTP method of a request.
#[derive(Debug, Clone, Copy, PartialEq, Eq, Structural)]
pub enum HttpMethod {
    Get,
    Post,
}

impl HttpMethod {
    /// The method's name, as HTTP writes it.
    pub fn as_str(&self) -> (r: &'static str)
        ensures
            *self == HttpMethod::Get ==> r@ == "GET"@,
            *self == HttpMethod::Post ==> r@ == "POST"@,
    {
        match self {
            HttpMethod::Get => "GET",
            HttpMethod::Post => "POST",
        }
    }
}

/// An HTTP request to send: method, URL, headers and, for a POST, a body.
#[derive(Debug)]
pub struct HttpRequest {
    pub method: HttpMethod,
    pub url: String,
    pub headers: Vec<(String, String)>,
    pub body: Option<String>,
}

/// The accounts service endpoint that issues tokens.
pub open spec fn token_url_text() -> Seq<char> {
    "https://accounts.spotify.com/api/token"@
}

/// The Web API endpoint of the user's saved tracks, with `{limit}` and
/// `{offset}` placeholders.
pub open spec fn saved_tracks_template_text() -> Seq<char> {
    "https://api.spotify.com/v1/me/tracks?limit={limit}&offset={offset}"@
}

/// The Web API endpoint of the user's playlists, with placeholders.
pub open spec fn playlists_template_text() -> Seq<char> {
    "https://api.spotify.com/v1/me/playlists?limit={limit}&offset={offset}"@
}

/// The Web API endpoint of a playlist's items, with placeholders.
pub open spec fn playlist_items_template_text(playlist_id: Seq<char>) -> Seq<char> {
    "https://api.spotify.com/v1/playlists/"@ + playlist_id + "/items?limit={limit}&offset={offset}"@
}

/// The name of the special playlist that stands for the saved tracks.
pub open spec fn all_songs_name() -> Seq<char> {
    "All Songs"@
}

/// The template of the user's playlists listing.
pub fn playlists_template() -> (r: String)
    ensures
        r@ == playlists_template_text(),
{
    "https://api.spotify.com/v1/me/playlists?limit={limit}&offset={offset}".to_owned()
}

/// The template of the items listing of a playlist.
pub fn playlist_items_template(playlist_id: &str) -> (r: String)
    ensures
        r@ == playlist_items_template_text(playlist_id@),
{
    let head = joined("https://api.spotify.com/v1/playlists/", playlist_id);
    head.concat("/items?limit={limit}&offset={offset}")
}

/// Whether the name is that of the special playlist "All Songs", the
/// user's saved tracks.
pub fn is_all_songs(playlist_name: &str) -> (r: bool)
    ensures
        r == (playlist_name@ == all_songs_name()),
{
    same_text(playlist_name, "All Songs")
}

/// The message of the error for a playlist that is not in the library.
pub open spec fn playlist_not_found_message(name: Seq<char>) -> Seq<char> {
    "Playlist '"@ + name + "' not found in user's library"@
}

/// The listing template of the items of a playlist, by name: the saved
/// tracks for "All Songs", else the items of the playlist with the id that
/// the search of the library found, and an error where it found none.
pub fn items_template_for(playlist_name: &str, found_id: Option<String>) -> (r: Result<
    String,
    SpotifyError,
>)
    ensures
        playlist_name@ == all_songs_name() ==> (r matches Ok(t) && t@
            == saved_tracks_template_text()),
        playlist_name@ != all_songs_name() ==> match found_id {
            Some(id) => r matches Ok(t) && t@ == playlist_items_template_text(id@),
            None => r matches Err(SpotifyError::Api(m)) && m@ == playlist_not_found_message(
                playlist_name@,
            ),
        },
{
    if is_all_songs(playlist_name) {
        Ok("https://api.spotify.com/v1/me/tracks?limit={limit}&offset={offset}".to_owned())
    } else {
        match found_id {
            Some(id) => Ok(playlist_items_template(id.as_str())),
            None => {
                let m = joined("Playlist '", playlist_name);
                Err(SpotifyError::Api(m.concat("' not found in user's library")))
            },
        }
    }
}

/// The id of the first playlist of a page with the given name, if any.
pub fn find_playlist_id(page: &Vec<Playlist>, name: &str) -> (r: Option<String>)
    ensures
        r is None <==> forall|i: int| 0 <= i < page@.len() ==> page@[i].name@ != name@,
        r matches Some(id) ==> exists|i: int|
            0 <= i < page@.len() && page@[i].name@ == name@ && page@[i].id == id && forall|
                j: int,
            |
                0 <= j < i ==> page@[j].name@ != name@,
{
    let mut i: usize = 0;
    while i < page.len()
        invariant
            i <= page@.len(),
            forall|j: int| 0 <= j < i ==> page@[j].name@ != name@,
        decreases page@.len() - i,
    {
        if same_text(page[i].name.as_str(), name) {
            return Some(page[i].id.clone());
        }
        i = i + 1;
    }
    None
}

/// Number of items asked for per page of a listing.
pub const PAGE_SIZE: usize = 50;

/// The URL of the page at `offset` of a listing: the template with
/// `{limit}` replaced by the page size and then `{offset}` by the offset.
pub open spec fn page_url_text(template: Seq<char>, offset: nat) -> Seq<char> {
    replaced(
        replaced(template, "{limit}"@, decimal(PAGE_SIZE as nat)),
        "{offset}"@,
        decimal(offset),
    )
}

/// The URL of the page at `offset` of the listing with the given template.
pub fn page_url(template: &str, offset: usize) -> (r: String)
    ensures
        r@ == page_url_text(template@, offset as nat),
{
    proof {
        reveal_strlit("{limit}");
        reveal_strlit("{offset}");
    }
    let limit = usize_to_decimal(PAGE_SIZE);
    let with_limit = replace_all(template, "{limit}", limit.as_str());
    let off = usize_to_decimal(offset);
    replace_all(with_limit.as_str(), "{offset}", off.as_str())
}

/// The offset of the page after the one at `offset`, for a listing of
/// `total` items: one page size further, if that is still inside the
/// listing.
pub fn next_page_offset(offset: usize, total: usize) -> (r: Option<usize>)
    ensures
        offset + PAGE_SIZE < total ==> r == Some((offset + PAGE_SIZE) as usize),
        offset + PAGE_SIZE >= total ==> r is None,
{
    if offset < total && total - offset > PAGE_SIZE {
        Some(offset + PAGE_SIZE)
    } else {
        None
    }
}

/// What the search of the library for a playlist does after reading a
/// page of playlists.
#[derive(Debug)]
pub enum SearchStep {
    /// The page has a playlist of that name: the search ends with its id.
    Found(String),
    /// No page has one: the search ends without a playlist.
    NotFound,
    /// The search reads the page at this offset next.
    NextPage(usize),
}

/// Decides, after reading the page at `offset` of the user's playlists,
/// how the search for the playlist `name` goes on: the first playlist of
/// that name on the page ends the search; otherwise the next page is read,
/// and after the last one the search ends without a playlist.
pub fn search_step(page: &PaginatedResponse<Playlist>, name: &str, offset: usize) -> (r: SearchStep)
    ensures
        r matches SearchStep::Found(id) ==> exists|i: int|
            0 <= i < page.items@.len() && page.items@[i].name@ == name@ && page.items@[i].id == id
                && forall|j: int| 0 <= j < i ==> page.items@[j].name@ != name@,
        !(r is Found) <==> forall|i: int|
            0 <= i < page.items@.len() ==> page.items@[i].name@ != name@,
        !(r is Found) && offset + PAGE_SIZE < page.total ==> r == SearchStep::NextPage(
            (offset + PAGE_SIZE) as usize,
        ),
        !(r is Found) && offset + PAGE_SIZE >= page.total ==> r is NotFound,
{
    match find_playlist_id(&page.items, name) {
        Some(id) => SearchStep::Found(id),
        None => match next_page_offset(offset, page.total) {
            Some(next) => SearchStep::NextPage(next),
            None => SearchStep::NotFound,
        },
    }
}

/// Decides, after trying to read the page at `offset` of a playlist's
/// tracks, which page to read next: none after a page that failed to load
/// (`page_total` is `None`: loading stops, keeping the tracks read so
/// far), otherwise the next one while there is one.
pub fn next_track_page(offset: usize, page_total: Option<usize>) -> (r: Option<usize>)
    ensures
        page_total is None ==> r is None,
        page_total matches Some(total) ==> (offset + PAGE_SIZE < total ==> r == Some(
            (offset + PAGE_SIZE) as usize,
        )) && (offset + PAGE_SIZE >= total ==> r is None),
{
    match page_total {
        None => None,
        Some(total) => next_page_offset(offset, total),
    }
}

/// The offsets of the pages that walking a listing of `total` items
/// visits from `offset` on.
pub open spec fn page_walk(offset: nat, total: nat) -> Seq<nat>
    decreases total - offset,
{
    if offset + PAGE_SIZE < total {
        seq![offset].add(page_walk(offset + PAGE_SIZE as nat, total))
    } else {
        seq![offset]
    }
}

/// The number of the page that holds the item at position `item`.
pub open spec fn page_of(item: int) -> int {
    item / PAGE_SIZE as int
}

/// Walking a listing from the first page visits the pages at offsets
/// 0, 50, 100, ..., one page for an empty listing and otherwise as many
/// as it takes to reach every item, and so every item lies on exactly one
/// visited page.
pub proof fn lemma_page_walk_covers(total: nat)
    ensures
        page_walk(0, total).len() == (if total == 0 { 1 } else { (total + 49) / 50 }),
        forall|k: int|
            0 <= k < page_walk(0, total).len() ==> #[trigger] page_walk(0, total)[k] == 50 * k,
        forall|item: int|
            0 <= item < total ==> {
                let k = #[trigger] page_of(item);
                &&& 0 <= k < page_walk(0, total).len()
                &&& page_walk(0, total)[k] <= item < page_walk(0, total)[k] + PAGE_SIZE
            },
{
    lemma_page_walk_from(0, total);
    assert forall|item: int| 0 <= item < total implies {
        let k = #[trigger] page_of(item);
        &&& 0 <= k < page_walk(0, total).len()
        &&& page_walk(0, total)[k] <= item < page_walk(0, total)[k] + PAGE_SIZE
    } by {
        let k = page_of(item);
        assert(page_walk(0, total)[k] == 50 * k);
    }
}

/// The walk from the `m`-th page on.
proof fn lemma_page_walk_from(m: nat, total: nat)
    ensures
        page_walk(50 * m, total).len() == (if 50 * m + 50 >= total { 1 } else { (total
            + 49) / 50 - m }),
        forall|k: int|
            0 <= k < page_walk(50 * m, total).len() ==> #[trigger] page_walk(50 * m, total)[k]
                == 50 * (m + k),
    decreases total - 50 * m,
{
    if 50 * m + 50 < total {
        lemma_page_walk_from(m + 1, total);
        assert(50 * m + 50 == 50 * (m + 1));
        let rest = page_walk(50 * (m + 1), total);
        assert(page_walk(50 * m, total) == seq![50 * m].add(rest));
        assert forall|k: int| 0 <= k < page_walk(50 * m, total).len() implies #[trigger] page_walk(
            50 * m,
            total,
        )[k] == 50 * (m + k) by {
            if k > 0 {
                assert(page_walk(50 * m, total)[k] == rest[k - 1]);
            }
        }
    }
}

/// `Authorization` header value for a bearer token.
pub fn bearer_auth_header(access_token: &str) -> (r: String)
    ensures
        r@ == "Bearer "@ + access_token@,
{
    joined("Bearer ", access_token)
}

/// `Authorization` header value for HTTP Basic authentication of the
/// application: Base64 of `client_id:client_secret`.
pub fn basic_auth_header(client_id: &str, client_secret: &str) -> (r: String)
    ensures
        r@ == "Basic "@ + base64_bytes(encode_utf8(client_id@ + ":"@ + client_secret@)),
{
    let credentials = joined(client_id, ":").concat(client_secret);
    let encoded = base64_encode(credentials.as_str());
    joined("Basic ", encoded.as_str())
}

/// A pair of strings.
fn pair(a: &str, b: &str) -> (r: (String, String))
    ensures
        r.0@ == a@,
        r.1@ == b@,
{
    (a.to_owned(), b.to_owned())
}

/// A POST to the token endpoint with a form body, authenticated as the
/// application.
pub open spec fn is_token_request(
    r: HttpRequest,
    client_id: Seq<char>,
    client_secret: Seq<char>,
    form: Seq<(Seq<char>, Seq<char>)>,
) -> bool {
    &&& r.method == HttpMethod::Post
    &&& r.url@ == token_url_text()
    &&& r.headers@.len() == 2
    &&& r.headers@[0].0@ == "Content-Type"@
    &&& r.headers@[0].1@ == "application/x-www-form-urlencoded"@
    &&& r.headers@[1].0@ == "Authorization"@
    &&& r.headers@[1].1@ == "Basic "@ + base64_bytes(
        encode_utf8(client_id + ":"@ + client_secret),
    )
    &&& r.body matches Some(b) && b@ == form_body(form)
}

/// A POST to the token endpoint with the given form pairs.
fn token_request(client_id: &str, client_secret: &str, form: Vec<(String, String)>) -> (r:
    HttpRequest)
    ensures
        is_token_request(
            r,
            client_id@,
            client_secret@,
            crate::encoding::pairs_view(form@),
        ),
{
    let body = form_encode(&form);
    let mut headers: Vec<(String, String)> = Vec::new();
    headers.push(pair("Content-Type", "application/x-www-form-urlencoded"));
    headers.push(pair("Authorization", basic_auth_header(client_id, client_secret).as_str()));
    HttpRequest {
        method: HttpMethod::Post,
        url: "https://accounts.spotify.com/api/token".to_owned(),
        headers,
        body: Some(body),
    }
}

/// The request that exchanges an authorization code for an access token:
/// form fields `grant_type=authorization_code`, `code` and `redirect_uri`.
/// See <https://developer.spotify.com/documentation/web-api/tutorials/code-flow>.
pub fn authorization_code_request(params: &AuthParams, code: &str) -> (r: HttpRequest)
    ensures
        is_token_request(
            r,
            params.client_id@,
            params.client_secret@,
            seq![
                ("grant_type"@, "authorization_code"@),
                ("code"@, code@),
                ("redirect_uri"@, params.redirect_uri@),
            ],
        ),
{
    let mut form: Vec<(String, String)> = Vec::new();
    form.push(pair("grant_type", "authorization_code"));
    form.push(pair("code", code));
    form.push(pair("redirect_uri", params.redirect_uri.as_str()));
    let r = token_request(params.client_id.as_str(), params.client_secret.as_str(), form);
    proof {
        assert(crate::encoding::pairs_view(form@) =~= seq![
            ("grant_type"@, "authorization_code"@),
            ("code"@, code@),
            ("redirect_uri"@, params.redirect_uri@),
        ]);
    }
    r
}

/// The request that refreshes an access token: form fields
/// `grant_type=refresh_token`, `refresh_token` and `client_id`.
/// See <https://developer.spotify.com/documentation/web-api/tutorials/refreshing-tokens>.
pub fn refresh_token_request(params: &AuthParams, refresh_token: &str) -> (r: HttpRequest)
    ensures
        is_token_request(
            r,
            params.client_id@,
            params.client_secret@,
            seq![
                ("grant_type"@, "refresh_token"@),
                ("refresh_token"@, refresh_token@),
                ("client_id"@, params.client_id@),
            ],
        ),
{
    let mut form: Vec<(String, String)> = Vec::new();
    form.push(pair("grant_type", "refresh_token"));
    form.push(pair("refresh_token", refresh_token));
    form.push(pair("client_id", params.client_id.as_str()));
    let r = token_request(params.client_id.as_str(), params.client_secret.as_str(), form);
    proof {
        assert(crate::encoding::pairs_view(form@) =~= seq![
            ("grant_type"@, "refresh_token"@),
            ("refresh_token"@, refresh_token@),
            ("client_id"@, params.client_id@),
        ]);
    }
    r
}

/// The request for the page at `offset` of a listing, with the bearer
/// token.
pub fn page_request(template: &str, offset: usize, access_token: &str) -> (r: HttpRequest)
    ensures
        r.method == HttpMethod::Get,
        r.url@ == page_url_text(template@, offset as nat),
        r.headers@.len() == 1,
        r.headers@[0].0@ == "Authorization"@,
        r.headers@[0].1@ == "Bearer "@ + access_token@,
        r.body is None,
{
    let mut headers: Vec<(String, String)> = Vec::new();
    headers.push(pair("Authorization", bearer_auth_header(access_token).as_str()));
    HttpRequest { method: HttpMethod::Get, url: page_url(template, offset), headers, body: None }
}

/// The URL that adds a track to the playback queue, by its Spotify URI.
pub open spec fn queue_url_text(track_uri: Seq<char>) -> Seq<char> {
    "https://api.spotify.com/v1/me/player/queue?uri="@ + url_encoded(track_uri)
}

/// The request that adds a track to the playback queue: a POST with an
/// empty body and the bearer token.
pub fn queue_request(track_uri: &str, access_token: &str) -> (r: HttpRequest)
    ensures
        r.method == HttpMethod::Post,
        r.url@ == queue_url_text(track_uri@),
        r.headers@.len() == 1,
        r.headers@[0].0@ == "Authorization"@,
        r.headers@[0].1@ == "Bearer "@ + access_token@,
        r.body matches Some(b) && b@.len() == 0,
{
    let encoded = url_encode(track_uri);
    let url = joined("https://api.spotify.com/v1/me/player/queue?uri=", encoded.as_str());
    let mut headers: Vec<(String, String)> = Vec::new();
    headers.push(pair("Authorization", bearer_auth_header(access_token).as_str()));
    HttpRequest { method: HttpMethod::Post, url, headers, body: Some(String::new()) }
}

/// Whether an HTTP status reports success (2xx).
pub fn status_is_success(status: u16) -> (r: bool)
    ensures
        r == (200 <= status < 300),
{
    200 <= status && status < 300
}

/// The reason given for a failure status: a hint on the token for 401
/// Unauthorized, else a plain "failed".
pub open spec fn failure_reason(status: u16) -> Seq<char> {
    if status == 401 {
        "HTTP 401 Unauthorized: This likely means that the access token is invalid or expired"@
    } else {
        "failed"@
    }
}

/// The message of the error for a reply with a failure status.
pub open spec fn http_failure_text(method: Seq<char>, status: u16, body: Seq<char>) -> Seq<char> {
    "Method: "@ + method + " Error: "@ + failure_reason(status) + " Status "@ + decimal(
        status as nat,
    ) + ": Body: "@ + body
}

/// The error for a reply with a failure status, with the request's method,
/// the status and the reply's body.
pub fn http_failure(method: HttpMethod, status: u16, body: &str) -> (r: SpotifyError)
    ensures
        r matches SpotifyError::Http(m) && m@ == http_failure_text(
            if method == HttpMethod::Get { "GET"@ } else { "POST"@ },
            status,
            body@,
        ),
{
    let reason = if status == 401 {
        "HTTP 401 Unauthorized: This likely means that the access token is invalid or expired"
    } else {
        "failed"
    };
    let code = u16_to_decimal(status);
    let m = joined("Method: ", method.as_str()).concat(" Error: ").concat(reason).concat(
        " Status ",
    ).concat(code.as_str()).concat(": Body: ").concat(body);
    SpotifyError::Http(m)
}

} // verus!
