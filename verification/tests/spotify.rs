use rustspo::spotify::api::{
    Playlist, PlaylistTrackObject, SavedTrackObject, SpotifyGetAccessTokenResponse, Track,
    TrackObject,
};
use rustspo::spotify::auth::{authorization_code, authorize_url, loopback_ip, redirect_target};
use rustspo::spotify::client::{default_redirect_uri, AuthParams, Client, Token, TokenStep};
use rustspo::spotify::error::SpotifyError;
use rustspo::spotify::api::PaginatedResponse;
use rustspo::spotify::requests::{next_track_page, search_step, SearchStep, 
    authorization_code_request, basic_auth_header, bearer_auth_header, find_playlist_id,
    http_failure, is_all_songs, items_template_for, next_page_offset, page_request, page_url,
    playlist_items_template, playlists_template, queue_request, refresh_token_request,
    status_is_success, HttpMethod, PAGE_SIZE,
};
use rustspo::clock::MAX_TIMESTAMP_MICROS;
use rustspo::http_listener::parse_request;

const SECOND: i64 = 1_000_000;

fn params() -> AuthParams {
    AuthParams::with_redirect_or_default("id".to_string(), "secret".to_string(), None)
}

fn api_message(e: SpotifyError) -> String {
    match e {
        SpotifyError::Api(m) => m,
        other => panic!("expected an API error, got {:?}", other),
    }
}

#[test]
fn track_object_gives_name_and_uri() {
    let saved = TrackObject::SavedTrack(SavedTrackObject {
        track: Track { name: "Song".to_string(), uri: "spotify:track:1".to_string() },
    });
    assert_eq!(saved.into_name_and_uri(), ("Song".to_string(), "spotify:track:1".to_string()));
    let item = TrackObject::PlaylistTrack(PlaylistTrackObject {
        item: Track { name: "Other".to_string(), uri: "spotify:track:2".to_string() },
    });
    assert_eq!(item.into_name_and_uri(), ("Other".to_string(), "spotify:track:2".to_string()));
}

#[test]
fn auth_params_default_redirect() {
    let p = params();
    assert_eq!(p.redirect_uri, "http://127.0.0.1:58392");
    assert_eq!(default_redirect_uri(), "http://127.0.0.1:58392");
    let q = AuthParams::with_redirect_or_default(
        "a".to_string(),
        "b".to_string(),
        Some("http://127.0.0.1:9000/cb".to_string()),
    );
    assert_eq!(q.redirect_uri, "http://127.0.0.1:9000/cb");
    assert_eq!(q.client_id, "a");
    assert_eq!(q.client_secret, "b");
}

#[test]
fn authorize_url_carries_client_scope_and_redirect() {
    let url = authorize_url("abc", "http://127.0.0.1:58392").unwrap();
    assert_eq!(
        url,
        "https://accounts.spotify.com/authorize?response_type=code&client_id=abc\
         &scope=playlist-read-private+user-library-read+playlist-read-collaborative+user-modify-playback-state\
         &redirect_uri=http%3A%2F%2F127.0.0.1%3A58392"
    );
}

#[test]
fn redirect_target_reads_host_port_and_path() {
    let t = redirect_target("http://127.0.0.1:58392").unwrap();
    assert_eq!(t.host, "127.0.0.1");
    assert_eq!(t.port, 58392);
    assert_eq!(t.path, "/");
    let t = redirect_target("http://127.0.0.1:9000/callback").unwrap();
    assert_eq!(t.port, 9000);
    assert_eq!(t.path, "/callback");
}

#[test]
fn redirect_target_errors() {
    assert_eq!(api_message(redirect_target("/callback").unwrap_err()), "Redirect URI must have a host");
    assert_eq!(
        api_message(redirect_target("http://127.0.0.1/callback").unwrap_err()),
        "Redirect URI must have a port"
    );
    let m = api_message(redirect_target("http://127.0.0.1:58392/a b").unwrap_err());
    assert!(m.starts_with("Failed to parse redirect URI: "));
    assert!(m.len() > "Failed to parse redirect URI: ".len());
}

#[test]
fn redirect_target_gives_host_as_address_text() {
    let t = redirect_target("http://localhost:58392/cb").unwrap();
    assert_eq!(t.host, "localhost");
    let t = redirect_target("http://[::1]:58392/cb").unwrap();
    assert_eq!(t.host, "::1");
    assert_eq!(t.port, 58392);
    assert_eq!(t.path, "/cb");
    assert_eq!(
        api_message(redirect_target("http://[::1]/cb").unwrap_err()),
        "Redirect URI must have a port"
    );
}

#[test]
fn loopback_ip_judges_parsed_host() {
    assert_eq!(
        api_message(loopback_ip(Err("invalid IP address syntax".to_string())).unwrap_err()),
        "Failed to parse host in redirect URI: invalid IP address syntax"
    );
    let loopback = "Redirect URI host must be a literal loopback IP (127.0.0.1 or ::1)";
    assert_eq!(api_message(loopback_ip(Ok("192.168.1.5".to_string())).unwrap_err()), loopback);
    assert_eq!(api_message(loopback_ip(Ok("127.0.0.2".to_string())).unwrap_err()), loopback);
    assert_eq!(loopback_ip(Ok("127.0.0.1".to_string())).unwrap(), "127.0.0.1");
    assert_eq!(loopback_ip(Ok("::1".to_string())).unwrap(), "::1");
}

#[test]
fn authorization_code_from_redirect() {
    let r = parse_request("/?code=AQB-xyz&state=s").unwrap();
    assert_eq!(authorization_code(&r).unwrap(), "AQB-xyz");
    let r = parse_request("/?error=access_denied").unwrap();
    assert_eq!(api_message(authorization_code(&r).unwrap_err()), "Authorization code not found");
}

#[test]
fn basic_and_bearer_headers() {
    assert_eq!(basic_auth_header("id", "secret"), "Basic aWQ6c2VjcmV0");
    assert_eq!(basic_auth_header("my-client", "s3cr\u{e9}t"), "Basic bXktY2xpZW50OnMzY3LDqXQ=");
    assert_eq!(bearer_auth_header("tok"), "Bearer tok");
}

#[test]
fn authorization_code_request_form() {
    let r = authorization_code_request(&params(), "abc");
    assert_eq!(r.method, HttpMethod::Post);
    assert_eq!(r.url, "https://accounts.spotify.com/api/token");
    assert_eq!(
        r.headers,
        vec![
            ("Content-Type".to_string(), "application/x-www-form-urlencoded".to_string()),
            ("Authorization".to_string(), "Basic aWQ6c2VjcmV0".to_string()),
        ]
    );
    assert_eq!(
        r.body.unwrap(),
        "grant_type=authorization_code&code=abc&redirect_uri=http%3A%2F%2F127.0.0.1%3A58392"
    );
}

#[test]
fn refresh_token_request_form() {
    let r = refresh_token_request(&params(), "r t/1");
    assert_eq!(r.method, HttpMethod::Post);
    assert_eq!(r.url, "https://accounts.spotify.com/api/token");
    assert_eq!(r.body.unwrap(), "grant_type=refresh_token&refresh_token=r+t%2F1&client_id=id");
}

#[test]
fn page_urls_fill_limit_and_offset() {
    assert_eq!(PAGE_SIZE, 50);
    assert_eq!(
        page_url("https://api.spotify.com/v1/me/tracks?limit={limit}&offset={offset}", 100),
        "https://api.spotify.com/v1/me/tracks?limit=50&offset=100"
    );
    assert_eq!(
        page_url(&playlists_template(), 0),
        "https://api.spotify.com/v1/me/playlists?limit=50&offset=0"
    );
    assert_eq!(
        page_url(&playlist_items_template("37i9"), 50),
        "https://api.spotify.com/v1/playlists/37i9/items?limit=50&offset=50"
    );
    assert_eq!(page_url("{offset}-{offset}", 7), "7-7");
}

#[test]
fn page_request_is_authorized_get() {
    let r = page_request(&playlists_template(), 150, "tok");
    assert_eq!(r.method, HttpMethod::Get);
    assert_eq!(r.url, "https://api.spotify.com/v1/me/playlists?limit=50&offset=150");
    assert_eq!(r.headers, vec![("Authorization".to_string(), "Bearer tok".to_string())]);
    assert!(r.body.is_none());
}

#[test]
fn next_page_offset_walks_listing() {
    assert_eq!(next_page_offset(0, 0), None);
    assert_eq!(next_page_offset(0, 50), None);
    assert_eq!(next_page_offset(0, 51), Some(50));
    assert_eq!(next_page_offset(0, 120), Some(50));
    assert_eq!(next_page_offset(50, 120), Some(100));
    assert_eq!(next_page_offset(100, 120), None);
    assert_eq!(next_page_offset(usize::MAX - 10, usize::MAX), None);
    let mut offsets = vec![0usize];
    while let Some(next) = next_page_offset(*offsets.last().unwrap(), 130) {
        offsets.push(next);
    }
    assert_eq!(offsets, vec![0, 50, 100]);
}

#[test]
fn queue_request_encodes_track_uri() {
    let r = queue_request("spotify:track:4iV5W9uYEdYUVa79Axb7Rh", "tok");
    assert_eq!(r.method, HttpMethod::Post);
    assert_eq!(
        r.url,
        "https://api.spotify.com/v1/me/player/queue?uri=spotify%3Atrack%3A4iV5W9uYEdYUVa79Axb7Rh"
    );
    assert_eq!(r.body.as_deref(), Some(""));
    let r = queue_request("a b~c", "tok");
    assert_eq!(r.url, "https://api.spotify.com/v1/me/player/queue?uri=a%20b~c");
}

#[test]
fn all_songs_and_playlist_templates() {
    assert!(is_all_songs("All Songs"));
    assert!(!is_all_songs("all songs"));
    assert_eq!(
        items_template_for("All Songs", None).unwrap(),
        "https://api.spotify.com/v1/me/tracks?limit={limit}&offset={offset}"
    );
    assert_eq!(
        items_template_for("Road", Some("id7".to_string())).unwrap(),
        "https://api.spotify.com/v1/playlists/id7/items?limit={limit}&offset={offset}"
    );
    assert_eq!(
        api_message(items_template_for("Road", None).unwrap_err()),
        "Playlist 'Road' not found in user's library"
    );
}

#[test]
fn find_playlist_id_takes_first_match() {
    let page = vec![
        Playlist { name: "A".to_string(), id: "1".to_string() },
        Playlist { name: "B".to_string(), id: "2".to_string() },
        Playlist { name: "B".to_string(), id: "3".to_string() },
    ];
    assert_eq!(find_playlist_id(&page, "B"), Some("2".to_string()));
    assert_eq!(find_playlist_id(&page, "C"), None);
    assert_eq!(find_playlist_id(&Vec::new(), "A"), None);
}

#[test]
fn http_status_and_failure_message() {
    assert!(status_is_success(200));
    assert!(status_is_success(204));
    assert!(!status_is_success(199));
    assert!(!status_is_success(300));
    assert!(!status_is_success(401));
    match http_failure(HttpMethod::Get, 401, "bad token") {
        SpotifyError::Http(m) => assert_eq!(
            m,
            "Method: GET Error: HTTP 401 Unauthorized: This likely means that the access token \
             is invalid or expired Status 401: Body: bad token"
        ),
        other => panic!("unexpected {:?}", other),
    }
    match http_failure(HttpMethod::Post, 404, "") {
        SpotifyError::Http(m) => assert_eq!(m, "Method: POST Error: failed Status 404: Body: "),
        other => panic!("unexpected {:?}", other),
    }
}

#[test]
fn token_expiry() {
    let mut t = Token::empty_at(10);
    assert!(t.is_expired_at(10));
    assert!(!t.is_expired_at(9));
    t.set_expiration_at(1_000, 3600);
    assert_eq!(t.expires_at, 1_000 + 3600 * SECOND);
    assert!(!t.is_expired_at(1_000));
    assert!(t.set_expiration(3600));
    assert!(!t.is_expired());
    assert!(t.access_token.is_none());
    let d = Token::default();
    assert!(d.access_token.is_none() && d.refresh_token.is_none());
    assert!(d.expires_at > 0);
    assert!(Token::empty_at(0).is_expired());
}

#[test]
fn token_expiry_checked() {
    let mut t = Token::empty_at(0);
    t.refresh_token = Some("R".to_string());
    assert!(t.set_expiration_checked_at(1_000, 3600));
    assert_eq!(t.expires_at, 1_000 + 3600 * SECOND);
    assert_eq!(t.refresh_token.as_deref(), Some("R"));
    let room = ((MAX_TIMESTAMP_MICROS - 1_000) / SECOND) as u64;
    assert!(t.set_expiration_checked_at(1_000, room));
    assert_eq!(t.expires_at, 1_000 + room as i64 * SECOND);
    assert!(!t.set_expiration_checked_at(1_000, room + 1));
    assert_eq!(t.expires_at, 1_000 + room as i64 * SECOND);
    assert!(!t.set_expiration(u64::MAX));
    assert_eq!(t.expires_at, 1_000 + room as i64 * SECOND);
}

fn reply(access: &str, refresh: Option<&str>) -> SpotifyGetAccessTokenResponse {
    SpotifyGetAccessTokenResponse {
        access_token: access.to_string(),
        expires_in: 3600,
        refresh_token: refresh.map(|r| r.to_string()),
    }
}

#[test]
fn client_without_token_authorizes_then_uses_token() {
    let mut client = Client::new(Token::empty_at(0), params()).unwrap();
    assert!(matches!(client.token_step_at(5), Ok(TokenStep::Authorize)));
    let a = client.apply_authorization_reply_at(reply("A1", Some("R1")), 100);
    assert_eq!(a, "A1");
    let t = client.get_token();
    assert_eq!(t.access_token.as_deref(), Some("A1"));
    assert_eq!(t.refresh_token.as_deref(), Some("R1"));
    assert_eq!(t.expires_at, 100 + 3600 * SECOND);
    match client.token_step_at(100) {
        Ok(TokenStep::Ready(x)) => assert_eq!(x, "A1"),
        other => panic!("unexpected {:?}", other),
    }
    assert_eq!(client.auth_params().client_id, "id");
}

#[test]
fn client_refreshes_expired_token() {
    let mut client = Client::new(Token::empty_at(0), params()).unwrap();
    client.apply_authorization_reply_at(reply("A1", Some("R1")), 0);
    match client.token_step_at(3600 * SECOND) {
        Ok(TokenStep::Refresh(r)) => assert_eq!(r, "R1"),
        other => panic!("unexpected {:?}", other),
    }
    let a = client.apply_refresh_reply_at(reply("A2", None), 3600 * SECOND);
    assert_eq!(a, "A2");
    let t = client.get_token();
    assert_eq!(t.access_token.as_deref(), Some("A2"));
    assert_eq!(t.refresh_token.as_deref(), Some("R1"));
    client.apply_refresh_reply_at(reply("A3", Some("R2")), 0);
    assert_eq!(client.get_token().refresh_token.as_deref(), Some("R2"));
}

#[test]
fn client_expired_without_refresh_token_fails() {
    let mut client = Client::new(Token::empty_at(0), params()).unwrap();
    client.apply_authorization_reply_at(reply("A1", None), 0);
    assert!(client.get_token().refresh_token.is_none());
    assert_eq!(
        api_message(client.token_step_at(3600 * SECOND).unwrap_err()),
        "Access token is expired and no refresh token available"
    );
}

#[test]
fn client_replies_at_current_time() {
    let mut client = Client::new(Token::empty_at(0), params()).unwrap();
    assert_eq!(client.apply_authorization_reply(reply("A1", Some("R1"))).as_deref(), Some("A1"));
    assert!(matches!(client.token_step(), Ok(TokenStep::Ready(_))));
    assert_eq!(client.apply_refresh_reply(reply("A2", None)).as_deref(), Some("A2"));
    assert_eq!(client.get_token().refresh_token.as_deref(), Some("R1"));
    let huge = SpotifyGetAccessTokenResponse {
        access_token: "X".to_string(),
        expires_in: u64::MAX,
        refresh_token: None,
    };
    assert!(client.apply_authorization_reply(huge).is_none());
    assert_eq!(client.get_token().access_token.as_deref(), Some("A2"));
}

#[test]
fn client_checked_replies() {
    let mut client = Client::new(Token::empty_at(0), params()).unwrap();
    let a = client.apply_authorization_reply_checked_at(reply("A1", Some("R1")), 7);
    assert_eq!(a.as_deref(), Some("A1"));
    let t = client.get_token();
    assert_eq!(t.access_token.as_deref(), Some("A1"));
    assert_eq!(t.refresh_token.as_deref(), Some("R1"));
    assert_eq!(t.expires_at, 7 + 3600 * SECOND);
    let late = MAX_TIMESTAMP_MICROS - 3599 * SECOND;
    assert!(client.apply_refresh_reply_checked_at(reply("A2", None), late).is_none());
    assert!(client.apply_authorization_reply_checked_at(reply("A2", None), late).is_none());
    let t = client.get_token();
    assert_eq!(t.access_token.as_deref(), Some("A1"));
    assert_eq!(t.expires_at, 7 + 3600 * SECOND);
    let a = client.apply_refresh_reply_checked_at(reply("A3", None), 9);
    assert_eq!(a.as_deref(), Some("A3"));
    let t = client.get_token();
    assert_eq!(t.refresh_token.as_deref(), Some("R1"));
    assert_eq!(t.expires_at, 9 + 3600 * SECOND);
    let edge = MAX_TIMESTAMP_MICROS - 3600 * SECOND;
    assert_eq!(
        client.apply_refresh_reply_checked_at(reply("A4", Some("R4")), edge).as_deref(),
        Some("A4")
    );
    assert_eq!(client.get_token().expires_at, MAX_TIMESTAMP_MICROS);
    assert_eq!(client.get_token().refresh_token.as_deref(), Some("R4"));
}

#[test]
fn error_messages_carry_kind_and_detail() {
    assert_eq!(SpotifyError::Http("boom".to_string()).message(), "HTTP error: boom");
    assert_eq!(SpotifyError::Api("no code".to_string()).message(), "API error: no code");
    let json = serde_json::from_str::<u32>("x").unwrap_err();
    let m = SpotifyError::Json(json).message();
    assert!(m.starts_with("JSON error: ") && m.len() > "JSON error: ".len());
    let io = std::io::Error::new(std::io::ErrorKind::Other, "disk");
    assert_eq!(SpotifyError::Io(io).message(), "Io error: disk");
    let parse = url::Url::parse("no scheme").unwrap_err();
    assert_eq!(
        SpotifyError::Parse(parse).message(),
        "Parse error: relative URL without a base"
    );
}

fn named(name: &str, id: &str) -> Playlist {
    Playlist { name: name.to_string(), id: id.to_string() }
}

#[test]
fn search_step_first_match_or_next_page() {
    let page = PaginatedResponse {
        total: 120,
        items: vec![named("A", "1"), named("B", "2"), named("B", "3")],
    };
    assert!(matches!(search_step(&page, "B", 0), SearchStep::Found(id) if id == "2"));
    assert!(matches!(search_step(&page, "C", 0), SearchStep::NextPage(50)));
    assert!(matches!(search_step(&page, "C", 50), SearchStep::NextPage(100)));
    assert!(matches!(search_step(&page, "C", 100), SearchStep::NotFound));
}

#[test]
fn next_track_page_stops_at_failed_page() {
    assert_eq!(next_track_page(0, None), None);
    assert_eq!(next_track_page(0, Some(120)), Some(50));
    assert_eq!(next_track_page(100, Some(120)), None);
    assert_eq!(next_track_page(0, Some(50)), None);
}
