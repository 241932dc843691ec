use rustspo::cache::{select_random_tracks, tracks_at, Cache, CachedPlaylist, CachedTrack};
use rustspo::spotify::client::Token;
use rustspo::spotify::error::SpotifyError;

const HOUR: i64 = 3_600_000_000;

fn track(name: &str) -> CachedTrack {
    CachedTrack { name: name.to_string(), uri: format!("spotify:track:{}", name) }
}

fn playlist(name: &str, tracks: &[&str], expires_at: i64) -> CachedPlaylist {
    CachedPlaylist {
        name: name.to_string(),
        tracks: tracks.iter().map(|t| track(t)).collect(),
        expires_at,
    }
}

#[test]
fn new_cache_is_empty_with_empty_token() {
    let cache = Cache::new("cache.json");
    assert_eq!(cache.file_path(), "cache.json");
    assert!(cache.entries().is_empty());
    assert!(cache.token().access_token.is_none());
    assert!(cache.token().refresh_token.is_none());
    assert!(!cache.contains_playlist("Mix"));
}

#[test]
fn cache_track_creates_playlist_expiring_in_26_hours() {
    let mut cache = Cache::new("c.json");
    cache.cache_track_at(1_000, "Mix", "one", "spotify:track:1");
    let p = cache.playlist("Mix").unwrap();
    assert_eq!(p.name, "Mix");
    assert_eq!(p.tracks.len(), 1);
    assert_eq!(p.tracks[0].name, "one");
    assert_eq!(p.tracks[0].uri, "spotify:track:1");
    assert_eq!(p.expires_at, 1_000 + 26 * HOUR);
}

#[test]
fn cache_track_appends_and_keeps_expiry() {
    let mut cache = Cache::new("c.json");
    cache.cache_track_at(5, "Mix", "one", "u1");
    cache.cache_track_at(5 + HOUR, "Mix", "two", "u2");
    cache.cache_track_at(7, "Other", "x", "ux");
    let p = cache.playlist("Mix").unwrap();
    assert_eq!(p.tracks.len(), 2);
    assert_eq!(p.tracks[1].name, "two");
    assert_eq!(p.expires_at, 5 + 26 * HOUR);
    assert_eq!(cache.entries().len(), 2);
    assert_eq!(cache.playlist("Other").unwrap().tracks.len(), 1);
}

#[test]
fn cache_track_with_current_time() {
    let mut cache = Cache::new("c.json");
    cache.cache_track("Mix", "one", "u1");
    assert!(cache.contains_playlist("Mix"));
    let p = cache.playlist("Mix").unwrap();
    assert!(p.expires_at > 26 * HOUR);
}

#[test]
fn record_track_result_skips_failures() {
    let mut cache = Cache::new("c.json");
    let failed: Result<(String, String), SpotifyError> = Err(SpotifyError::Api("gone".to_string()));
    assert!(!cache.record_track_result("Mix", &failed));
    assert!(!cache.contains_playlist("Mix"));
    let ok: Result<(String, String), SpotifyError> = Ok(("one".to_string(), "u1".to_string()));
    assert!(cache.record_track_result("Mix", &ok));
    assert_eq!(cache.playlist("Mix").unwrap().tracks[0].uri, "u1");
    assert!(!cache.record_track_result("Mix", &failed));
    assert_eq!(cache.playlist("Mix").unwrap().tracks.len(), 1);
}

#[test]
fn retire_playlists_removes_expired_only() {
    let entries = vec![
        ("old".to_string(), playlist("old", &["a"], 100)),
        ("edge".to_string(), playlist("edge", &["b"], 200)),
        ("fresh".to_string(), playlist("fresh", &["c", "d"], 300)),
    ];
    let mut cache = Cache::from_parts("c.json".to_string(), entries, Token::empty_at(0));
    cache.retire_playlists_at(200);
    assert!(!cache.contains_playlist("old"));
    assert!(!cache.contains_playlist("edge"));
    assert_eq!(cache.playlist("fresh").unwrap().tracks.len(), 2);
    cache.retire_playlists_at(200);
    assert_eq!(cache.entries().len(), 1);
}

#[test]
fn retire_playlists_with_current_time_drops_past_expiry() {
    let entries = vec![
        ("past".to_string(), playlist("past", &["a"], 0)),
        ("future".to_string(), playlist("future", &["b"], i64::MAX)),
    ];
    let mut cache = Cache::from_parts("c.json".to_string(), entries, Token::empty_at(0));
    cache.retire_playlists();
    assert!(!cache.contains_playlist("past"));
    assert!(cache.contains_playlist("future"));
}

#[test]
fn from_parts_later_entry_wins() {
    let entries = vec![
        ("Mix".to_string(), playlist("Mix", &["a"], 10)),
        ("Mix".to_string(), playlist("Mix", &["b", "c"], 20)),
    ];
    let mut token = Token::empty_at(3);
    token.access_token = Some("at".to_string());
    let cache = Cache::from_parts("f.json".to_string(), entries, token);
    assert_eq!(cache.entries().len(), 1);
    let p = cache.playlist("Mix").unwrap();
    assert_eq!(p.expires_at, 20);
    assert_eq!(p.tracks.len(), 2);
    assert_eq!(cache.token().access_token.as_deref(), Some("at"));
    assert_eq!(cache.file_path(), "f.json");
}

#[test]
fn insert_playlist_replaces_existing() {
    let mut cache = Cache::new("c.json");
    cache.insert_playlist("Mix".to_string(), playlist("Mix", &["a"], 1));
    cache.insert_playlist("Mix".to_string(), playlist("Mix", &["b"], 2));
    assert_eq!(cache.entries().len(), 1);
    assert_eq!(cache.playlist("Mix").unwrap().tracks[0].name, "b");
}

#[test]
fn set_token_and_file_path() {
    let mut cache = Cache::new("a.json");
    cache.set_file_path("b.json".to_string());
    let mut t = Token::empty_at(9);
    t.refresh_token = Some("r".to_string());
    cache.set_token(t);
    assert_eq!(cache.file_path(), "b.json");
    assert_eq!(cache.token().refresh_token.as_deref(), Some("r"));
    assert_eq!(cache.token().expires_at, 9);
}

#[test]
fn select_random_tracks_from_empty_playlist() {
    let tracks: Vec<CachedTrack> = Vec::new();
    assert!(select_random_tracks(&tracks, 20).is_empty());
}

#[test]
fn select_random_tracks_undersized_playlist_returns_all() {
    let tracks = vec![track("a"), track("b"), track("c")];
    let chosen = select_random_tracks(&tracks, 20);
    assert_eq!(chosen.len(), 3);
    let mut names: Vec<&str> = chosen.iter().map(|t| t.name.as_str()).collect();
    names.sort();
    assert_eq!(names, vec!["a", "b", "c"]);
}

#[test]
fn select_random_tracks_exact_size_returns_all() {
    let tracks = vec![track("a"), track("b")];
    let chosen = select_random_tracks(&tracks, 2);
    let mut names: Vec<&str> = chosen.iter().map(|t| t.name.as_str()).collect();
    names.sort();
    assert_eq!(names, vec!["a", "b"]);
}

#[test]
fn select_random_tracks_picks_distinct_tracks() {
    let tracks: Vec<CachedTrack> = (0..30).map(|i| track(&i.to_string())).collect();
    let chosen = select_random_tracks(&tracks, 10);
    assert_eq!(chosen.len(), 10);
    let mut names: Vec<&str> = chosen.iter().map(|t| t.name.as_str()).collect();
    names.sort();
    names.dedup();
    assert_eq!(names.len(), 10);
    assert!(select_random_tracks(&tracks, 0).is_empty());
}

#[test]
fn prepare_load_decides_by_presence_and_expiry() {
    let mut cache = Cache::new("cache.json");
    assert!(cache.prepare_load_at("Mix", 100));
    assert!(cache.entries().is_empty());
    cache.insert_playlist("Mix".to_string(), playlist("Mix", &["a", "b"], 200));
    cache.insert_playlist("Other".to_string(), playlist("Other", &["c"], 150));
    assert!(!cache.prepare_load_at("Mix", 199));
    assert_eq!(cache.playlist("Mix").unwrap().tracks.len(), 2);
    assert!(cache.prepare_load_at("Mix", 200));
    assert!(!cache.contains_playlist("Mix"));
    assert!(cache.contains_playlist("Other"));
    assert_eq!(cache.entries().len(), 1);
    cache.cache_track_at(300, "Mix", "d", "spotify:track:d");
    let p = cache.playlist("Mix").unwrap();
    assert_eq!(p.tracks.len(), 1);
    assert_eq!(p.expires_at, 300 + 26 * HOUR);
}

#[test]
fn prepare_load_with_current_time() {
    let mut cache = Cache::new("cache.json");
    cache.insert_playlist("Old".to_string(), playlist("Old", &["a"], 0));
    assert!(cache.prepare_load("Old"));
    assert!(!cache.contains_playlist("Old"));
    cache.insert_playlist("Fresh".to_string(), playlist("Fresh", &["a"], i64::MAX));
    assert!(!cache.prepare_load("Fresh"));
    assert!(cache.contains_playlist("Fresh"));
    assert!(cache.prepare_load("Absent"));
}

#[test]
fn tracks_at_follows_the_indices() {
    let tracks = vec![track("a"), track("b"), track("c")];
    let picked = tracks_at(&tracks, &vec![2, 0, 2]);
    let names: Vec<&str> = picked.iter().map(|t| t.name.as_str()).collect();
    assert_eq!(names, vec!["c", "a", "c"]);
    assert!(tracks_at(&tracks, &vec![]).is_empty());
}
