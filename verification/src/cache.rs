//! The playlist cache: tracks of playlists by name, each with an expiry,
//! and the access token, kept between runs. Also the random choice of
//! tracks from a playlist.
use vstd::prelude::*;

use crate::clock::{now_micros, MAX_TIMESTAMP_MICROS, MICROS_PER_HOUR};
use crate::spotify::client::Token;
use crate::spotify::error::SpotifyError;
use crate::text::owned;

verus! {

/// A track of a cached playlist.
#[derive(Debug)]
pub struct CachedTrack {
    pub name: String,
    pub uri: String,
}

impl View for CachedTrack {
    type V = (Seq<char>, Seq<char>);

    open spec fn view(&self) -> (Seq<char>, Seq<char>) {
        (self.name@, self.uri@)
    }
}

/// A cached playlist: its name, tracks and expiry (microseconds since the
/// Unix epoch).
#[derive(Debug)]
pub struct CachedPlaylist {
    pub name: String,
    pub tracks: Vec<CachedTrack>,
    pub expires_at: i64,
}

/// The view of a cached playlist.
pub struct CachedPlaylistView {
    pub name: Seq<char>,
    pub tracks: Seq<(Seq<char>, Seq<char>)>,
    pub expires_at: i64,
}

impl View for CachedPlaylist {
    type V = CachedPlaylistView;

    open spec fn view(&self) -> CachedPlaylistView {
        CachedPlaylistView {
            name: self.name@,
            tracks: self.tracks@.map_values(|t: CachedTrack| t@),
            expires_at: self.expires_at,
        }
    }
}

/// How long a newly cached playlist stays in the cache: 26 hours.
pub open spec fn playlist_lifetime() -> int {
    26 * MICROS_PER_HOUR
}

/// Whether no two entries have the same key.
pub open spec fn unique_keys<V>(s: Seq<(Seq<char>, V)>) -> bool {
    forall|i: int, j: int|
        0 <= i < s.len() && 0 <= j < s.len() && i != j ==> #[trigger] s[i].0 != #[trigger] s[j].0
}

/// Whether some entry has the key `k`.
pub open spec fn has_key<V>(s: Seq<(Seq<char>, V)>, k: Seq<char>) -> bool {
    exists|i: int| 0 <= i < s.len() && #[trigger] s[i].0 == k
}

/// The map that a list of entries with distinct keys stands for.
pub open spec fn entries_map<V>(s: Seq<(Seq<char>, V)>) -> Map<Seq<char>, V> {
    Map::new(
        |k: Seq<char>| has_key(s, k),
        |k: Seq<char>| s[choose|i: int| 0 <= i < s.len() && #[trigger] s[i].0 == k].1,
    )
}

/// The map of entries added one after the other, a later entry for a key
/// replacing an earlier one.
pub open spec fn last_wins<V>(s: Seq<(Seq<char>, V)>) -> Map<Seq<char>, V>
    decreases s.len(),
{
    if s.len() == 0 {
        Map::empty()
    } else {
        last_wins(s.drop_last()).insert(s.last().0, s.last().1)
    }
}

proof fn lemma_entries_map_at<V>(s: Seq<(Seq<char>, V)>, i: int)
    requires
        unique_keys(s),
        0 <= i < s.len(),
    ensures
        entries_map(s).contains_key(s[i].0),
        entries_map(s)[s[i].0] == s[i].1,
{
    assert(has_key(s, s[i].0));
    let j = choose|j: int| 0 <= j < s.len() && #[trigger] s[j].0 == s[i].0;
    assert(j == i);
}

proof fn lemma_entries_map_dom<V>(s: Seq<(Seq<char>, V)>, k: Seq<char>)
    requires
        unique_keys(s),
    ensures
        entries_map(s).contains_key(k) == has_key(s, k),
        has_key(s, k) ==> exists|i: int|
            0 <= i < s.len() && #[trigger] s[i].0 == k && entries_map(s)[k] == s[i].1,
{
    if has_key(s, k) {
        let i = choose|i: int| 0 <= i < s.len() && #[trigger] s[i].0 == k;
        lemma_entries_map_at(s, i);
    }
}

/// Replacing the value of an entry replaces it in the map.
proof fn lemma_entries_map_update<V>(s: Seq<(Seq<char>, V)>, i: int, v: V)
    requires
        unique_keys(s),
        0 <= i < s.len(),
    ensures
        unique_keys(s.update(i, (s[i].0, v))),
        entries_map(s.update(i, (s[i].0, v))) == entries_map(s).insert(s[i].0, v),
{
    let t = s.update(i, (s[i].0, v));
    assert(unique_keys(t)) by {
        assert forall|a: int, b: int|
            0 <= a < t.len() && 0 <= b < t.len() && a != b implies #[trigger] t[a].0
            != #[trigger] t[b].0 by {
            assert(t[a].0 == s[a].0);
            assert(t[b].0 == s[b].0);
        }
    }
    assert forall|k: Seq<char>| #[trigger]
        entries_map(t).contains_key(k) == entries_map(s).insert(s[i].0, v).contains_key(k) by {
        lemma_entries_map_dom(s, k);
        lemma_entries_map_dom(t, k);
        if has_key(s, k) {
            let j = choose|j: int| 0 <= j < s.len() && #[trigger] s[j].0 == k;
            assert(t[j].0 == k);
        }
        if has_key(t, k) {
            let j = choose|j: int| 0 <= j < t.len() && #[trigger] t[j].0 == k;
            assert(s[j].0 == k);
        }
    }
    assert forall|k: Seq<char>| #[trigger] entries_map(t).contains_key(k) implies entries_map(
        t,
    )[k] == entries_map(s).insert(s[i].0, v)[k] by {
        lemma_entries_map_dom(s, k);
        lemma_entries_map_dom(t, k);
        let j = choose|j: int| 0 <= j < t.len() && #[trigger] t[j].0 == k;
        lemma_entries_map_at(t, j);
        if j != i {
            lemma_entries_map_at(s, j);
        }
    }
    assert(entries_map(t) =~= entries_map(s).insert(s[i].0, v));
}

/// Adding an entry with a new key adds it to the map.
proof fn lemma_entries_map_push<V>(s: Seq<(Seq<char>, V)>, k: Seq<char>, v: V)
    requires
        unique_keys(s),
        !has_key(s, k),
    ensures
        unique_keys(s.push((k, v))),
        entries_map(s.push((k, v))) == entries_map(s).insert(k, v),
{
    let t = s.push((k, v));
    assert(unique_keys(t)) by {
        assert forall|a: int, b: int|
            0 <= a < t.len() && 0 <= b < t.len() && a != b implies #[trigger] t[a].0
            != #[trigger] t[b].0 by {
            if a < s.len() && b < s.len() {
                assert(t[a].0 == s[a].0);
                assert(t[b].0 == s[b].0);
            } else if a < s.len() {
                assert(t[a].0 == s[a].0);
            } else if b < s.len() {
                assert(t[b].0 == s[b].0);
            }
        }
    }
    assert forall|q: Seq<char>| #[trigger]
        entries_map(t).contains_key(q) == entries_map(s).insert(k, v).contains_key(q) by {
        lemma_entries_map_dom(s, q);
        lemma_entries_map_dom(t, q);
        if has_key(s, q) {
            let j = choose|j: int| 0 <= j < s.len() && #[trigger] s[j].0 == q;
            assert(t[j].0 == q);
        }
        if q == k {
            assert(t[s.len() as int].0 == k);
        }
        if has_key(t, q) && q != k {
            let j = choose|j: int| 0 <= j < t.len() && #[trigger] t[j].0 == q;
            assert(s[j].0 == q);
        }
    }
    assert forall|q: Seq<char>| #[trigger] entries_map(t).contains_key(q) implies entries_map(
        t,
    )[q] == entries_map(s).insert(k, v)[q] by {
        lemma_entries_map_dom(t, q);
        let j = choose|j: int| 0 <= j < t.len() && #[trigger] t[j].0 == q;
        lemma_entries_map_at(t, j);
        if j < s.len() {
            assert(s[j].0 == q);
            lemma_entries_map_at(s, j);
        }
    }
    assert(entries_map(t) =~= entries_map(s).insert(k, v));
}

/// Removing an entry removes its key from the map.
proof fn lemma_entries_map_remove<V>(s: Seq<(Seq<char>, V)>, i: int)
    requires
        unique_keys(s),
        0 <= i < s.len(),
    ensures
        unique_keys(s.remove(i)),
        entries_map(s.remove(i)) == entries_map(s).remove(s[i].0),
{
    let t = s.remove(i);
    assert forall|a: int| 0 <= a < t.len() implies #[trigger] t[a] == s[if a < i {
        a
    } else {
        a + 1
    }] by {}
    assert(unique_keys(t)) by {
        assert forall|a: int, b: int|
            0 <= a < t.len() && 0 <= b < t.len() && a != b implies #[trigger] t[a].0
            != #[trigger] t[b].0 by {
            let a2 = if a < i { a } else { a + 1 };
            let b2 = if b < i { b } else { b + 1 };
            assert(t[a] == s[a2]);
            assert(t[b] == s[b2]);
        }
    }
    let k = s[i].0;
    assert forall|q: Seq<char>| #[trigger]
        entries_map(t).contains_key(q) == entries_map(s).remove(k).contains_key(q) by {
        lemma_entries_map_dom(s, q);
        lemma_entries_map_dom(t, q);
        if has_key(t, q) {
            let a = choose|a: int| 0 <= a < t.len() && #[trigger] t[a].0 == q;
            let a2 = if a < i { a } else { a + 1 };
            assert(t[a] == s[a2]);
            assert(s[a2].0 == q);
        }
        if has_key(s, q) && q != k {
            let j = choose|j: int| 0 <= j < s.len() && #[trigger] s[j].0 == q;
            let j2 = if j < i { j } else { j - 1 };
            assert(t[j2] == s[j]);
        }
    }
    assert forall|q: Seq<char>| #[trigger] entries_map(t).contains_key(q) implies entries_map(
        t,
    )[q] == entries_map(s).remove(k)[q] by {
        lemma_entries_map_dom(t, q);
        let a = choose|a: int| 0 <= a < t.len() && #[trigger] t[a].0 == q;
        let a2 = if a < i { a } else { a + 1 };
        assert(t[a] == s[a2]);
        lemma_entries_map_at(t, a);
        lemma_entries_map_at(s, a2);
    }
    assert(entries_map(t) =~= entries_map(s).remove(k));
}

/// Whether the playlist under `name` has to be loaded at `now`: it is not
/// cached, or its expiry is not after `now`.
pub open spec fn needs_load(m: Map<Seq<char>, CachedPlaylistView>, name: Seq<char>, now: int) -> bool {
    !m.contains_key(name) || m[name].expires_at <= now
}

/// The playlists of a map whose expiry lies after `now`.
pub open spec fn unexpired(m: Map<Seq<char>, CachedPlaylistView>, now: int) -> Map<
    Seq<char>,
    CachedPlaylistView,
> {
    m.restrict(m.dom().filter(|k: Seq<char>| now < m[k].expires_at))
}

/// Entries with distinct keys, added one after the other, give the map
/// they stand for: no entry replaces another.
proof fn lemma_last_wins_distinct<V>(s: Seq<(Seq<char>, V)>)
    requires
        unique_keys(s),
    ensures
        last_wins(s) == entries_map(s),
    decreases s.len(),
{
    if s.len() == 0 {
        assert(entries_map(s) =~= Map::<Seq<char>, V>::empty());
    } else {
        let t = s.drop_last();
        lemma_unique_take(s, s.len() - 1);
        assert(t =~= s.take(s.len() - 1));
        lemma_last_wins_distinct(t);
        assert(!has_key(t, s.last().0));
        lemma_entries_map_push(t, s.last().0, s.last().1);
        assert(t.push((s.last().0, s.last().1)) =~= s);
    }
}

/// Saving and reloading keep the cache: a cache built with `from_parts`
/// from the entries of a cache (`Cache::entries`), with its path and token,
/// has the same playlists, path and token.
pub proof fn lemma_entries_round_trip(c: Cache, entries: Seq<(Seq<char>, CachedPlaylistView)>, d: Cache)
    requires
        unique_keys(entries),
        entries_map(entries) == c.playlists(),
        d.playlists() == last_wins(entries),
        d.path() == c.path(),
        d.cached_token() == c.cached_token(),
    ensures
        d.playlists() == c.playlists(),
        d.path() == c.path(),
        d.cached_token() == c.cached_token(),
{
    lemma_last_wins_distinct(entries);
}

/// The first entries of a list with distinct keys have distinct keys.
proof fn lemma_unique_take<V>(s: Seq<(Seq<char>, V)>, i: int)
    requires
        unique_keys(s),
        0 <= i <= s.len(),
    ensures
        unique_keys(s.take(i)),
        forall|j: int| i <= j < s.len() ==> !has_key(#[trigger] s.take(i), s[j].0),
{
    let t = s.take(i);
    assert forall|a: int, b: int|
        0 <= a < t.len() && 0 <= b < t.len() && a != b implies #[trigger] t[a].0
        != #[trigger] t[b].0 by {
        assert(t[a] == s[a]);
        assert(t[b] == s[b]);
    }
    assert forall|j: int| i <= j < s.len() implies !has_key(#[trigger] s.take(i), s[j].0) by {
        if has_key(t, s[j].0) {
            let a = choose|a: int| 0 <= a < t.len() && #[trigger] t[a].0 == s[j].0;
            assert(t[a] == s[a]);
        }
    }
}

/// Adding a playlist with a new name to a map adds it to the unexpired
/// part exactly when it has not expired.
proof fn lemma_unexpired_insert(
    m: Map<Seq<char>, CachedPlaylistView>,
    k: Seq<char>,
    v: CachedPlaylistView,
    now: int,
)
    requires
        !m.contains_key(k),
    ensures
        unexpired(m.insert(k, v), now) == if now < v.expires_at {
            unexpired(m, now).insert(k, v)
        } else {
            unexpired(m, now)
        },
{
    if now < v.expires_at {
        assert(unexpired(m.insert(k, v), now) =~= unexpired(m, now).insert(k, v));
    } else {
        assert(unexpired(m.insert(k, v), now) =~= unexpired(m, now));
    }
}

/// The playlist that caching a track leaves under `name`: the cached one
/// with the track appended, or a new one named `name` that holds just the
/// track and expires a playlist lifetime after `now`.
pub open spec fn playlist_with_track(
    m: Map<Seq<char>, CachedPlaylistView>,
    name: Seq<char>,
    track: (Seq<char>, Seq<char>),
    now: int,
) -> CachedPlaylistView {
    if m.contains_key(name) {
        CachedPlaylistView { tracks: m[name].tracks.push(track), ..m[name] }
    } else {
        CachedPlaylistView {
            name,
            tracks: seq![track],
            expires_at: (now + playlist_lifetime()) as i64,
        }
    }
}

/// Every playlist of the map has at least one track.
pub open spec fn all_nonempty(m: Map<Seq<char>, CachedPlaylistView>) -> bool {
    forall|k: Seq<char>| #[trigger] m.contains_key(k) ==> m[k].tracks.len() > 0
}

/// Caching a track leaves a playlist with that track as its last one; a
/// playlist that was cached keeps its name, earlier tracks and expiry, and
/// a new one expires a playlist lifetime after the time of caching.
pub proof fn lemma_caching_appends_track(
    m: Map<Seq<char>, CachedPlaylistView>,
    name: Seq<char>,
    track: (Seq<char>, Seq<char>),
    now: int,
)
    requires
        0 <= now,
        now + playlist_lifetime() <= MAX_TIMESTAMP_MICROS,
    ensures
        playlist_with_track(m, name, track, now).tracks.len() > 0,
        playlist_with_track(m, name, track, now).tracks.last() == track,
        m.contains_key(name) ==> {
            &&& playlist_with_track(m, name, track, now).tracks.drop_last() == m[name].tracks
            &&& playlist_with_track(m, name, track, now).expires_at == m[name].expires_at
            &&& playlist_with_track(m, name, track, now).name == m[name].name
        },
        !m.contains_key(name) ==> playlist_with_track(m, name, track, now).expires_at == now
            + playlist_lifetime(),
{
    if m.contains_key(name) {
        assert(m[name].tracks.push(track).drop_last() =~= m[name].tracks);
    }
}

/// Empty playlists are never cached: where every cached playlist has a
/// track, that stays so when a track is cached and when expired playlists
/// are retired.
pub proof fn lemma_no_empty_playlists(
    m: Map<Seq<char>, CachedPlaylistView>,
    name: Seq<char>,
    track: (Seq<char>, Seq<char>),
    now: int,
)
    requires
        all_nonempty(m),
    ensures
        all_nonempty(m.insert(name, playlist_with_track(m, name, track, now))),
        all_nonempty(unexpired(m, now)),
{
    let m2 = m.insert(name, playlist_with_track(m, name, track, now));
    assert forall|k: Seq<char>| #[trigger] m2.contains_key(k) implies m2[k].tracks.len() > 0 by {
        if k != name {
            assert(m.contains_key(k));
        }
    }
}

/// Retiring keeps exactly the playlists that have not expired, with their
/// contents, and retiring again at the same time changes nothing.
pub proof fn lemma_retire_keeps_unexpired(m: Map<Seq<char>, CachedPlaylistView>, now: int)
    ensures
        forall|k: Seq<char>| #[trigger]
            unexpired(m, now).contains_key(k) <==> m.contains_key(k) && now < m[k].expires_at,
        forall|k: Seq<char>| #[trigger]
            unexpired(m, now).contains_key(k) ==> unexpired(m, now)[k] == m[k],
        unexpired(unexpired(m, now), now) == unexpired(m, now),
{
    assert(unexpired(unexpired(m, now), now) =~= unexpired(m, now));
}

/// Retiring at an instant leaves no playlist whose expiry is at or before
/// it, and keeps every other one as it was; retiring later keeps no more
/// than retiring earlier.
pub proof fn lemma_retire_drops_every_expired(
    m: Map<Seq<char>, CachedPlaylistView>,
    now: int,
    later: int,
)
    requires
        now <= later,
    ensures
        forall|k: Seq<char>|
            m.contains_key(k) && #[trigger] m[k].expires_at <= now ==> !unexpired(
                m,
                now,
            ).contains_key(k),
        forall|k: Seq<char>|
            m.contains_key(k) && now < #[trigger] m[k].expires_at ==> unexpired(m, now).contains_key(
                k,
            ) && unexpired(m, now)[k] == m[k],
        unexpired(m, later).dom().subset_of(unexpired(m, now).dom()),
{
}

/// A playlist has to be loaded exactly where it is not cached or its
/// cached copy has expired at the instant of the decision; once it has to
/// be loaded, it has to be at every later instant too.
pub proof fn lemma_load_when_absent_or_expired(
    m: Map<Seq<char>, CachedPlaylistView>,
    name: Seq<char>,
    now: int,
    later: int,
)
    requires
        now <= later,
    ensures
        !m.contains_key(name) ==> needs_load(m, name, now),
        m.contains_key(name) && m[name].expires_at <= now ==> needs_load(m, name, now),
        m.contains_key(name) && now < m[name].expires_at ==> !needs_load(m, name, now),
        needs_load(m, name, now) ==> needs_load(m, name, later),
{
}

/// Caching a track at an instant: a playlist that was not cached is created
/// with that track alone, expiring 26 hours after the instant; a cached one
/// gets the track at its end and keeps its name and expiry. No other
/// playlist changes.
pub proof fn lemma_cached_track_lifetime(
    m: Map<Seq<char>, CachedPlaylistView>,
    name: Seq<char>,
    track: (Seq<char>, Seq<char>),
    now: int,
    other: Seq<char>,
)
    requires
        0 <= now,
        now + playlist_lifetime() <= MAX_TIMESTAMP_MICROS,
        other != name,
    ensures
        !m.contains_key(name) ==> {
            let p = m.insert(name, playlist_with_track(m, name, track, now))[name];
            &&& p.expires_at == now + 26 * MICROS_PER_HOUR
            &&& p.tracks == seq![track]
            &&& p.name == name
        },
        m.contains_key(name) ==> {
            let p = m.insert(name, playlist_with_track(m, name, track, now))[name];
            &&& p.expires_at == m[name].expires_at
            &&& p.name == m[name].name
            &&& p.tracks.len() == m[name].tracks.len() + 1
            &&& p.tracks.last() == track
            &&& p.tracks.drop_last() == m[name].tracks
        },
        m.insert(name, playlist_with_track(m, name, track, now)).contains_key(other)
            == m.contains_key(other),
        m.contains_key(other) ==> m.insert(name, playlist_with_track(m, name, track, now))[other]
            == m[other],
{
    if m.contains_key(name) {
        assert(m[name].tracks.push(track).drop_last() =~= m[name].tracks);
    }
}

/// Cache for playlists and the access token. Loaded from a file at start
/// and saved to it at exit.
pub struct Cache {
    file_path: String,
    playlists_by_name: Vec<(String, CachedPlaylist)>,
    token: Token,
}

/// The views of cache entries.
pub open spec fn entry_views(v: Seq<(String, CachedPlaylist)>) -> Seq<
    (Seq<char>, CachedPlaylistView),
> {
    v.map_values(|e: (String, CachedPlaylist)| (e.0@, e.1@))
}

/// The position of the entry with key `name`, if there is one.
fn find_key(entries: &Vec<(String, CachedPlaylist)>, name: &str) -> (r: Option<usize>)
    ensures
        r is None ==> !has_key(entry_views(entries@), name@),
        r matches Some(i) ==> i < entries@.len() && entries@[i as int].0@ == name@,
{
    let k = owned(name);
    let mut i: usize = 0;
    while i < entries.len()
        invariant
            i <= entries@.len(),
            k@ == name@,
            forall|j: int| 0 <= j < i ==> entries@[j].0@ != name@,
        decreases entries@.len() - i,
    {
        if entries[i].0 == k {
            return Some(i);
        }
        i = i + 1;
    }
    proof {
        let s = entry_views(entries@);
        assert forall|j: int| 0 <= j < s.len() implies #[trigger] s[j].0 != name@ by {
            assert(s[j].0 == entries@[j].0@);
        }
    }
    None
}

impl Cache {
    #[verifier::type_invariant]
    spec fn keys_are_unique(self) -> bool {
        unique_keys(entry_views(self.playlists_by_name@))
    }

    /// The cached playlists, by name.
    pub closed spec fn playlists(&self) -> Map<Seq<char>, CachedPlaylistView> {
        entries_map(entry_views(self.playlists_by_name@))
    }

    /// The file the cache is kept in.
    pub closed spec fn path(&self) -> Seq<char> {
        self.file_path@
    }

    /// The cached token.
    pub closed spec fn cached_token(&self) -> Token {
        self.token
    }

    /// An empty cache, kept in `file_path`, with an empty token that
    /// expires now.
    pub fn new(file_path: &str) -> (r: Cache)
        ensures
            r.playlists() == Map::<Seq<char>, CachedPlaylistView>::empty(),
            r.path() == file_path@,
            r.cached_token().access_token is None,
            r.cached_token().refresh_token is None,
            0 <= r.cached_token().expires_at <= MAX_TIMESTAMP_MICROS,
    {
        let r = Cache {
            file_path: owned(file_path),
            playlists_by_name: Vec::new(),
            token: Token::default(),
        };
        assert(r.playlists() =~= Map::<Seq<char>, CachedPlaylistView>::empty());
        r
    }

    /// A cache with the given entries (name and playlist), added in order:
    /// a later entry for a name replaces an earlier one.
    pub fn from_parts(file_path: String, entries: Vec<(String, CachedPlaylist)>, token: Token) -> (r:
        Cache)
        ensures
            r.playlists() == last_wins(entry_views(entries@)),
            r.path() == file_path@,
            r.cached_token() == token,
    {
        let mut cache = Cache { file_path, playlists_by_name: Vec::new(), token };
        assert(cache.playlists() =~= Map::<Seq<char>, CachedPlaylistView>::empty());
        let ghost src = entry_views(entries@);
        let ghost n = src.len();
        assert(n == entries@.len());
        let mut rest = entries;
        let total = rest.len();
        let mut added: usize = 0;
        while rest.len() > 0
            invariant
                n == src.len(),
                n == total,
                added + rest@.len() == n,
                entry_views(rest@) == src.subrange(added as int, n as int),
                cache.playlists() == last_wins(src.take(added as int)),
                cache.path() == file_path@,
                cache.cached_token() == token,
            decreases rest@.len(),
        {
            let ghost r0 = entry_views(rest@);
            let e = rest.remove(0);
            proof {
                assert(r0[0] == src[added as int]);
                assert(entry_views(rest@) =~= r0.subrange(1, r0.len() as int));
                assert(entry_views(rest@) =~= src.subrange(added + 1, n as int));
                assert(src.take(added + 1).drop_last() =~= src.take(added as int));
            }
            cache.insert_playlist(e.0, e.1);
            added = added + 1;
        }
        assert(src.take(n as int) =~= src);
        cache
    }

    /// Puts `playlist` under `name`, replacing any playlist cached under it.
    pub fn insert_playlist(&mut self, name: String, playlist: CachedPlaylist)
        ensures
            final(self).playlists() == old(self).playlists().insert(name@, playlist@),
            final(self).path() == old(self).path(),
            final(self).cached_token() == old(self).cached_token(),
    {
        proof {
            use_type_invariant(&*self);
        }
        let mut entries: Vec<(String, CachedPlaylist)> = Vec::new();
        std::mem::swap(&mut entries, &mut self.playlists_by_name);
        let ghost s = entry_views(entries@);
        match find_key(&entries, name.as_str()) {
            Some(i) => {
                let ghost v = playlist@;
                let ghost k = name@;
                let _ = entries.remove(i);
                entries.insert(i, (name, playlist));
                proof {
                    assert(entry_views(entries@) =~= s.update(i as int, (s[i as int].0, v)));
                    lemma_entries_map_update(s, i as int, v);
                }
            },
            None => {
                let ghost v = playlist@;
                let ghost k = name@;
                entries.push((name, playlist));
                proof {
                    assert(entry_views(entries@) =~= s.push((k, v)));
                    lemma_entries_map_push(s, k, v);
                }
            },
        }
        self.playlists_by_name = entries;
    }

    /// The file the cache is kept in.
    pub fn file_path(&self) -> (r: &String)
        ensures
            r@ == self.path(),
    {
        &self.file_path
    }

    /// Keeps the cache in `file_path` from now on.
    pub fn set_file_path(&mut self, file_path: String)
        ensures
            final(self).path() == file_path@,
            final(self).playlists() == old(self).playlists(),
            final(self).cached_token() == old(self).cached_token(),
    {
        proof {
            use_type_invariant(&*self);
        }
        self.file_path = file_path;
    }

    /// The cached token.
    pub fn token(&self) -> (r: &Token)
        ensures
            *r == self.cached_token(),
    {
        &self.token
    }

    /// Replaces the cached token.
    pub fn set_token(&mut self, token: Token)
        ensures
            final(self).cached_token() == token,
            final(self).playlists() == old(self).playlists(),
            final(self).path() == old(self).path(),
    {
        proof {
            use_type_invariant(&*self);
        }
        self.token = token;
    }

    /// The cached entries, name and playlist, in no particular order.
    pub fn entries(&self) -> (r: &Vec<(String, CachedPlaylist)>)
        ensures
            unique_keys(entry_views(r@)),
            entries_map(entry_views(r@)) == self.playlists(),
    {
        proof {
            use_type_invariant(self);
        }
        &self.playlists_by_name
    }

    /// Whether a playlist is cached under `name`.
    pub fn contains_playlist(&self, name: &str) -> (r: bool)
        ensures
            r == self.playlists().contains_key(name@),
    {
        proof {
            use_type_invariant(self);
            lemma_entries_map_dom(entry_views(self.playlists_by_name@), name@);
        }
        let found = find_key(&self.playlists_by_name, name);
        proof {
            if let Some(i) = found {
                assert(entry_views(self.playlists_by_name@)[i as int].0 == name@);
            }
        }
        found.is_some()
    }

    /// The playlist cached under `name`, if any.
    pub fn playlist(&self, name: &str) -> (r: Option<&CachedPlaylist>)
        ensures
            r is Some == self.playlists().contains_key(name@),
            r matches Some(p) ==> p@ == self.playlists()[name@],
    {
        proof {
            use_type_invariant(self);
            lemma_entries_map_dom(entry_views(self.playlists_by_name@), name@);
        }
        match find_key(&self.playlists_by_name, name) {
            None => None,
            Some(i) => {
                proof {
                    let s = entry_views(self.playlists_by_name@);
                    assert(s[i as int].0 == name@);
                    lemma_entries_map_at(s, i as int);
                }
                Some(&self.playlists_by_name[i].1)
            },
        }
    }

    /// Decides at `now` whether the playlist under `name` has to be loaded:
    /// where it is cached and has not expired, it is kept and `false` is
    /// returned; otherwise any expired copy is dropped, so that loading
    /// starts afresh, and `true` is returned.
    pub fn prepare_load_at(&mut self, name: &str, now: i64) -> (r: bool)
        ensures
            r == needs_load(old(self).playlists(), name@, now as int),
            r ==> final(self).playlists() == old(self).playlists().remove(name@),
            !r ==> final(self).playlists() == old(self).playlists(),
            final(self).path() == old(self).path(),
            final(self).cached_token() == old(self).cached_token(),
    {
        proof {
            use_type_invariant(&*self);
        }
        let ghost m = self.playlists();
        let mut entries: Vec<(String, CachedPlaylist)> = Vec::new();
        std::mem::swap(&mut entries, &mut self.playlists_by_name);
        let ghost s = entry_views(entries@);
        proof {
            lemma_entries_map_dom(s, name@);
        }
        match find_key(&entries, name) {
            None => {
                proof {
                    assert(m.remove(name@) =~= m);
                }
                self.playlists_by_name = entries;
                true
            },
            Some(i) => {
                proof {
                    assert(s[i as int].0 == name@);
                    lemma_entries_map_at(s, i as int);
                }
                if now < entries[i].1.expires_at {
                    self.playlists_by_name = entries;
                    false
                } else {
                    let _ = entries.remove(i);
                    proof {
                        assert(entry_views(entries@) =~= s.remove(i as int));
                        lemma_entries_map_remove(s, i as int);
                    }
                    self.playlists_by_name = entries;
                    true
                }
            },
        }
    }

    /// Decides at the current time whether the playlist under `name` has to
    /// be loaded, dropping an expired copy (see `prepare_load_at`).
    pub fn prepare_load(&mut self, name: &str) -> (r: bool)
        ensures
            exists|now: int|
                0 <= now <= MAX_TIMESTAMP_MICROS && r == #[trigger] needs_load(
                    old(self).playlists(),
                    name@,
                    now,
                ),
            r ==> final(self).playlists() == old(self).playlists().remove(name@),
            !r ==> final(self).playlists() == old(self).playlists(),
            final(self).path() == old(self).path(),
            final(self).cached_token() == old(self).cached_token(),
    {
        let now = now_micros();
        self.prepare_load_at(name, now)
    }

    /// Adds a track to the playlist cached under `playlist_name`, creating
    /// the playlist at `now` if it is not cached: a new playlist expires 26
    /// hours later.
    pub fn cache_track_at(
        &mut self,
        now: i64,
        playlist_name: &str,
        track_name: &str,
        track_uri: &str,
    )
        requires
            0 <= now,
            now + playlist_lifetime() <= MAX_TIMESTAMP_MICROS,
        ensures
            final(self).playlists() == old(self).playlists().insert(
                playlist_name@,
                playlist_with_track(
                    old(self).playlists(),
                    playlist_name@,
                    (track_name@, track_uri@),
                    now as int,
                ),
            ),
            final(self).path() == old(self).path(),
            final(self).cached_token() == old(self).cached_token(),
    {
        proof {
            use_type_invariant(&*self);
        }
        let ghost m = self.playlists();
        let track = CachedTrack { name: owned(track_name), uri: owned(track_uri) };
        let mut entries: Vec<(String, CachedPlaylist)> = Vec::new();
        std::mem::swap(&mut entries, &mut self.playlists_by_name);
        let ghost s = entry_views(entries@);
        match find_key(&entries, playlist_name) {
            Some(i) => {
                let (key, mut playlist) = entries.remove(i);
                let ghost before = playlist@;
                proof {
                    assert(s[i as int] == (key@, before));
                    lemma_entries_map_at(s, i as int);
                }
                playlist.tracks.push(track);
                let ghost after = playlist@;
                proof {
                    assert(after.tracks =~= before.tracks.push((track_name@, track_uri@)));
                    assert(after == playlist_with_track(
                        m,
                        playlist_name@,
                        (track_name@, track_uri@),
                        now as int,
                    ));
                }
                entries.insert(i, (key, playlist));
                proof {
                    assert(entry_views(entries@) =~= s.update(i as int, (s[i as int].0, after)));
                    lemma_entries_map_update(s, i as int, after);
                }
            },
            None => {
                proof {
                    lemma_entries_map_dom(s, playlist_name@);
                }
                let mut tracks: Vec<CachedTrack> = Vec::new();
                tracks.push(track);
                let playlist = CachedPlaylist {
                    name: owned(playlist_name),
                    tracks,
                    expires_at: now + 26 * MICROS_PER_HOUR,
                };
                let ghost v = playlist@;
                proof {
                    assert(v.tracks =~= seq![(track_name@, track_uri@)]);
                    assert(v == playlist_with_track(
                        m,
                        playlist_name@,
                        (track_name@, track_uri@),
                        now as int,
                    ));
                }
                entries.push((owned(playlist_name), playlist));
                proof {
                    assert(entry_views(entries@) =~= s.push((playlist_name@, v)));
                    lemma_entries_map_push(s, playlist_name@, v);
                }
            },
        }
        self.playlists_by_name = entries;
    }

    /// Adds a track to the playlist cached under `playlist_name`, creating
    /// the playlist now if it is not cached (it then expires 26 hours
    /// later). Where the clock reads less than 26 hours before the last
    /// representable instant, a new playlist expires at that last instant.
    pub fn cache_track(&mut self, playlist_name: &str, track_name: &str, track_uri: &str)
        ensures
            exists|now: int|
                0 <= now && now + playlist_lifetime() <= MAX_TIMESTAMP_MICROS && final(self).playlists() == old(self).playlists().insert(
                    playlist_name@,
                    #[trigger] playlist_with_track(
                        old(self).playlists(),
                        playlist_name@,
                        (track_name@, track_uri@),
                        now,
                    ),
                ),
            final(self).path() == old(self).path(),
            final(self).cached_token() == old(self).cached_token(),
    {
        let read = now_micros();
        let latest = MAX_TIMESTAMP_MICROS - 26 * MICROS_PER_HOUR;
        let now = if read > latest {
            latest
        } else {
            read
        };
        self.cache_track_at(now, playlist_name, track_name, track_uri);
    }

    /// Takes one result of loading a playlist's tracks: a track that was
    /// loaded is cached, a failure is passed over so that the rest of the
    /// playlist still loads. Returns whether a track was cached.
    pub fn record_track_result(
        &mut self,
        playlist_name: &str,
        result: &Result<(String, String), SpotifyError>,
    ) -> (r: bool)
        ensures
            r == result is Ok,
            result is Err ==> final(self).playlists() == old(self).playlists(),
            result matches Ok(t) ==> exists|now: int|
                0 <= now && now + playlist_lifetime() <= MAX_TIMESTAMP_MICROS && final(self).playlists() == old(self).playlists().insert(
                    playlist_name@,
                    #[trigger] playlist_with_track(
                        old(self).playlists(),
                        playlist_name@,
                        (t.0@, t.1@),
                        now,
                    ),
                ),
            final(self).path() == old(self).path(),
            final(self).cached_token() == old(self).cached_token(),
    {
        match result {
            Err(_) => false,
            Ok((name, uri)) => {
                self.cache_track(playlist_name, name.as_str(), uri.as_str());
                true
            },
        }
    }

    /// Removes the playlists that have expired at `now`: only those whose
    /// expiry lies after `now` stay.
    pub fn retire_playlists_at(&mut self, now: i64)
        ensures
            final(self).playlists() == unexpired(old(self).playlists(), now as int),
            final(self).path() == old(self).path(),
            final(self).cached_token() == old(self).cached_token(),
    {
        proof {
            use_type_invariant(&*self);
        }
        let ghost m = self.playlists();
        let mut rest: Vec<(String, CachedPlaylist)> = Vec::new();
        std::mem::swap(&mut rest, &mut self.playlists_by_name);
        let ghost s = entry_views(rest@);
        let ghost n = s.len();
        assert(n == rest@.len());
        let total = rest.len();
        let mut kept: Vec<(String, CachedPlaylist)> = Vec::new();
        let mut done: usize = 0;
        proof {
            assert(entries_map(entry_views(kept@)) =~= unexpired(
                entries_map(s.take(0)),
                now as int,
            ));
        }
        while rest.len() > 0
            invariant
                unique_keys(s),
                m == entries_map(s),
                n == s.len(),
                n == total,
                done + rest@.len() == n,
                entry_views(rest@) == s.subrange(done as int, n as int),
                unique_keys(entry_views(kept@)),
                entries_map(entry_views(kept@)) == unexpired(
                    entries_map(s.take(done as int)),
                    now as int,
                ),
            decreases rest@.len(),
        {
            let ghost r0 = entry_views(rest@);
            let ghost kv0 = entry_views(kept@);
            let e = rest.remove(0);
            let ghost ev = (e.0@, e.1@);
            proof {
                assert(r0[0] == s[done as int]);
                assert(ev == s[done as int]);
                assert(entry_views(rest@) =~= r0.subrange(1, r0.len() as int));
                assert(entry_views(rest@) =~= s.subrange(done + 1, n as int));
                lemma_unique_take(s, done as int);
                lemma_unique_take(s, done + 1);
                assert(s.take(done + 1) =~= s.take(done as int).push(ev));
                assert(!has_key(s.take(done as int), ev.0));
                lemma_entries_map_push(s.take(done as int), ev.0, ev.1);
                lemma_unexpired_insert(entries_map(s.take(done as int)), ev.0, ev.1, now as int);
                lemma_entries_map_dom(kv0, ev.0);
            }
            if now < e.1.expires_at {
                kept.push(e);
                proof {
                    assert(entry_views(kept@) =~= kv0.push(ev));
                    lemma_entries_map_push(kv0, ev.0, ev.1);
                }
            }
            done = done + 1;
        }
        proof {
            assert(s.take(n as int) =~= s);
        }
        self.playlists_by_name = kept;
    }

    /// Removes the playlists that have expired by the current time.
    pub fn retire_playlists(&mut self)
        ensures
            exists|now: int|
                0 <= now <= MAX_TIMESTAMP_MICROS && final(self).playlists() == #[trigger] unexpired(
                    old(self).playlists(),
                    now,
                ),
            final(self).path() == old(self).path(),
            final(self).cached_token() == old(self).cached_token(),
    {
        let now = now_micros();
        self.retire_playlists_at(now);
    }
}

/// `rand::seq::index::sample` with the thread-local generator: `amount`
/// distinct indices below `length`, in random order. The source panics
/// where `amount > length`; which indices come back is left to chance.
#[verifier::external_body]
fn sample_indices(length: usize, amount: usize) -> (r: Vec<usize>)
    requires
        amount <= length,
    ensures
        r@.len() == amount,
        forall|i: int| 0 <= i < r@.len() ==> r@[i] < length,
        r@.no_duplicates(),
{
    rand::seq::index::sample(&mut rand::thread_rng(), length, amount).into_vec()
}

/// The tracks at `indices`, in the order of `indices`.
pub fn tracks_at<'a>(tracks: &'a [CachedTrack], indices: &Vec<usize>) -> (r: Vec<&'a CachedTrack>)
    requires
        forall|i: int| 0 <= i < indices@.len() ==> indices@[i] < tracks@.len(),
    ensures
        r@.len() == indices@.len(),
        forall|i: int| 0 <= i < indices@.len() ==> *r@[i] == tracks@[#[trigger] indices@[i] as int],
{
    let mut r: Vec<&CachedTrack> = Vec::new();
    let mut k: usize = 0;
    while k < indices.len()
        invariant
            k <= indices@.len(),
            forall|i: int| 0 <= i < indices@.len() ==> indices@[i] < tracks@.len(),
            r@.len() == k,
            forall|i: int| 0 <= i < k ==> *r@[i] == tracks@[#[trigger] indices@[i] as int],
        decreases indices@.len() - k,
    {
        r.push(&tracks[indices[k]]);
        k = k + 1;
    }
    r
}

/// Draws `number_of_songs` tracks at random (all of them, in random order,
/// where the playlist has fewer), each track at most once.
pub fn select_random_tracks(tracks: &[CachedTrack], number_of_songs: usize) -> (r: Vec<
    &CachedTrack,
>)
    ensures
        r@.len() == if number_of_songs < tracks@.len() {
            number_of_songs as int
        } else {
            tracks@.len() as int
        },
        exists|picked: Seq<int>|
            {
                &&& picked.len() == r@.len()
                &&& picked.no_duplicates()
                &&& forall|i: int|
                    0 <= i < picked.len() ==> 0 <= #[trigger] picked[i] < tracks@.len() && *r@[i]
                        == tracks@[picked[i]]
            },
{
    let amount = if number_of_songs < tracks.len() {
        number_of_songs
    } else {
        tracks.len()
    };
    let indices = sample_indices(tracks.len(), amount);
    let r = tracks_at(tracks, &indices);
    let ghost picked = indices@.map_values(|i: usize| i as int);
    proof {
        assert forall|i: int| 0 <= i < picked.len() implies 0 <= #[trigger] picked[i]
            < tracks@.len() && *r@[i] == tracks@[picked[i]] by {
            assert(picked[i] == indices@[i] as int);
        }
        assert forall|a: int, b: int|
            0 <= a < picked.len() && 0 <= b < picked.len() && a != b implies picked[a]
            != picked[b] by {
            assert(indices@[a] != indices@[b]);
        }
        assert(picked.no_duplicates());
    }
    r
}

} // verus!
