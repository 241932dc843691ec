//! Data of Spotify Web API responses, as the tool reads it.
//! See <https://developer.spotify.com/documentation/web-api/reference/>.
use vstd::prelude::*;

verus! {

/// One page of a paginated listing.
#[derive(Debug)]
pub struct PaginatedResponse<T> {
    /// Number of items in the whole listing.
    pub total: usize,
    /// Items of this page.
    pub items: Vec<T>,
}

/// A playlist of the user's library.
#[derive(Debug)]
pub struct Playlist {
    pub name: String,
    pub id: String,
}

/// A track.
#[derive(Debug)]
pub struct Track {
    pub name: String,
    pub uri: String,
}

/// An entry of the user's saved tracks.
#[derive(Debug)]
pub struct SavedTrackObject {
    pub track: Track,
}

/// An entry of a playlist.
#[derive(Debug)]
pub struct PlaylistTrackObject {
    pub item: Track,
}

/// An entry of either listing: the same track, under the name `track` in
/// saved tracks and `item` in playlists.
#[derive(Debug)]
pub enum TrackObject {
    SavedTrack(SavedTrackObject),
    PlaylistTrack(PlaylistTrackObject),
}

/// The track that an entry holds.
pub open spec fn entry_track(t: TrackObject) -> Track {
    match t {
        TrackObject::SavedTrack(o) => o.track,
        TrackObject::PlaylistTrack(o) => o.item,
    }
}

impl TrackObject {
    /// The name and URI of the entry's track.
    pub fn into_name_and_uri(self) -> (r: (String, String))
        ensures
            r.0 == entry_track(self).name,
            r.1 == entry_track(self).uri,
    {
        let track = match self {
            TrackObject::SavedTrack(obj) => obj.track,
            TrackObject::PlaylistTrack(obj) => obj.item,
        };
        (track.name, track.uri)
    }
}

/// Reply of the accounts service to a token request (Authorization Code
/// flow or refresh). See
/// <https://developer.spotify.com/documentation/web-api/tutorials/code-flow>.
#[derive(Debug)]
pub struct SpotifyGetAccessTokenResponse {
    pub access_token: String,
    /// Lifetime of the access token, in seconds.
    pub expires_in: u64,
    pub refresh_token: Option<String>,
}

} // verus!
