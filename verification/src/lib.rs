//! Verified core of a command-line tool that fills the Spotify playback
//! queue with a random selection of tracks from one of the user's playlists.
//!
//! The library holds the decisions of the tool: parsing the OAuth redirect
//! callback, building authorization and API requests, the token life cycle,
//! paging through API listings, and the playlist cache with its expiry.
//! Network, file and terminal work happens around it.
use vstd::prelude::*;

pub mod cache;
pub mod clock;
pub mod encoding;
pub mod http_listener;
pub mod session;
pub mod spotify;
pub mod text;

verus! {

} // verus!
