//! One run of the tool: taking the loaded playlist from the cache, which
//! of the drawn tracks go to the playback queue and in what order, and
//! keeping the client's token in the cache at the end.
use vstd::prelude::*;

use crate::cache::{Cache, CachedPlaylist, CachedTrack};
use crate::spotify::client::Client;
use crate::text::joined;

verus! {

/// The message of the error for a playlist that loading left out of the
/// cache.
pub open spec fn not_in_cache_message(playlist_name: Seq<char>) -> Seq<char> {
    "Playlist not found in cache: "@ + playlist_name
}

/// The playlist that loading put in the cache under `playlist_name`, or
/// the error for one that is not there.
pub fn loaded_playlist<'a>(cache: &'a Cache, playlist_name: &str) -> (r: Result<
    &'a CachedPlaylist,
    String,
>)
    ensures
        r is Ok <==> cache.playlists().contains_key(playlist_name@),
        r matches Ok(p) ==> p@ == cache.playlists()[playlist_name@],
        r matches Err(m) ==> m@ == not_in_cache_message(playlist_name@),
{
    match cache.playlist(playlist_name) {
        Some(p) => Ok(p),
        None => Err(joined("Playlist not found in cache: ", playlist_name)),
    }
}

/// The drawn tracks that go to the playback queue: none in a dry run (the
/// tracks are only shown), otherwise all of them, in the order drawn.
pub fn queue_targets<'a>(drawn: Vec<&'a CachedTrack>, dry_run: bool) -> (r: Vec<&'a CachedTrack>)
    ensures
        dry_run ==> r@.len() == 0,
        !dry_run ==> r@ == drawn@,
{
    if dry_run {
        Vec::new()
    } else {
        drawn
    }
}

/// Queuing tracks one after the other: each in turn, in order, until all
/// are queued or the first one that fails stops the queuing.
pub struct QueueRun<'a> {
    targets: Vec<&'a CachedTrack>,
    next: usize,
    stopped: bool,
}

impl<'a> QueueRun<'a> {
    /// The tracks to queue, in order.
    pub closed spec fn targets(&self) -> Seq<&'a CachedTrack> {
        self.targets@
    }

    /// How many tracks have been queued.
    pub closed spec fn queued(&self) -> nat {
        self.next as nat
    }

    /// Whether a track failed to queue, which stopped the queuing.
    pub closed spec fn stopped(&self) -> bool {
        self.stopped
    }

    /// The queuing of the drawn tracks that `queue_targets` gives: nothing
    /// queued yet.
    pub fn new(drawn: Vec<&'a CachedTrack>, dry_run: bool) -> (r: QueueRun<'a>)
        ensures
            dry_run ==> r.targets().len() == 0,
            !dry_run ==> r.targets() == drawn@,
            r.queued() == 0,
            !r.stopped(),
    {
        QueueRun { targets: queue_targets(drawn, dry_run), next: 0, stopped: false }
    }

    /// The track to queue next: the first one not queued yet, unless all
    /// are queued or the queuing stopped.
    pub fn next_track(&self) -> (r: Option<&'a CachedTrack>)
        ensures
            r is Some <==> !self.stopped() && self.queued() < self.targets().len(),
            r matches Some(t) ==> t == self.targets()[self.queued() as int],
    {
        if !self.stopped && self.next < self.targets.len() {
            Some(self.targets[self.next])
        } else {
            None
        }
    }

    /// Takes whether the track that `next_track` gave was queued: it counts
    /// as queued, or the queuing stops with it.
    pub fn record(&mut self, queued: bool)
        requires
            !old(self).stopped(),
            old(self).queued() < old(self).targets().len(),
        ensures
            final(self).targets() == old(self).targets(),
            queued ==> final(self).queued() == old(self).queued() + 1 && !final(self).stopped(),
            !queued ==> final(self).queued() == old(self).queued() && final(self).stopped(),
    {
        let total = self.targets.len();
        if queued {
            assert(self.next < total);
            self.next = self.next + 1;
        } else {
            self.stopped = true;
        }
    }
}

/// Ends a run: the cache gets the client's current token, whatever the
/// run's result, so that it is kept between runs; the result is passed on
/// as it is.
pub fn finish_run<E>(cache: &mut Cache, client: &Client, result: Result<(), E>) -> (r: Result<(), E>)
    ensures
        final(cache).cached_token() == client.current_token(),
        final(cache).playlists() == old(cache).playlists(),
        final(cache).path() == old(cache).path(),
        r == result,
{
    cache.set_token(client.get_token());
    result
}

} // verus!
