# rustspo

A command-line tool that fills the Spotify playback queue with a random
selection of tracks from one of the user's playlists, built around a formally
verified library.

- `src/` is the verified library: the OAuth redirect callback
  (`http_listener`), the Spotify integration (`spotify`: reply data, errors,
  token life cycle, request building and paging), the playlist cache with its
  expiry and the random track choice (`cache`), what one run queues and keeps
  (`session`), and the URL, form and Base64 encodings (`encoding`).
- `app/` is the program around it: command-line parsing, the cache file, the
  local HTTP listener, HTTP requests to Spotify and the browser.
- `tests/` exercises the library.

Set `SPOTIFY_CLIENT_ID`, `SPOTIFY_CLIENT_SECRET` and optionally
`SPOTIFY_REDIRECT_URI` (default `http://127.0.0.1:58392`), then run the
program with a playlist name, `-n` for the number of tracks, `--dry-run` to
only print them and `--reauthenticate` to ignore the cached token.
