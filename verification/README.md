# ferroload

The core of the Ferroload BitTorrent client, written in Verus: every
function in `src/` is checked against its `requires` / `ensures` contract.

Layout:

- `src/text.rs`: character helpers (decimal formatting, `str::parse` for
  unsigned numbers, prefix/suffix tests, splitting).
- `src/models.rs`, `src/events.rs`: the torrent, file, peer, statistics and
  configuration records, with their views.
- `src/keyed.rs`: a string-keyed map with distinct keys, viewed as a `Map`.
- `src/magnet.rs`: magnet links and URL decoding.
- `src/torrent_file.rs`: `.torrent` metadata (name, size, files, trackers)
  and the info hash.
- `src/session.rs`: the engine session (adding, pausing, resuming,
  removing torrents, write buffers, statistics, peer lists, discovery,
  restoring from the database) and the laws that hold across its operations.
- `src/settings.rs`: stored settings and the engine configuration they give.
- `src/tracker.rs`: choosing trackers, announce URLs and counting peers.
- `src/web.rs`: the decisions of the HTTP and web socket front end.
- `app/`: the program around the library: HTTP server, database, tracker
  requests, the event loop and the embedded web interface.
- `tests/`: tests of the library on concrete values.
