# rstube

A terminal YouTube player front end: it keeps named playlists and single
videos in a TOML configuration, plays them through mpv with yt-dlp, tracks
the playback position over mpv's IPC socket, and remembers a watch history.

Layout:

- `src/` — the verified library (Verus): time and video reference parsing,
  playlist references, configuration edits, history deduplication, the
  picker's state machine, the IPC request bookkeeping, path and cache rules,
  and the text shown for durations and ages. Each public function carries a
  contract; the `law_*` proof functions state properties that span calls.
- `app/` — the program around it: command line, files, the terminal UI,
  running mpv and yt-dlp, and the serde copies of the configuration types.
- `tests/` — tests of the library on concrete values.
