# dualis

Dualis is a desktop app that downloads songs (YouTube links, searches,
Spotify tracks, playlists and albums) and splits them into vocals and
instrumental stems with an ONNX separation model.

This crate holds the app's logic as a verified library, written with Verus:

- `src/queue.rs` — the job queue (no track queued twice, priority jobs
  first, finished jobs forgotten), with its laws.
- `src/download.rs` — turning input lines into jobs: Spotify titles into
  YouTube searches, yt-dlp's JSON output into batches and track metadata,
  yt-dlp arguments,
  download strategies and retries, and the messages shown for errors.
- `src/playback.rs` — the stem HTTP server's decisions: hex-encoded paths,
  request lines, byte ranges, and which files may be served.
- `src/db.rs` — the track and playlist records and the steps a track goes
  through (queued, downloading, downloaded, separating, ready or error).
- `src/models.rs`, `src/infer.rs`, `src/dsp.rs` — the model catalog, how a
  model's input shape adjusts its configuration, tensor packing, CPU
  fallback, and the integer side of the signal path (padding, chunking,
  overview buckets, durations).
- `src/commands.rs`, `src/tools.rs` — settings and their defaults, export
  file names, what the job runner does with a queued track, and the
  per-platform tool names.
- `src/json.rs` — JSON documents as a tree of plain values, parsed by
  serde_json, and the lookups made in yt-dlp's and Spotify's answers.
- `src/text.rs` — the string functions the rest is written with, each
  specified over `Seq<char>`.

`app/` is the Tauri shell around it: commands, SQLite, file and network I/O,
audio decoding, STFT and ONNX inference (floating point), all of which call
into the library for their decisions. `tests/` runs the library on concrete
values.
