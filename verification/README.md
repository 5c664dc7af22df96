# dl_omni

The core of the DL-Omni download manager as a Verus-verified library, with
the desktop shell around it.

- `src/` — the verified library.
  - `models.rs`: tasks and their states, media descriptions, settings, the
    resumable chunk state.
  - `text.rs`: character-level string operations with their specifications
    (trim, replace, search, concatenation).
  - `utils.rs`: platform binary names, file-name cleaning, direct-link
    recognition, the free-space decision.
  - `ytdlp.rs`: yt-dlp command lines, ETA and size units, format selectors,
    reading its JSON metadata and its output lines.
  - `downloader.rs`: the native engine's decisions — the saved file name,
    the split into byte ranges, resuming, probing the server, request
    headers and the final integrity check.
  - `workers.rs`: the range and stream workers as state machines (where
    bytes go, retry and back-off rules).
  - `updater.rs`: whether yt-dlp is current and which release asset to
    fetch for yt-dlp and ffmpeg.
  - `config.rs`, `progress.rs`: the settings holder, its defaults and the
    filling of fields an older settings file lacks; the progress report
    that closes a task and the limit on simultaneous downloads.
- `tests/` — tests of the library on concrete values.
- `app/` — the Tauri application: commands, SQLite storage, settings file,
  processes, HTTP transfers, timers and the sniffer's web view. It calls the
  library for its decisions; what it computes itself is the floating point
  progress figures (percentages, speeds, durations, time left), the clock
  reading and the random task identifiers.
