# ytdlp_sub

The core of a desktop application that follows YouTube (and other yt-dlp supported)
channels, checks them for new videos on a schedule and downloads them with yt-dlp.

`src/` is the library, written and proved with Verus:

- `models/` — subscriptions, download records, settings, health results and the
  import/export types.
- `services/` — the download queue's bookkeeping (`QueueBook`: pause, resume, cancel,
  concurrency changes), record deduplication and count recomputation, the OPML
  format, yt-dlp argument lists and output handling (the channel JSON is read through
  `serde_json`), link health classification and the 429 retry delays,
  path and proxy validation, the scheduler's waits and the tray's state machine.
- `commands/` — the decisions behind each user command: which videos are new since
  the last check, how a check's outcome is recorded, subscription edits, batch
  import (preview, accounting, cancellation) and settings changes.
- `text.rs`, `find.rs`, `stamp.rs`, `web.rs` — string helpers with their proofs, first
  and last matches in sequences, and the calls into `uuid`, `chrono` and `url`.

Each public function states in its `ensures` what it returns or changes; the
properties that span several functions stand as `law_*` proof functions beside them.

`app/` is the program around the library: reading and writing the JSON files,
running yt-dlp and HTTP requests, the process signals, the scheduler loop and the
serde forms of the library's types. `tests/` runs the library on concrete values.

Sets and maps keyed by text (the ids and URLs a check has seen, the ids grouped by
deduplication, the URLs an import has met, the queue's active tasks) are kept in `Vec`s
whose invariants say what a set or map would have given: nothing occurs twice, and
what came first stays first. vstd's `HashMap`/`HashSet` specifications were not tried
for them: their keys are `String`s, for which those specifications let little be
proved, while the order the queue and the deduplication report depends on insertion
order, which a hash map does not keep.
