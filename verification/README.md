# Featherpull

A desktop front end for yt-dlp and ffmpeg: paste URLs, pick a quality or
audio format, and the downloads run in a queue with a concurrency limit.

- `src/` is the verified library (Verus). It holds the queue's state machine
  and its laws, the steps of one job, the download form, the GitHub release
  reader (a small JSON parser) and the choice of assets, the archive lookup,
  the yt-dlp and ffmpeg progress readers, the log buffer, and the settings'
  defaults and locations. Contracts are stated over spec functions and views;
  `laws.rs` and `queue_laws.rs` hold the properties that span operations.
- `app/` is the program around it: the egui screens, the tokio runtime that
  runs jobs, the processes, HTTP and file access, the settings file (serde),
  and the floating-point parts of progress display.
- `tests/` exercises the library from outside.
