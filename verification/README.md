# abi_yt_downloader

A desktop video downloader built around `yt-dlp` and `ffmpeg`.

- `src/` is the verified library (Verus): parsing of the download tool's
  progress lines, reading of its JSON description of a video (`json.rs`,
  through `serde_json`), quality selection and ordering, the command lines
  for the outside tools (folder joined with the configured file-name
  template, existing files skipped or overwritten), the retry decision,
  the bookkeeping of active downloads and their cancellation handles, the
  download history and the default settings.  `src/laws.rs` holds the
  properties that relate several operations.
- `app/` is the Tauri application around it: the commands the front end
  invokes, the processes it runs (again after a failure, as the library's
  retry decision allows), the files it reads and writes, the platform's
  download folder, and the floating-point parts of progress reporting.
- `tests/` exercises the library on concrete values.
