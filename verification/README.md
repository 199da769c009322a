# graybrowser

A desktop catalog for a local video library: it scans watch folders,
follows files that move, watches local drives and polls network shares,
keeps six WebP thumbnails per video, imports legacy WhiteBrowser `.wb`
libraries and reports duplicate candidates.

## Layout

- `src/` — the library, verified with Verus. It holds the catalog's own
  decisions with their contracts: Windows long-path prefixing, path joining
  and comparison, the thumbnail file layout and its migrations, how moving
  or copying a video's slot files proceeds and ends, how a discovered file is
  classified and reconciled (including path-follow of moved files), which
  folders are watched or polled, the generation retry budget, the settings
  encodings, reading ffprobe's metadata report, the filtered listing query,
  the `.wb` import tally and its notices, and the duplicate-group records.
  Decisions that belong to the `gb_core` crate (the missing-video verdict,
  which files are videos, content hashing, `.wb` row conversion and legacy
  thumbnail matching) and the floating-point values (durations, frame
  rates) stay with their callers in `app/`.
- `tests/` — tests of the library on concrete values.
- `app/` — the Tauri shell: commands, SQLite access, ffmpeg/ffprobe
  processes, file-system walks and watchers, background workers. It calls
  the library for every decision and only performs the I/O.
