# encodeck

The verified core of Encodeck, a desktop front end for FFmpeg.

- `src/` is the library, written in Verus. Its functions carry contracts that Verus
  proves, except the few small functions marked `#[verifier::external_body]` that call
  std, sha2, uuid, semver and serde_json: their contracts describe those calls and are
  trusted, not proved.
  - `engine`: checks on encoding plans, the FFmpeg arguments of a pass, the decisions
    of an encoding run and of an ffprobe analysis.
  - `queue`: the job queue (admission, cancellation, the worker's claims, logs,
    history trimming, interruption at start-up) and its invariant.
  - `config`: the installed engines, the active one, removal and the presets.
  - `versions`: the build catalogs read from GitHub releases, the checks around
    installing a build, download accounting and checksums, identification of an
    FFmpeg binary.
  - `updates`: whether a newer release of the application is published.
  - `text`, `digest`, `ids`: string helpers, SHA-256 (sha2) and random ids (uuid).
  - The queue's worker runs one job at a time; runs and both install routes are step
    functions whose laws give the order of their checks.
- `tests/` runs the library on concrete values.
- `app/` is the desktop program around the library: the Tauri commands, processes,
  files and network access. Verus does not read it.
