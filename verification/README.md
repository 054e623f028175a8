# unsound

The logic of a local dictation and meeting-notes desktop app, verified with Verus:
what a shortcut does, how a transcript is cleaned, which prompt the language model
gets, how a meeting transcript is laid out, how an uploaded audio file is recognised
and re-framed, and how settings and models are kept.

- `src/` is the verified library. Each public function states its result in its
  `ensures`; the `law_*` proof functions state what holds across functions (a combo
  reads back as written, a correction is remembered, an added model is found, a
  sanitized segment is stable, streamed model output does not depend on how its bytes
  are split, and so on).
- Calls into outside crates (`ogg`, `serde_json`, and a few std functions) go through
  small trusted wrappers next to the code that uses them; their results are named by
  uninterpreted spec functions where the crate's behaviour takes more than a few lines
  to state. The `mp4` crate panics on some malformed files, so it is called from `app/`,
  which turns a panic into an error; the library re-frames the track it reads.
- `tests/` runs the library with the outside crates linked.
- `app/` is the desktop application around the library (Tauri commands, audio capture,
  speech and language models, the SQLite history); it is not verified.
