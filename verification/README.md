# OverLingo

OverLingo translates live speech — system audio, the microphone, or both — and shows the
original and the translation as subtitles in an overlay. A session can be paused, resumed
and archived; finished sessions are kept as Markdown and JSON and can be exported as plain
transcripts.

## Layout

- `src/` is the `overlingo` library, written and proved with Verus. It holds the
  decisions: the settings and their normalization, the translator catalogue and the
  checks before a start, the session and route state machines with their reconnect
  budget, the audio backlog between capture and translator, the turn assembler that pairs
  originals with translations, the session clock and record, the archive's file names and
  text forms, the translators' wire messages in both directions, the update throttle, and
  the tray's labels. Public functions state their results in their contracts; where
  something outside decides (the keychain, a translator connection, the clock), the
  contract states what is handed to it and what becomes of its answer. The `law_*` proof
  functions state what holds across calls.
- `src/session.rs` is the controller: every request, timer and report goes in, and the
  next state and the effects the shell has to carry out come out.
- Calls into other crates (the keychain, the system locale, the clock, JSON parsing and
  quoting, base64) go through small trusted functions whose contracts say what the crate
  promises.
- `tests/` runs the library against the real crates.
- `app/` is the desktop shell: windows, tray, audio devices, websockets, files. It carries
  out the controller's effects and feeds it what happens.
