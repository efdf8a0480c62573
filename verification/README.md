# Larrez Player

A lightweight video player for Windows built on libmpv. This crate holds the
player's model as a library verified with Verus, and the program around it.

## Layout

- `src/` — the verified library:
  - `playlist.rs` which files play, entries, shuffle and repeat, next and previous
  - `natural.rs` natural order ("ep2" before "ep10") and a stable natural sort
  - `resume.rs` resume positions per path, kept to a bounded table
  - `cli.rs` the command line, key bindings, the no-picture report, time text
  - `session.rs` the event loop's decisions: the video-output watch, what follows a finished file, notices
  - `mpv.rs` how mpv is set up and how its events and frames are summarised
  - `logging.rs` log lines, where they go, where the log file lives
  - `ui.rs`, `layout.rs`, `look.rs`, `glyph.rs` the on-screen interface as a state machine, its geometry, how controls look, and the icons
  - `text.rs` small text helpers shared by the rest
- `app/` — the program: the window and event loop (winit), the libmpv binding,
  Win32 painting, dialogs (rfd), and the settings file (serde).
- `tests/` — tests of the library.
