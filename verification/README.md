# terminal-audio-player

A terminal audio player: a library lane that browses a music folder, a
playback deck driven by an audio engine on its own thread, and a glossy
ratatui front end. Supports MP3, FLAC, WAV and OGG.

## Layout

- `src/` — the verified library (Verus):
  - `text.rs`, `paths.rs` — strings, decimal numbers, truncation, path questions;
  - `audio_engine.rs` — player state, commands, the playback-backend trait
    (every request an implementation gets is recorded with its answer), and
    the engine controller, whose requests of the backend and new state follow
    from each command and the backend's answers;
  - `browser.rs` — the directory tree, its ordering (folders first, names
    case-insensitively), the playlist of every audio file under the root;
  - `channel.rs` — the channel ends the user interface holds, recording what
    went through them;
  - `app.rs` — the key map and the application state;
  - `tui.rs`, `layout.rs` — the texts, badges and labels the panels show, and
    how the screen is divided as the terminal's size changes.
- `app/` — the program around it: the rodio backend and engine thread, reading
  the folder from disk, the crossterm event loop and the ratatui drawing
  (which lines each panel stacks at each height, their colours), including
  the floating-point visualizer.
- `tests/` — tests of the library.

Units in the library: positions and durations are milliseconds, the volume is
a percentage (100 is unity gain, at most 200).

## Keys

`Space` play/pause (or start the selected file), `Tab` switch lanes, `j`/`k`
move or change the volume, `Enter` open a folder or play a file, `←`/`→` fold
folders, `h`/`l` seek 5 s, `n`/`p` next/previous, `s` stop, `q` quit.

## Run

```bash
cargo run --release -- /path/to/music
```
