# synsekai

A keyboard-driven terminal torrent client with a "ratio boost" tracker
announcer. The library in `src/` holds the client's logic, verified with
Verus; `app/` is the program around it (terminal, torrent engine, HTTP,
clipboard, drawing).

## Layout

- `src/unicode.rs`, `src/strings.rs`, `src/numbers.rs`: a model of UTF-8
  text (widths, byte offsets, character boundaries), trimming, and decimal /
  hexadecimal rendering and parsing.
- `src/input.rs`: the single-line input field with readline-style editing;
  every operation is specified on the text as a sequence of characters and
  keeps the cursor on a character boundary.
- `src/types.rs`: torrent rows, statuses, tabs, dialogs, client profiles.
- `src/app.rs`: the interface state and its operations, each described by a
  relation between the state before and after.
- `src/tui.rs`: the key handlers, which change the state and return the
  action that the program carries out, and the recording of each action's
  outcome.
- `src/engine.rs`: the engine's reports turned into table rows.
- `src/bencode.rs`, `src/spoofer.rs`: reading tracker replies, building
  announce URLs, and the announce session's state machine.
- `src/view.rs`: the texts and geometry that the screen shows.
- `tests/`: tests of the library.
- `app/`: the executable.
