# rustify

A terminal music player whose core is a library verified with Verus.

## Layout

- `src/` — the verified library (`rustify`). Verus checks all of it; the
  public functions state their behaviour in `requires`/`ensures` contracts,
  and laws over several calls (a shuffled walk, scrobbling over a session, a
  status message's lifetime) are public proof functions over spec-level step
  functions that those contracts use.
  - `tracklist` — the play queue: cursor, shuffle order, repeat modes.
  - `player` — the player's command loop and decoder steering, written as
    transitions from state and command (or event) to next state and effects.
  - `library`, `sorting` — the artist/album/song index and the stable sort
    behind it.
  - `tui`, `view` — the front end's state machine (keys, mouse, player
    events) and the text of every panel.
  - `playlist`, `scanner`, `metadata`, `lyrics`, `art`, `paths` — M3U files,
    directory listings, tags, LRC lyrics, cover art choice, paths and URIs.
  - `scrobble`, `theme`, `config`, `mixer`, `types`, `error`, `text` — the
    listening-history rules, colour themes, settings and shared types.
- `tests/` — tests against the compiled library.
- `app/` — the program around the library: terminal and audio I/O, decoding,
  tag reading, HTTP submission, drawing, the visualizer's floating-point work
  and the Python bindings. Verus does not see it.

Calls into `rand` (the shuffle) and into the few std functions that vstd does
not specify stand behind small trusted wrappers; each one's doc comment says
what is assumed of it.
