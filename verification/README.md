# audium

A keyboard-driven terminal music player, with its core written in Verus.

`src/` is the verified library: every decision the player makes is a
function with a contract that Verus proves.

- `library` — tracks, playlists, the id index, and the on-disk index
  (`to_index` / `from_index`, with a proof that loading what was written
  gives the library back).
- `app` — the session state: queue, what plays and for how long, loop and
  speed, cursors, the tracklist filter, the lyrics overlay.
- `keys` — who takes a key press and what each binding does; `handle_key`
  keeps the state's invariants.
- `confirm` — what a confirmed dialog does (removals, playlist edits,
  metadata and lyrics saves, settings, shuffling, imports).
- `modal`, `filepicker`, `nav` — dialogs, text editors, the file picker and
  the shared list keys.
- `lyrics` — LRC and plain lyrics, and the active line.
- `layout`, `numeric`, `text` — the arithmetic behind every panel, and the
  string helpers the rest is proved with.
- `player`, `settings`, `state`, `cli` — the player's command queue,
  preferences, saved playback state and the command line.

Work outside the process is not done by the library: it queues `Effect`s
(write the index, delete a file, write tags, list a directory, import a
file) and player commands, and `app/` carries them out.

`app/` is the program around it: the terminal loop and drawing (ratatui),
the audio thread (rodio), tag reading and writing (lofty), the XDG paths and
the JSON files (serde).

`tests/` runs the library on concrete cases.
