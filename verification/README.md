# Lyre

A terminal music player for a directory of audio files: a library panel
grouped and sorted several ways with live fuzzy search, playlists, a play
queue with shuffle and "Up Next" jumps, a metadata editor, and a download
dialog.

## Layout

- `src/` is the player's logic, written in Verus and verified: the song
  model and fuzzy scoring (`song`, `fuzzy`), the library and its scan
  (`library`, `scan_cache`), playlists (`playlist`), the play queue
  (`queue`), the rows a panel shows and the selection over them (`rows`,
  `panel_view`, `navigation`, `selection`), key routing and the dialogs
  (`keymap`, `input`, `song_modal`, `youtube_modal`, `session`), the text
  the screen shows (`style`, `song_list`, `screen_text`), and the whole
  state a key press acts on (`app_state`). Each public function states what
  it does in its `requires` and `ensures`; the `law_` proof functions state
  what holds across calls.
- `app/` is the program around it: reading and writing files, the terminal
  drawing with `ratatui`, key events from `crossterm`, and tag reading and
  writing with `lofty`.
- `tests/` runs the library on concrete cases.

Audio output and YouTube downloads are optional parts of the player and
are not built here: playback is tracked but silent, and a download is
answered with an error saying so.
