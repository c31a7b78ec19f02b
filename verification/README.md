# screen_timer

A focus timer: set a duration, and when time is up the screen is taken over
by a break overlay for a while. Escape pressed three times within two seconds
ends the break early. A Pomodoro mode alternates focus sessions with short
breaks and ends the cycle with a long break. Every break of a cycle, short or
long, takes the screen over in full, as the plain break does.

Layout:

- `src/` — the verified library. `timer` holds the countdown and its clock
  arithmetic, `app` the decisions taken on commands, tray clicks and frames
  (returned as effects for the window to carry out), `duration` the reading of
  durations such as `1h30m`, `cli` the `start` argument check, `config` the
  persisted settings, `ipc` the control messages and settings paths, `text`
  clock formatting and path joining. Laws are the `lemma_*` proof functions.
- `app/` — the window (eframe), the tray icon, the Unix-socket server and
  client, the settings file and the command line, all delegating decisions to
  the library.
- `tests/` — executable tests of the library.
