# lifekit

The logic of a small Wayland desktop suite, verified with Verus: a screen
locker and a greeter that draw a Game of Life cube, a notification daemon,
and a theming tool that keeps every program's colours in step.

- `src/lock/` — the locker: key handling and the authentication state
  machine, the locker's event controller (password buffer, timers,
  verdicts), the authentication pipe framing, Conway's Life on a torus with
  its fingerprint and settled-board tracker, the simulation's pacing and
  reseeding, the typing and failure effects, glyph bitmaps and text runs,
  and the cell grid drawing.
- `src/greet/` — the greeter: the username/password phases, the key and
  greetd-event controller, the greetd conversation, session files and the
  session picker, the zeroed password buffer, and the username box with
  the typed name cut to fit it.
- `src/note/` — the notification daemon: markup stripping and wrapping,
  framed popups, the queue and history, the daemon's event decisions
  (expiry follows visibility), the popup stack layout and drawing, the
  configuration file, and the control client's commands.
- `src/conf/` — the theming tool: the editable theme, typed and stepped
  edits, the editor's state (unsaved changes, saved theme, typing buffer,
  status line) and its commands, key and click handling, the settings window's picture as drawing
  steps and their painting, and the generated niri configuration regions.
- `src/raster.rs`, `src/chars.rs`, `src/num.rs` — pixel compositing, text
  and number helpers shared by the above.

`app/` is the command-line front of the theming tool together with the
file and floating-point glue the programs need; `tests/` exercises the
library from outside.
