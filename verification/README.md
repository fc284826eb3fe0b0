# runner

A Wayland launcher (layer-shell, GTK4) that uses
[elephant](https://github.com/abenz1267/elephant) as its backend: runner is the
UI, elephant does the searching and launching.

## Layout

- `src/` — the library, verified with Verus: the settings and prefix routing
  (`config`), the reading of the typed text and the ordering of actions
  (`providers`), the launcher's state machine (`ui::Session`: what each text,
  event, key and activation does), the socket protocol's framing and the meaning
  of each response (`elephant`), the desktop theme (`theme`), the matching of
  windows for previews (`capture`), the command line (`args`) and the string
  helpers they share (`text`).
- `app/` — the program around it: the GTK window, elephant's sockets and threads,
  the configuration file, `hyprctl`, pywal's palette and the Wayland toplevel list.
- `tests/` — tests of the library.
