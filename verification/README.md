# pwm

The verified core of pwm, a Penrose-based tiling window manager for X11.

- `src/` is the library, with its proofs:
  - `text` — character-level text handling (trimming, lines, words,
    integer parsing and printing) proved against statements of what the
    standard library's string functions compute;
  - `table` — a name-keyed table in which a later binding of a name
    replaces the earlier one;
  - `user_config` — built-in themes, `#RRGGBB[AA]` color parsing, palettes
    and the choice of the session's theme;
  - `keybindings` — the default keymap, `[[bind]]` overlays, workspace
    bindings and the session menu;
  - `bar` — the battery, CPU and memory indicators of the status bar;
  - `config` — built-in colors, workspace names and programs.
- `app/` is the window manager itself: reading `config.toml`, the X11
  connection, layouts, widgets and key handlers, all through penrose.
- `tests/` exercises the library on concrete values.
