# RustShot Wayland

A screenshot tool for Omarchy / Hyprland: a background service on the
session bus captures a monitor, shows an annotation overlay as a
wlr-layer-shell surface, and saves the result as PNG and/or copies it to the
clipboard. Subcommands (`gui`, `full`, `screen`) ask the running service for a
capture.

## Layout

- `src/` — the library, verified with Verus. It holds the decisions and data
  of the tool with their contracts:
  - `canvas` — tools, annotation kinds, the undo/redo canvas and its live
    counter (with the undo/redo laws);
  - `overlay` — what a press, release or key does, the cursor glyph, and when
    the baked pixelate layer is rebuilt;
  - `theme`, `hex` — the chrome palette from `colors.toml`, hex colours and
    contrast ink;
  - `capture`, `screens`, `tray` — pixel swizzling and dimming, the monitor
    layout from `hyprctl`, monitor and output choice, the `grim` arguments,
    the tray icon;
  - `config`, `cli`, `client`, `dbus`, `ui`, `logging` — paths, the command
    model and the bus calls it makes, the one-overlay-at-a-time guard, and the
    log writer that never fails.
- `tests/` — tests of the library.
- `app/` — the program around it: the command line, the bus service and
  client, capture processes, the Wayland window, floating-point geometry and
  rendering.
