# niri_bar

The rules of a status bar for the niri compositor, verified with Verus: what its taskbar
shows and where a dragged window goes, how events of the compositor change what is known,
how the configuration is read, what the modules (volume, brightness, battery, bluetooth,
network, memory, clock) show, and how the items and menus of the tray are read.

- `src/` is the library. Every function states what it returns or changes; the functions
  whose names begin with `law_` state what holds of several of them together.
- `app/` is the program around it: windows, sockets, the buses, files and processes.
- `tests/` runs the library on given values.

Outside crates are called from `src/` in a few places only: `json.rs`, `toml_value.rs`,
`desktop.rs`, `local_time.rs` and `util.rs`. What is assumed of them stands there.
