# displayflow

A command-line tool for Windows multi-monitor setups: it scans the connected
displays, applies layouts (resolution, position, rotation, refresh rate,
primary display) and DDC/CI brightness and contrast, saves layouts as named
suites, and applies suites from global hotkeys or desktop shortcuts.

## Layout

- `src/` is the library, verified with Verus. It holds the logic: the task
  string format `ID:W:H:X:Y:Primary:Rot:Freq:Bright:Cont:Animation`, the
  suite record and its registry text, matching display queries against the
  scanned inventory, planning how tasks are applied (topology targets, staged
  display modes, DDC requests, primary display first), the inventory rows
  built from GDI, the registry and EDID data, the hotkey texts and bindings of
  the background listener, the console and pipe output, and the usage
  reports. `src/laws.rs` states and proves the properties that span several
  functions, such as reading back a written task string or suite text.
- `app/` is the program around the library: argument parsing, the Win32,
  registry and file system calls, the DDC/CI worker thread, the display
  topology calls, the tray icon and message loop, and JSON (de)serialisation.
- `tests/` runs the library on concrete values.
