# kinesis_360_mirror

A live on-screen mirror of the Kinesis Advantage 360 Pro. The keyboard's raw
HID usages are captured passively (evdev on Linux, IOHIDManager on macOS) and
drawn by a Tauri window.

- `src/` is the library, verified with Verus: which events are key edges and
  which usage they stand for (`hid::linux`, `hid::macos`), the permission
  scan, the registry of device nodes being read (paths compared by
  component, `hid::node_path`), the held-key set that drops
  duplicate edges (`held`), the sanitizing of frontend log lines (`ui_log`)
  and the tray menu decisions (`tray`).
- `app/` is the program around it: device and directory I/O, threads, IOKit
  and CoreFoundation calls, the Tauri window, tray and IPC commands, and a
  headless `--probe` mode that prints captured usages for ten seconds.
- `tests/` runs the library on concrete values.
