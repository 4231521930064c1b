# keyviz

The decision logic of a keystroke and mouse visualiser, verified with Verus.

- `src/` is the library. `state` holds the shared state (keys held down, the
  toggle shortcut, whether the listener is on, the monitor the overlay is on)
  and the step that takes one input event into it: `after_event` is the
  specification, `AppState::on_event` the code. `clear_pressed_keys` forgets
  keys whose release was lost. `monitor` finds monitors by
  position and by name, `keys` works on lists of key names, `input` maps mouse
  buttons and reads the secure-input flag, `shell` routes tray-menu clicks,
  window events and the stored dock setting. `laws` proves what holds across
  events: the state stays valid, repeats and untracked keys are ignored, a
  key pressed and released leaves the held keys as they were, the toggle
  shortcut switches the listener and releases the held keys, nothing goes on
  while the listener is off, a monitor that was moved to holds the pointer,
  and, over any sequence of events from no key held, a key is held exactly
  when it went down with no later release, in the order of those presses.
- `app/` is the Tauri application: the input hook, windows, tray, plugins and
  the stored settings. It converts the hook's events into the library's,
  performs what the library decides, and keeps the floating-point values
  (pointer position, monitor scale).
- `tests/` runs the library on concrete values.
