# shufflekeys

Keystroke-dynamics obfuscation: key events are re-timed so that typing
rhythm (dwell and flight times) no longer identifies the typist.

- `src/` is the verified library (Verus). `engine::obfuscation` quantises,
  adds noise to and clamps flight and dwell times and bounds every added
  delay by the configured maximum latency (the strength scales the
  keydown delay; at a strength of 0 presses and releases pass through); `engine::scheduler` releases
  queued events earliest first; `engine::config` keeps settings in range;
  `platform` classifies raw evdev and Core Graphics events and picks the
  keyboard device. Timings are integers in microseconds, the strength is in
  parts per million.
- `app/` is the `shufflekeys` command: configuration file, command line,
  keyboard grab and virtual device, Gaussian noise draws, sleeping.
- `tests/` exercises the library.
