# tailgunner

The verified core of a haptic-feedback companion for War Thunder: it reads the
game's local telemetry API and turns what happens in a battle into device
vibrations.

- `src/` is the library, written in Verus and proved against its contracts:
  reading HUD messages and telemetry frames, detecting game events, custom
  triggers with their filters and cooldowns, the node-graph rules of drawn
  patterns, profile choice, the rate limiter, the state history, the device
  registry, the emulated API's stores, objects and mission, map object
  classification and grid references, the known maps' grid steps, the limits
  of the vehicle being driven and the triggers fitted to them, and locating and
  reading the game's model files (which files, which fallbacks, how units are
  named, which damage parts are tracked).
- `tests/` runs the library on concrete inputs.
- `app/` is the headless engine around it: HTTP polling of the game, the main
  loop, pattern playback, the emulated API server, the SQLite stores, the
  Wiki and vehicle API clients, and the floating-point parts (indicator
  values, thresholds, intensities, vehicle limits, map coordinates).
