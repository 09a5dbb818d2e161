# exIOMetter

A Linux audio output mixer: it combines several output devices into one
PulseAudio/PipeWire sink, with a volume slider, a mute switch and a level
meter per device, and a mixer for the volume of each playing application.

## Layout

- `src/` — the verified library (Verus):
  - `text.rs` — substring search, prefix test, replacement, splitting and
    joining, decimal rendering, with their specifications and lemmas;
  - `devices.rs` — which devices a listed sink is offered as, their names and
    descriptions, port labels, sink lookup, application stream entries;
  - `engine.rs` — the mixer state: channels, starting and stopping the
    combining sink, channel edits, level-meter rule, volume cap;
  - `monitor.rs` — choosing the input that monitors a device;
  - `keyed.rs` — how per-application settings follow a fresh list of streams;
  - `ui_state.rs` — the window's state and how each action changes it;
  - `icon.rs` — decoding the window icon into RGBA pixels.
- `app/` — the program: the PulseAudio connection, the egui window and
  everything that works with floating-point volumes.
- `tests/` — tests of the library on concrete values.
