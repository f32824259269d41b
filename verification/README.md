# DisEQ

A menu-bar panel for macOS that controls displays and sound: brightness,
resolution and power of each display; an equaliser, a master volume and a volume
per application for whatever the machine plays.

The library (`src/`) is written in Verus. It holds the logic and the proofs:

- the ring buffer, the bridge between two clocks, the driver's shared ring, and
  what the output engine renders from them (`ring`, `bridge`, `shared`,
  `playback`, `format`, `render`);
- the equaliser and its presets (`eq`), the audio devices, processes, taps and the
  App Mixer (`devices`, `playable`, `processes`, `tap`, `mixer`), and the route
  that puts the equaliser in front of the hardware (`router`);
- the displays, the record of those that are switched off, the traffic to
  monitors, and what may be switched on or off when (`display`, `offline`, `ddc`,
  `power`, `protection`, `service`);
- the panel: settings, what each card shows, what each control does (`prefs`,
  `names`, `sound`, `state`, `views`, `control`), with `lists` and `text` under
  all of them.

Where a decision depends on what the system answers, the library has a state
machine: it says what to ask, takes the answer, and says what to ask next.

Numbers that macOS gives as floating point are integers in the library: volumes
and gains in millionths, levels in millionths of a decibel, rates in thousandths
of a hertz, and samples as the bits of their single-precision value.

`app/` is the program around the library: AppKit views, Core Audio and
AVFoundation objects, shared memory, files, and the arithmetic that is floating
point throughout. `tests/` runs the library.
