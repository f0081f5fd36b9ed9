# domers

Operator logic for an LED dome, bar and stage rig, verified with Verus.

`src/` is the verified library:

- `beat` — tap-tempo and Madmom beat windows, the beat clock and the tap counter.
- `color`, `palette_names` — packed colors, the 8×8 palette, and the named
  form a config file stores a palette in (which reads back to the palette).
- `config`, `xml`, `scan`, `text` — native config pieces and the reading of
  legacy XML settings, built on exact character-level scanning.
- `scheduler`, `server` — visualizer scheduling by priority, the operator's
  offered visualizers, patches, simulator command streams and renderer dispatch.
- `orientation`, `midi`, `madmom`, `adsr` — orientation datagrams and device
  state, MIDI payloads and bindings, the beat-tracker sidecar's launch config,
  and the timing of the MIDI level drivers' envelopes.
- `visualizers`, `volume`, `flash` — the visualizer inventory, the snake
  triangle graph, the strut layouts of the volume animation (no strut lights
  twice), and the flash shapes with their animations' timing and pad links.
- `diagnostics` — which pixel of the bar and stage gets which diagnostic color.
- `outputs`, `frame_hash` — OPC frame encoding and FNV-1a frame hashes.
- `rng` — a deterministic generator compatible with `System.Random`.

`app/` is the executable around it: argument handling, the TOML config file,
the legacy XML import command, and the floating-point parts (beat progress,
color blending, random fractions, envelope levels, the random pick of a
flash shape).
