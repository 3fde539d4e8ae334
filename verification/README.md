# strobetune

An analog-style strobe tuner for guitar, in the terminal. The library
(`src/`) holds the decisions of the tuner, verified with Verus:

- `notes` — tuning presets (frequencies as exact integers in 1/10000 Hz),
  pitch-class names spelled with flats, transposition, display names.
- `app` — the selection state (preset, string, transpose, auto detection,
  quit) and what each key does to it, with the effects the caller must apply.
- `detector` — the window of recent samples, the YIN first-dip search over
  precomputed comparisons, and the hysteresis that commits a detected string.
- `ui` — the text of the status panel.
- `config` — integer constants.

`app/` is the program around it: audio capture (cpal), the floating-point
signal path (band-pass, wheel-phase folding, YIN difference function), and
rendering (ratatui).
