# annotations

A screen annotation overlay for X11: a transparent fullscreen canvas to draw
on during presentations, and a small floating toolbar.

- `src/` is the verified library (Verus): the drawing state and what every
  pointer, key and toolbar event does to it (`state`, `input`, `toolbar`),
  the eraser's hit test, how strokes are painted (`stroke`), the overlay's
  input region (`overlay`), the window-manager messages (`platform`), the
  configuration defaults (`config`), and properties of whole interactions
  (`laws`).
- `app/` is the GTK4/cairo/x11rb program around it: windows, event wiring,
  rendering, X11 calls and the configuration file.
- `tests/` exercises the library.

The library counts in whole pixels (`i16`, the X11 coordinate range) and in
thousandths for colour channels; `app/` converts from and to GTK's floating
point values.
