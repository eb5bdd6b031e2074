# melody_visualizer

A real-time audio spectrum visualizer: it reads audio from a JACK input,
analyses it into a spectrum on a log-frequency grid, runs the spectrum
through a chain of transforms, and draws it as a spiral with a turn per
octave.

## Layout

- `src/` is the library, verified with Verus. It holds the bookkeeping the
  program's correctness rests on, each function with its contract:
  - `note`: notes, half-step arithmetic, and walking a range of notes;
  - `audio`: which JACK ports are on offer, what a port or connection
    notification means, which samples fit the capture ring, and the window
    the reader takes from it;
  - `spectrum`: the DFT window a grid needs, the transform chain with its
    bypass switches and the grid it hands on, and the buffer handed between
    ticks;
  - `graphic`: pixel buffers in cairo's `Rgb24` layout, the history of
    spectra, frame pacing, and painting the spiral's texel map;
  - `config`, `pane`, `keyboard`, `pubsub`: lookups by id, the control
    pane's rows and texts, the key row, and notification delivery.
- `app/` is the program around it: the JACK client, the GTK window, the
  cairo surfaces, and the floating-point signal processing and colour
  work, which Verus does not reason about.
- `tests/` exercises the library on concrete values.
