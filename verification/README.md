# agogo_core

A verified timing kernel for musical clock, click and control pipelines:
fixed-point time, grids and swing, the grid-expression language, the
`--ch` channel-spec language, per-channel scheduling into sample-indexed
events, MIDI clock and click rendering, the transport state machine, and
the control bridge between the soft side and the audio thread.

Layout:

- `src/` — the library, written in Verus. Every executable function has
  a contract; laws of the library (grid lattice, round trips of the
  printers and parsers, scheduling order, partition and per-buffer
  bound, the bar multiplier across buffers, smoothstep shape, the
  tempo-slot encoding) are public proof functions.
- `tests/` — ordinary Rust tests against the compiled library.
- `app/` — the runtime plumbing Verus does not take: the control
  producer with its locks and retry loops, the audio-host interface,
  error types that carry `thiserror` derives, and the floating-point
  pulse-train generator used to drive the sync detector.
