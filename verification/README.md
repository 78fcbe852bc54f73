# dragons_tui

An immediate-mode terminal UI library whose behaviour is specified with `requires`/`ensures`
contracts and proved with Verus.

Applications own their state, resolve rectangles with the layout solver, and render primitives
into a `Frame`; the runtime diffs each frame's `Buffer` against the previous one and encodes only
the changed cells as terminal commands.

## Layout

- `src/` — the verified library: geometry and layout, styles and cells, the buffer and its diff,
  frames and borders, rich text, the widgets (panels, lists, tables, trees, viewports,
  scrollbars, text input and text area, command palette, overlays, canvas, diff and source
  viewers, session host, property view, structured JSON view), focus and key maps, animations,
  the redraw runtime, terminal command encoding, the dashboard demo's input routing and
  screens, and the showcase: its state machine over sections, command palette, settings
  (language and an RGB theme editor that clamps each channel), focus, modal and adapter
  browser, with keyboard and mouse handling that hands adapter lifecycle work back to the
  caller as requests; its header, footer, overview, input, interaction, settings and overlay
  screens, which record the hit regions the mouse handling reads; and its splash (layout,
  visible-box centring, gradient art, separators and loading bar). Calls into `unicode-width`,
  `unicode-segmentation`, `serde_json` and the standard library that Verus cannot read go
  through small trusted wrappers whose contracts say what those functions return.
- `app/` — the terminal program: crossterm I/O, signal handling, the agent child process, the
  floating-point progress widgets, and the event loop that drives the verified dashboard.
- `tests/` — executable tests of the library.
