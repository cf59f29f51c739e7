# diagnostics

Memory and agent diagnostics, in two places: a worker that pushes a memory plot and the agent and
process counts to a host's home pane, and a two-row strip that a terminal shows.

- `src/` is the library. All of it is verified with Verus.
  - `worker`: what the worker does next, and what it writes.
  - `plugin`: the pane and the notification that carries it.
  - `history`: the bounded window of samples.
  - `strip`: the terminal strip: byte counts, readout, layout, drawing.
  - `metrics`, `text`: the figures, and decimal notation.
  - `json`, `terminal`: the calls into `serde_json`, `ratatui` and `unicode-width`, with what is
    assumed of each.
- `app/` runs the worker on its pipes and draws the strip: I/O, sleeping, and the floating-point
  shares that come with a memory reading.
- `tests/` runs the library, with the outside crates linked.
