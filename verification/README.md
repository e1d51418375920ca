# sample_changer

Decision logic of a UR3e sample changer (EPICS-triggered sequencer
daemon and operator panel), written as Verus-verified Rust.

- `src/` — the verified library: PV address and label tables, the
  daemon-presence watch, Channel Access value decoding, the operator
  panel's action plans and confirmations, the calibration table's file
  slots, the waypoint file's comment-preserving line edits, the hand-eye
  detector's reply readers, and the seat check's window statistics.
  Contracts are stated over `Seq`/`int` models; the laws the library
  keeps are public proof functions named `law_*`.
- `tests/` — tests on concrete values.
- `app/` — ordinary Rust around the library: Channel Access over
  epics-ca-rs, YAML and file I/O, the operator log, floating-point
  geometry and number parsing, and the vision simulator program.
