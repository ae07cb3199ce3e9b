# PadProbe

A terminal tool for checking game controllers: live input, resting drift, stick range,
a control checklist, event timing and exportable diagnostic reports.

## Layout

- `src/` — the verified library (Verus). It holds the session state and its rules:
  - `app/` — controllers, the event log (capacity, sequence numbers, pausing and scrolling),
    event filters, navigation between controllers and tabs, connection handling and the
    diagnostic commands.
  - `controls.rs` — the control checklist.
  - `drift.rs`, `range.rs` — the drift and range test sessions (timing and sampling rules).
  - `timing.rs` — percentile positions, repeated values and interval bands of event timing.
  - `trace.rs` — the bounded record of a stick's recent positions.
  - `report.rs` — what a report lists: recent events and warnings, the rumble result,
    unknown controls, identifiers and name lists.
  - `plain_report.rs` — the layout of the plain-text report.
  - `names.rs` — names sorted into character order, and the pressed buttons.
  - `layout.rs`, `art.rs` — where the gamepad overview, its clusters, the stick gate and the
    controller outline go on the terminal.
  - `text.rs` — character-level helpers.
- `tests/` — tests of the library.
- `app/` — the program: the gilrs event loop, terminal drawing with ratatui, floating-point
  metrics, report files and logging.
