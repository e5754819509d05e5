# gps_gui

The decision logic of a GPS tracking app for a phone and a BLE-connected
LoRa board, written in Verus and proved against its contracts.

## Layout

- `src/` - the verified library:
  - `link.rs` - the BLE link as a state machine: what each press asks the
    worker for, what each event changes (relayed node reports included), the
    epoch fence that drops the tail of an abandoned session, the board
    switch that drops what the old board said, the scan list, the device
    picker and the board-setting presses.
  - `relays.rs` - recorded tracks and the remote nodes a board relays, by
    address: what a report, a ping, a board switch and a discard keep.
  - `tracking.rs` - which board the map follows and in what order.
  - `nav.rs` - the menu pages and the corner toggle.
  - `points.rs` - the Points page's filter and its newest-first order.
  - `board.rs`, `prose.rs`, `feedback.rs` - how board answers, settings and
    file results read.
  - `durations.rs`, `float32.rs`, `fmt.rs`, `parse.rs` - durations as the
    app prints them (with the single-precision rounding done exactly in
    whole numbers), decimal formatting, and number parsing.
  - `clock.rs`, `paths.rs` - the wall clock and path joins, behind small
    trusted wrappers.
- `tests/` - tests run against the compiled library.
- `app/` - what stays outside: the floating-point geometry of the map and
  the log graph, and the glue that hands the library plain values.
