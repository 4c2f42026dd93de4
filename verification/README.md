# ntrix_vdc

Verified logic of the Ntrix video display controller (VDC) and its wire
protocol.

- `src/com.rs`, `src/helpers.rs`: control packets (a 4-bit control code and
  a 12-bit payload, sent as two big-endian bytes) and display-mode payloads,
  with their encode/decode round-trip laws.
- `src/cell.rs`, `src/font.rs`: character cells, their packed form in
  character data packets, and drawing a cell into a one-bit-per-pixel frame
  buffer with the IBM437 8x8 font.
- `src/vdc.rs`: the controller as a state machine: buffers, mode, what each
  control packet does and what must follow on the bus, with laws over runs
  of steps.
- `src/bus.rs`: judging the outcome of a blocking bus transfer.
- `app/lib.rs`: the C-facing runtime (hardware callbacks, the bus loop, the
  frame-buffer hook), which performs the actions the controller decides on.
