# pax_bridge

The logic of a bridge between a point of sale and PAX payment terminals, written
in Rust and verified with Verus.

- `src/` is the verified library.
  - `protocol`, `wire_laws`: the ECR wire protocol, its frames and fields.
  - `exchange`: one command on the wire, as a machine from I/O events to actions.
  - `transport`: commands, the line of each terminal, cancelling, diagnostics.
  - `db`: terminals, the transaction log and the ECR sequence.
  - `http`: what each request is answered with, from sale to late void.
  - `printer`, `system_printer`: receipts and where they go.
  - `config`, `server`: settings.
  - `text`, `numeral`, `json`, `order`, `textmap`, `clock`: what the rest stands on.
- `app/` is the program around it: axum, tokio, serial ports, files, printers.
- `tests/` runs the library on concrete values.

The laws of the library are the public proof functions in `wire_laws`,
`exchange`, `transport`, `db::laws`, `http::laws`, `printer`, `order`, `text` and
`numeral`. What is believed without proof stands in `clock` (chrono, uuid) and
at the top of `text` (three functions of the standard library).
