# escpos_emulator

A virtual ESC/POS thermal receipt printer. Point a point-of-sale application at
TCP port 9100 and the receipts it prints are decoded and previewed.

The library under `src/` is verified with Verus:

- `escpos/commands.rs` — the ESC/POS commands and their mathematical views.
- `escpos/parser.rs` — the incremental stream parser, specified by `scan`, with
  the laws that chunked input decodes like whole input and that only incomplete
  sequences are kept between chunks.
- `escpos/printer.rs` — printer state, paper widths, the effect of each command
  (`apply_command`) and raster-image rendering.
- `emulator/` — printer plus a bounded command history.
- `networking/server.rs` — answers to `DLE EOT n` status requests.
- `gui/` — the logic behind the user interface: tabs and uptime, the command
  log's filter, labels, colour classes and hex dumps, splitting the receipt into
  print jobs, and the settings-panel messages and dialog state.

`app/` holds the executable: the tokio TCP server, the egui/eframe user interface
and the shell commands that install the system printer.

`app/` is written against eframe 0.27 and egui 0.27. `Cargo.toml` names egui but
not eframe: the eframe dependency tree (its windowing and GL back ends for every
platform) is larger than the build environment of this crate accepts, so the
window shell in `app/main.rs` and `app/gui/app.rs` builds only where eframe is
added back.
