//! ESC/POS thermal receipt printer emulator: a stream parser for ESC/POS
//! byte streams, the printer and emulator state they drive, and the logic behind
//! the receipt preview, the command log and the settings panel.

pub mod emulator;
pub mod escpos;
pub mod gui;
pub mod networking;
