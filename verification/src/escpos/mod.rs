//! ESC/POS command model, byte-stream parser and printer state.

pub mod commands;
pub mod parser;
pub mod printer;
