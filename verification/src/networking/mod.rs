//! Network side of the emulator: answers to real-time status requests.

pub mod server;
