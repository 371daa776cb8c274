//! Logic of the user interface: tabs, command log, receipt preview and settings.

pub mod app;
pub mod command_log;
pub mod receipt_viewer;
pub mod settings_panel;
pub mod text_format;
