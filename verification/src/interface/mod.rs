//! What the user sees.

pub mod cli;
pub mod cli_laws;
pub mod tui;
pub mod tui_laws;
