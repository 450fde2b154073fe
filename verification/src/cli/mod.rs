//! The command-line interface: commands over a clipboard repository.
pub mod item_command;
pub mod daemon_command;
pub mod popup_command;
pub mod cli_parser;
