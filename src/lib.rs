//! Parsing of hotkey-daemon configuration files: included files, logical
//! lines, and the `modifier+modifier+key` binding grammar.
pub mod text;
pub mod symbols;
pub mod lines;
pub mod error;
pub mod keybinding;
pub mod config;
pub mod hotkeys;
