//! FeatherClick: the settings model, command-line handling, hotkey bindings and
//! the decisions of the click engine, with their contracts.

pub mod cli;
pub mod config;
pub mod engine;
pub mod text;
pub mod hotkeys;
