//! Command pattern for undo/redo support.

pub mod command;
pub mod history;
pub mod registry;
pub mod track_commands;
pub mod clip_commands;
pub mod laws;
