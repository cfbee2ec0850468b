//! Core of a digital audio workstation for guitar-centred composition:
//! projects of tracks and clips with undoable edit commands, the project
//! file container and dictionary compression, mixer, selection, transport
//! and recording state, clip playback scheduling, tablature notation and
//! rhythm, harmonic analysis, effect-parameter routing, and the messages
//! and musical context exchanged with an assistant service.

pub mod ai;
pub mod analysis;
pub mod commands;
pub mod compression;
pub mod config;
pub mod effects;
pub mod engine;
pub mod error;
pub mod format;
pub mod notifications;
pub mod playback;
pub mod project;
pub mod recording;
pub mod state;
pub mod tab;
pub mod text;
