//! Compositional analysis: pitch and interval vocabulary, chord
//! qualities, harmonic structure and rewrite planning.

pub mod types;
pub mod surgical;
pub mod anomaly;
pub mod gather;
pub mod harmony;
