//! RF-EQ, the parts that decide rather than compute: the parameter contract,
//! the settings block and its validation, the factory settings, the state
//! format and the routing of a host block onto the engine.

pub mod contract;
pub mod engine;
pub mod ieee;
pub mod index;
pub mod preset;
pub mod routing;
pub mod settings;
pub mod state;
pub mod text;
