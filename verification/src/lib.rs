//! Rollback netcode core for a fixed-tick, physically simulated ship.
//!
//! The simulation itself, the transport and the display are the caller's.
//! This library holds what decides: when a tick is due (`clock`), which
//! input each actor is taken to give at a tick (`frames`, `input_buffer`),
//! which past states can be gone back to (`snapshot`), what arrived from the
//! peers (`wire`, `channel`), when to roll back and what to replay
//! (`model`, `engine`), how long the display takes to catch up
//! (`correction`), and under which tuning policy (`config`).
//!
//! `laws`, `delivery` and `convergence` state what holds of the engine
//! whatever the simulation step does, as long as it is deterministic.
//!
//! All quantities of the simulation are carried by their bit patterns
//! (`scalar`, `action`, `entity`), so that a state that was stored is
//! restored exactly. `ship`, `states`, `plugin_group` and `cli` hold the
//! game's own small rules.

pub mod action;
pub mod channel;
pub mod cli;
pub mod clock;
pub mod config;
pub mod convergence;
pub mod correction;
pub mod delivery;
pub mod engine;
pub mod entity;
pub mod frames;
pub mod input_buffer;
pub mod laws;
pub mod model;
pub mod plugin_group;
pub mod scalar;
pub mod ship;
pub mod snapshot;
pub mod states;
pub mod wire;
