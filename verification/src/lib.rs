//! Core gameplay logic for a 2D tile-based platformer: a queryable tile
//! collision map, a kinematic integrator with gravity and jump buffering, a
//! swept axis-aligned collision resolver, a grounded-state tracker, and a
//! timed level-transition state machine.
//!
//! All world quantities are held in decimal fixed point: one world unit is
//! `SCALE` subunits, time is measured in milliseconds, and fade opacity in
//! per-mille. This keeps every rule of the simulation exact and provable.

pub mod units;
pub mod laws;
pub mod map;
pub mod movement;
pub mod no_tunneling;
pub mod resolver;
pub mod state;
pub mod transition;
