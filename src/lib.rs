//! Client-side entity synchronisation for a replicated multiplayer world.
//!
//! Notifications from the remote table store are drained once per frame
//! (`bridge`), folded into a local mirror of the tables (`registry`), turned
//! into simulated actors exactly once per entity (`world`), and advanced each
//! frame by local prediction or by interpolation towards remote snapshots
//! (`movement`, `animation`, `session`). The reducer rules of the backend
//! module are modelled in `server`.
//!
//! Lengths are fixed-point: one world unit is `model::UNIT` length steps.
//! Time is counted in microseconds.
use vstd::prelude::*;

pub mod model;
pub mod connection;
pub mod bridge;
pub mod registry;
pub mod movement;
pub mod animation;
pub mod world;
pub mod session;
pub mod server;
