//! Lemmings on destructible terrain: a pixel-encoded collision map, a
//! frame-based animation clock, and the per-tick behaviour of the agents that
//! walk, fall, dig and bridge across the map.
//!
//! Every function of the crate carries a contract that is proved against a
//! mathematical model of the terrain ([`terrain::Grid`]), of the clock
//! ([`animation::AnimationView`]) and of the agents
//! ([`lemming::LemmingView`]). What the contracts add up to is stated and
//! proved in [`laws`].

pub mod actions;
pub mod animation;
pub mod cell;
pub mod gravity;
pub mod laws;
pub mod lemming;
pub mod terrain;
pub mod world;

pub use actions::{Action, Actions};
pub use animation::{Animation, AnimationFrame, FrameError, FrameTable};
pub use cell::TerrainCell;
pub use lemming::{FacingDirection, Lemming};
pub use terrain::{OutOfRange, TerrainMap};
pub use world::World;
