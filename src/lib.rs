//! A falling-sand simulation: materials of different densities fall, slide and
//! flow on a two-dimensional grid, one tick at a time.
pub mod frame;
pub mod laws;
pub mod particle;
pub mod rules;
pub mod shade;
pub mod world;

pub use particle::Particle;
pub use world::World;
