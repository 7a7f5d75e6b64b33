//! A small neuroevolution library: feed-forward networks with a flat
//! chromosome encoding, a fitness-proportionate genetic algorithm, an
//! angular eye sensor, and a toroidal 2D world in which eye-driven animals
//! compete for food and evolve generation by generation.
//!
//! All scalar quantities are fixed-point numbers: an `i64` counts
//! millionths, so `fixed::FP_ONE` stands for one. Arithmetic saturates at
//! the `i64` bounds, and every operation's value is pinned by a spec
//! function. Randomness is never owned by a component: every operation that
//! consumes it takes the caller's generator, so a run is reproducible from
//! one seed.

pub mod chromosome;
pub mod eye;
pub mod fixed;
pub mod genetics;
pub mod geom;
pub mod network;
pub mod rng;
pub mod world;
