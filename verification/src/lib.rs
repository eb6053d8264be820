//! An artificial-life simulation core: mobile agents and predators forage,
//! evade, reproduce and die inside a bounded 2D arena of decaying food and
//! poison. Every quantity is a fixed-point integer (`configs::FX` steps per
//! world unit), so the genome model, the steering and movement passes, the
//! metabolism and collision rules, the population controller and the
//! resource economy are all verified: health stays in range, velocities
//! keep fixed-point unit length, populations respect their caps, nutrition
//! never decays past its despawn floor, and no consumable or prey is ever
//! consumed twice.

pub mod boid;
pub mod configs;
pub mod elements;
pub mod fx;
pub mod rng;
pub mod stats;
pub mod utils;
pub mod vec2;
pub mod world;
