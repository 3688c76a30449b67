//! Simulation core of a persistent space-pirate basketball world: resource
//! ledgers, team locations, trade and challenge negotiations, and the world
//! aggregate that ties them together.
pub mod audio;
pub mod clock;
pub mod negotiation;
pub mod resources;
pub mod store;
pub mod team;
pub mod types;
pub mod views;
pub mod world;
