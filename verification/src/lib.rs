//! Core logic of an authoritative game server: session liveness tracking,
//! a typed event protocol with a verified binary codec, a deterministic
//! projectile-trajectory model, and cast/hit resolution.

pub mod fixp;
pub mod projectile;
pub mod protocol;
pub mod registry;
pub mod resolver;
pub mod rng;
pub mod server;
