//! A packet-driven combat-encounter engine for an online action RPG.
//!
//! The library consumes a stream of decoded game-protocol packets and keeps a
//! live statistical model of every participant of the current encounter:
//! players, their summons and projectiles, bosses, and related world objects.
//! It attributes damage to the correct owner through chains of indirection,
//! tracks party membership and status effects, and drives the phase state
//! machine of the encounter lifecycle.
//!
//! The capture transport, the per-opcode binary decoders, the presentation
//! window, and the persistent store are external collaborators: they hand the
//! engine plain values and receive plain values back.

pub mod clock;
pub mod encounter;
pub mod engine;
pub mod entity_tracker;
pub mod id_tracker;
pub mod models;
pub mod party_tracker;
pub mod skill_tracker;
pub mod status_tracker;
pub mod smap;
pub mod vmap;
