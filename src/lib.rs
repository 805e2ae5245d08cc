//! The combat and entity-lifecycle core of a 2D space shooter: a ship with
//! switchable weapons (a cooldown cannon and a hit-scan laser) against
//! asteroids that burst into shards, which the ship's magnet collects.
//!
//! Entities are plain records in per-kind stores, referring to one another by
//! id. Each system is one pass over the stores for one tick; structural
//! changes (spawns, despawns, wrecks) are queued and made afterwards by
//! `world::World::apply`. Positions are whole world units, times are
//! microseconds.
pub mod asteroids;
pub mod basics;
mod chance;
pub mod combat;
pub mod geometry;
pub mod laser;
pub mod laws;
pub mod magnet;
pub mod ship;
pub mod weapons;
pub mod world;
