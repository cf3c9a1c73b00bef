//! A per-turn colony economy: planets own a resource ledger, buildings that
//! produce, consume or train military units, and named fleets. A world tick
//! resolves every planet's buildings in order and folds each outcome into the
//! owning planet's ledger or fleet.

pub mod resource;
pub mod military;
pub mod tickable;
pub mod buildings;
pub mod planet;
pub mod game_world;
