//! Decision engine of a tile-based city simulation: a street graph with path
//! queries, a desirability field, a housing/employment matching queue and a
//! power allocator, together with the building and map models they work on.
use vstd::prelude::*;

pub mod blueprint;
pub mod buildings;
pub mod city_map;
pub mod configuration;
pub mod construction;
pub mod entity_storage;
pub mod errors;
pub mod inhabitant;
pub mod mayor;
pub mod navigator;
pub mod orchestrator;
pub mod palatability;
pub mod palatability_manager;
pub mod point;
pub mod position;
pub mod power;
pub mod requests;
pub mod responses;
pub mod sums;

verus! {

/// Identifier of a building or an inhabitant.
pub type EntityId = u64;

} // verus!
