//! Decision engine for a population of agents on a shared, zoned tile grid.
//!
//! Each world tick the engine balances roles over the population, steps every
//! agent's gather/act state machine, resolves targets through a tiered
//! nearest-target search, and feeds all pathfinding from a per-zone movement
//! cost cache that is invalidated once per tick.

pub mod balancer;
pub mod behavior;
pub mod cache;
pub mod checks;
pub mod codec;
pub mod cost;
pub mod machine;
pub mod model;
pub mod resolver;
pub mod scheduler;
pub mod search;
pub mod stats;
