//! In-memory task-tracking core: entity model, the shared store with its
//! referential rules, and the analytics aggregation over a store snapshot.

pub mod analytics;
pub mod models;
pub mod seed;
pub mod store;
mod clock;
mod ids;
