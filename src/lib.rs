//! Resilient collection of per-entity measurements: a cache-first fetch
//! task with exponential backoff, a catalog of known entities, batch
//! combination per metric, and exact aggregation of observations.

pub mod aggregate;
pub mod retry;
pub mod task;
pub mod entity;
pub mod catalog;
pub mod batch;
pub mod keys;
pub mod parks;
