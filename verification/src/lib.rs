//! `forgelag`: a deterministic, latency-first replay core for cross-venue
//! basis / lag strategies, with its feed plumbing, order-fill model, maker
//! quoting state machines, configuration checks and purged cross-validation.

pub mod side;
pub mod cv;
pub mod text;
pub mod engine;
pub mod feed;
pub mod strategy;
pub mod maker;
pub mod sweep;
pub mod calendar;
