//! Health status engine for a tree of monitored services: probes hold nodes,
//! nodes hold replicas. Replica results roll up to nodes, probes and a global
//! status, from which notifications are decided.
//!
//! Times are milliseconds since the Unix epoch and come from the caller, as
//! does the clock text stamped on notifications; configured delays and
//! intervals are seconds; CPU and RAM loads are fractions counted in
//! ten-thousandths.

pub mod status;
pub mod mode;
pub mod replica;
pub mod config;
pub mod maps;
pub mod states;
pub mod aggregator;
pub mod prober;
pub mod store;
pub mod resolver;
pub mod topology;
pub mod report;
pub mod notifier;
pub mod defaults;
pub mod payload;
