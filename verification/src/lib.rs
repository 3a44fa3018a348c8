//! Selector-driven reconciliation engine for deriving per-workload
//! autoscaling policy objects from cluster-scoped policy templates.
//!
//! The crate verifies the pure core of the engine: label-selector
//! evaluation, compilation of selectors into server-side query strings,
//! the reverse-index router that maps workload changes back to policy
//! objects, and the computation of the desired set of derived objects
//! for one reconcile pass.  All network I/O lives outside this library.

pub mod admission;
pub mod cluster;
pub mod error;
pub mod labels;
pub mod objects;
pub mod query;
pub mod reconcile;
pub mod router;
pub mod strings;
