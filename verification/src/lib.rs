//! A wizard-style selection engine that narrows a catalog of virtual-machine
//! image configurations down to one buildable combination of operating
//! system, release, edition, and CPU architecture, plus independent RAM,
//! CPU-core, and output-directory settings.
//!
//! The heart of the crate is the cascading constraint propagation in
//! [`selection`]: whenever one of the three catalog-derived fields changes,
//! the valid-choice lists of the others are recomputed from the remaining
//! catalog records, and any previously chosen value that is no longer
//! reachable is cleared, cascading to a fixed point.

pub mod arch;
pub mod catalog;
pub mod creation;
pub mod selection;
