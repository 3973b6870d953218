//! Bookkeeping core of a planar point-and-spring network: the arena that
//! hands out point and spring ids, resolves spring endpoints, and the
//! schedule that drives a fixed-length simulation run.
pub mod network;
pub mod run;

pub use network::{DanglingSpring, Endpoints, Link, Network, SpringKind};
pub use run::{Action, Run};
