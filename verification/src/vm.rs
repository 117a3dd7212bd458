//! The virtual machines: what a configuration file says of one, and its life cycle.
pub mod helpers;
pub mod types;

pub use types::{Vm, VmState};
