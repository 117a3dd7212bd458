//! The state of the controller.
pub mod state;

pub use state::State;
