//! The events that reach the controller, the sources that turn raw
//! notifications into them, and the step that applies one event to the state.
pub mod fs;
pub mod handle;
pub mod launch;
pub mod term;
pub mod types;

pub use fs::send_file_event;
pub use handle::handle;
pub use term::term_event;
pub use types::{Action, AppEvent};
