//! The controller of a dashboard for virtual machines.
//!
//! Each machine is described by a configuration file `etc/<name>.conf` below a base
//! directory, is started by the script `startnb.sh` in that directory, and is known to
//! run by its process-id file `qemu-<name>.pid`. The controller keeps the list of the
//! machines and the state of each in step with three sources of events: the keys of the
//! operator, the changes of the files, and the launches that end.
//!
//! The controller does no input or output. [`events::handle`] applies one event to the
//! [`app::State`] and answers with an [`events::Action`]: what its caller is to do
//! before the next event, such as to read a file or to send a signal. What comes of the
//! action goes back in as the next event. The sources hand their raw notifications to
//! [`events::term_event`], [`events::fs::fs_event`] and [`events::launch::launch_event`],
//! which say which event to send, if any.
//!
//! - [`vm`]: a machine, the reading of its configuration file, its life cycle.
//! - [`events`]: the events, the three sources, and the step of the controller.
//! - [`app`]: the state that the controller owns.
//! - [`ui`]: the screens, and the colours of the states.
//! - [`laws`]: what holds of the controller whatever the events are.
//! - [`text`], [`number`]: texts as sequences of characters, and decimal numbers.
pub mod app;
pub mod events;
pub mod laws;
pub mod number;
pub mod text;
pub mod ui;
pub mod vm;
