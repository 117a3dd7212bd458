//! What the front end needs from the controller: the screens, and the colour of
//! each state of a machine.
pub mod types;

use ratatui::style::Color;
use vstd::prelude::*;

pub use types::Screen;

verus! {

/// The colour type of the terminal library, with its variants.
#[verifier::external_type_specification]
pub struct ExColor(Color);

/// The colour of a machine that runs.
pub fn running_vm_fg() -> (color: Color)
    ensures
        color == Color::Indexed(74),
{
    Color::Indexed(74)
}

/// The colour of a machine that is stopped.
pub fn stopped_vm_fg() -> (color: Color)
    ensures
        color == Color::Indexed(202),
{
    Color::Indexed(202)
}

/// The colour of a machine whose configuration cannot be read.
pub fn invalid_conf_vm_fg() -> (color: Color)
    ensures
        color == Color::Red,
{
    Color::Red
}

/// The colour of a machine that is starting.
pub fn starting_vm_fg() -> (color: Color)
    ensures
        color == Color::LightGreen,
{
    Color::LightGreen
}

/// The colour of a machine that is stopping.
pub fn stopping_vm_fg() -> (color: Color)
    ensures
        color == Color::Magenta,
{
    Color::Magenta
}

} // verus!
