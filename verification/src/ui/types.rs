use vstd::prelude::*;
use vstd::string::*;

verus! {

/// What the front end shows.
#[derive(Clone, Debug, PartialEq, Eq)]
pub enum Screen {
    /// The list of the machines.
    List,
    /// The question whether to delete the selected machine; `true` where "OK" is
    /// the chosen answer.
    DeleteConfirmation(bool),
    /// The report of a launch that failed.
    StartNbFailed { vm_name: String, error: String, stdout: String, stderr: String },
    /// The report of a termination signal that could not be sent.
    KillFailed { vm_name: String, error: String },
}

/// What a screen holds.
pub enum ScreenView {
    List,
    DeleteConfirmation(bool),
    StartNbFailed { vm_name: Seq<char>, error: Seq<char>, stdout: Seq<char>, stderr: Seq<char> },
    KillFailed { vm_name: Seq<char>, error: Seq<char> },
}

impl View for Screen {
    type V = ScreenView;

    open spec fn view(&self) -> ScreenView {
        match self {
            Screen::List => ScreenView::List,
            Screen::DeleteConfirmation(ok) => ScreenView::DeleteConfirmation(*ok),
            Screen::StartNbFailed { vm_name, error, stdout, stderr } => ScreenView::StartNbFailed {
                vm_name: vm_name@,
                error: error@,
                stdout: stdout@,
                stderr: stderr@,
            },
            Screen::KillFailed { vm_name, error } => ScreenView::KillFailed {
                vm_name: vm_name@,
                error: error@,
            },
        }
    }
}

} // verus!
