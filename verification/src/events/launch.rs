use crate::events::types::{AppEvent, AppEventView};
use crate::text::{dir_prefix, dir_with_slash};
use vstd::prelude::*;
use vstd::string::*;

verus! {

/// How the attempt to run the launcher ended.
#[derive(Debug, PartialEq, Eq)]
pub enum LaunchOutcome {
    /// The launcher's path could not be resolved; the system's words for it.
    NotFound { error: String },
    /// The launcher could not be started; the system's words for it.
    SpawnFailed { error: String },
    /// The launcher ran: whether its exit status says success, and what it wrote.
    Exited { success: bool, stdout: String, stderr: String },
}

/// What an outcome holds.
pub enum LaunchOutcomeView {
    NotFound { error: Seq<char> },
    SpawnFailed { error: Seq<char> },
    Exited { success: bool, stdout: Seq<char>, stderr: Seq<char> },
}

impl View for LaunchOutcome {
    type V = LaunchOutcomeView;

    open spec fn view(&self) -> LaunchOutcomeView {
        match self {
            LaunchOutcome::NotFound { error } => LaunchOutcomeView::NotFound { error: error@ },
            LaunchOutcome::SpawnFailed { error } => LaunchOutcomeView::SpawnFailed {
                error: error@,
            },
            LaunchOutcome::Exited { success, stdout, stderr } => LaunchOutcomeView::Exited {
                success: *success,
                stdout: stdout@,
                stderr: stderr@,
            },
        }
    }
}

/// How the launcher is called: the program, its arguments, and the directory from
/// which it is run.
#[derive(Clone, Debug, PartialEq, Eq)]
pub struct LaunchCommand {
    pub program: String,
    pub args: Vec<String>,
    pub current_dir: String,
}

/// What a command holds.
pub struct LaunchCommandView {
    pub program: Seq<char>,
    pub args: Seq<Seq<char>>,
    pub current_dir: Seq<char>,
}

impl View for LaunchCommand {
    type V = LaunchCommandView;

    open spec fn view(&self) -> LaunchCommandView {
        LaunchCommandView {
            program: self.program@,
            args: self.args@.map_values(|arg: String| arg@),
            current_dir: self.current_dir@,
        }
    }
}

/// The call that starts the machine `vm_name`: `startnb.sh` in the base directory,
/// with the arguments `-f etc/<name>.conf -d`, run from the base directory.
pub open spec fn launch_command_spec(base_dir: Seq<char>, vm_name: Seq<char>) -> LaunchCommandView {
    LaunchCommandView {
        program: dir_prefix(base_dir) + "startnb.sh"@,
        args: seq!["-f"@, "etc/"@ + vm_name + ".conf"@, "-d"@],
        current_dir: base_dir,
    }
}

/// The one event that a launch ends in: success where the launcher ran and its exit
/// status says so; else failure, with what the launcher wrote where it ran, and with
/// nothing where it did not.
pub open spec fn launch_event_spec(vm_name: Seq<char>, outcome: LaunchOutcomeView) -> AppEventView {
    match outcome {
        LaunchOutcomeView::NotFound { error } => AppEventView::StartNbFailed {
            vm_name,
            error: "std::fs::canonicalize() failed: "@ + error,
            stdout: Seq::empty(),
            stderr: Seq::empty(),
        },
        LaunchOutcomeView::SpawnFailed { error } => AppEventView::StartNbFailed {
            vm_name,
            error: "startnb.sh failed: "@ + error,
            stdout: Seq::empty(),
            stderr: Seq::empty(),
        },
        LaunchOutcomeView::Exited { success, stdout, stderr } => if success {
            AppEventView::StartNbSuccess { vm_name }
        } else {
            AppEventView::StartNbFailed { vm_name, error: "startnb.sh failed!"@, stdout, stderr }
        },
    }
}

/// The call that starts the machine `vm_name`.
pub fn launch_command(base_dir: &str, vm_name: &str) -> (command: LaunchCommand)
    ensures
        command@ == launch_command_spec(base_dir@, vm_name@),
{
    let mut program = dir_with_slash(base_dir);
    program.append("startnb.sh");
    let mut conf = String::from_str("etc/");
    conf.append(vm_name);
    conf.append(".conf");
    let mut args: Vec<String> = Vec::new();
    args.push(String::from_str("-f"));
    args.push(conf);
    args.push(String::from_str("-d"));
    let command = LaunchCommand { program, args, current_dir: String::from_str(base_dir) };
    assert(command@.args == launch_command_spec(base_dir@, vm_name@).args);
    command
}

/// The event that reports how the launch of `vm_name` ended.
pub fn launch_event(vm_name: String, outcome: LaunchOutcome) -> (event: AppEvent)
    ensures
        event@ == launch_event_spec(vm_name@, outcome@),
{
    match outcome {
        LaunchOutcome::NotFound { error } => {
            let mut message = String::from_str("std::fs::canonicalize() failed: ");
            message.append(error.as_str());
            AppEvent::StartNbFailed {
                vm_name,
                error: message,
                stdout: String::new(),
                stderr: String::new(),
            }
        },
        LaunchOutcome::SpawnFailed { error } => {
            let mut message = String::from_str("startnb.sh failed: ");
            message.append(error.as_str());
            AppEvent::StartNbFailed {
                vm_name,
                error: message,
                stdout: String::new(),
                stderr: String::new(),
            }
        },
        LaunchOutcome::Exited { success, stdout, stderr } => {
            if success {
                AppEvent::StartNbSuccess { vm_name }
            } else {
                AppEvent::StartNbFailed {
                    vm_name,
                    error: String::from_str("startnb.sh failed!"),
                    stdout,
                    stderr,
                }
            }
        },
    }
}

} // verus!
