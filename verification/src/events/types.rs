use crate::vm::helpers::{ConfFile, ConfFileView};
use crate::vm::types::text_view;
use vstd::prelude::*;
use vstd::string::*;

verus! {

/// The key of a key event, as far as the controller tells keys apart.
#[derive(Clone, Copy, Debug, PartialEq, Eq)]
pub enum KeyCode {
    Down,
    Up,
    Home,
    End,
    Esc,
    Enter,
    Left,
    Right,
    Tab,
    Char(char),
    /// Any other key.
    Other,
}

/// What happened to the key.
#[derive(Clone, Copy, Debug, PartialEq, Eq)]
pub enum KeyEventKind {
    Press,
    Repeat,
    Release,
}

/// A key event of the terminal.
#[derive(Clone, Copy, Debug, PartialEq, Eq)]
pub struct KeyEvent {
    pub code: KeyCode,
    pub kind: KeyEventKind,
}

/// What the controller is told: by the terminal, by the watcher of the directory, by
/// a launch that ended, or in answer to an action that it asked for.
#[derive(Debug, PartialEq, Eq)]
pub enum AppEvent {
    ForceRender,
    Key(KeyEvent),
    StartNbFailed { vm_name: String, error: String, stdout: String, stderr: String },
    StartNbSuccess { vm_name: String },
    KillFailed { vm_name: String, error: String },
    FatalError(String),
    VmConfCreated(String),
    VmConfModified(String),
    VmConfDeleted(String),
    KernelCreated(String),
    KernelModified(String),
    KernelDeleted(String),
    PidFileDeleted(String),
    PidFileCreated(String),
    ImageFileCreated(String),
    ImageFileModified(String),
    ImageFileDeleted(String),
    /// The answer to `Action::ReadConf`: the configuration file as it was found.
    VmConfRead(ConfFile),
    /// The answer to `Action::ReadPidFile`: the content of the machine's process-id
    /// file, or nothing where the file is missing or cannot be read.
    PidFileRead { vm_name: String, pid_file: Option<String> },
    /// The answer to `Action::Signal`: what the system answered, 0 for success, and
    /// its words for a failure.
    SignalSent { vm_name: String, code: i32, error: String, delete: bool },
}

/// What an event holds.
pub enum AppEventView {
    ForceRender,
    Key(KeyEvent),
    StartNbFailed { vm_name: Seq<char>, error: Seq<char>, stdout: Seq<char>, stderr: Seq<char> },
    StartNbSuccess { vm_name: Seq<char> },
    KillFailed { vm_name: Seq<char>, error: Seq<char> },
    FatalError(Seq<char>),
    VmConfCreated(Seq<char>),
    VmConfModified(Seq<char>),
    VmConfDeleted(Seq<char>),
    KernelCreated(Seq<char>),
    KernelModified(Seq<char>),
    KernelDeleted(Seq<char>),
    PidFileDeleted(Seq<char>),
    PidFileCreated(Seq<char>),
    ImageFileCreated(Seq<char>),
    ImageFileModified(Seq<char>),
    ImageFileDeleted(Seq<char>),
    VmConfRead(ConfFileView),
    PidFileRead { vm_name: Seq<char>, pid_file: Option<Seq<char>> },
    SignalSent { vm_name: Seq<char>, code: i32, error: Seq<char>, delete: bool },
}

impl View for AppEvent {
    type V = AppEventView;

    open spec fn view(&self) -> AppEventView {
        match self {
            AppEvent::ForceRender => AppEventView::ForceRender,
            AppEvent::Key(key) => AppEventView::Key(*key),
            AppEvent::StartNbFailed { vm_name, error, stdout, stderr } => {
                AppEventView::StartNbFailed {
                    vm_name: vm_name@,
                    error: error@,
                    stdout: stdout@,
                    stderr: stderr@,
                }
            },
            AppEvent::StartNbSuccess { vm_name } => AppEventView::StartNbSuccess {
                vm_name: vm_name@,
            },
            AppEvent::KillFailed { vm_name, error } => AppEventView::KillFailed {
                vm_name: vm_name@,
                error: error@,
            },
            AppEvent::FatalError(error) => AppEventView::FatalError(error@),
            AppEvent::VmConfCreated(path) => AppEventView::VmConfCreated(path@),
            AppEvent::VmConfModified(path) => AppEventView::VmConfModified(path@),
            AppEvent::VmConfDeleted(path) => AppEventView::VmConfDeleted(path@),
            AppEvent::KernelCreated(file) => AppEventView::KernelCreated(file@),
            AppEvent::KernelModified(file) => AppEventView::KernelModified(file@),
            AppEvent::KernelDeleted(file) => AppEventView::KernelDeleted(file@),
            AppEvent::PidFileDeleted(vm_name) => AppEventView::PidFileDeleted(vm_name@),
            AppEvent::PidFileCreated(vm_name) => AppEventView::PidFileCreated(vm_name@),
            AppEvent::ImageFileCreated(file) => AppEventView::ImageFileCreated(file@),
            AppEvent::ImageFileModified(file) => AppEventView::ImageFileModified(file@),
            AppEvent::ImageFileDeleted(file) => AppEventView::ImageFileDeleted(file@),
            AppEvent::VmConfRead(file) => AppEventView::VmConfRead(file@),
            AppEvent::PidFileRead { vm_name, pid_file } => AppEventView::PidFileRead {
                vm_name: vm_name@,
                pid_file: text_view(*pid_file),
            },
            AppEvent::SignalSent { vm_name, code, error, delete } => AppEventView::SignalSent {
                vm_name: vm_name@,
                code: *code,
                error: error@,
                delete: *delete,
            },
        }
    }
}

/// What the controller asks its caller to do after an event. The caller does it at
/// once, before it hands over the next event of the queue; where the action has an
/// answer, the answer is the next event that the controller gets.
#[derive(Debug, PartialEq, Eq)]
pub enum Action {
    /// Nothing.
    Nothing,
    /// Run the launcher for the machine on a worker, and put what comes of it into
    /// the queue.
    Launch { vm_name: String },
    /// Send the termination signal to the process, and answer with
    /// `AppEvent::SignalSent`, handing `vm_name` and `delete` back.
    Signal { vm_name: String, pid: u32, delete: bool },
    /// Delete the configuration file.
    RemoveConf { conf_file: String },
    /// Read the configuration file and the process-id file, and answer with
    /// `AppEvent::VmConfRead`.
    ReadConf { conf_file: String, pid_file: String },
    /// Read the process-id file, and answer with `AppEvent::PidFileRead`.
    ReadPidFile { vm_name: String, pid_file: String },
    /// Put the event into the queue.
    Send(AppEvent),
}

/// What an action holds.
pub enum ActionView {
    Nothing,
    Launch { vm_name: Seq<char> },
    Signal { vm_name: Seq<char>, pid: u32, delete: bool },
    RemoveConf { conf_file: Seq<char> },
    ReadConf { conf_file: Seq<char>, pid_file: Seq<char> },
    ReadPidFile { vm_name: Seq<char>, pid_file: Seq<char> },
    Send(AppEventView),
}

impl View for Action {
    type V = ActionView;

    open spec fn view(&self) -> ActionView {
        match self {
            Action::Nothing => ActionView::Nothing,
            Action::Launch { vm_name } => ActionView::Launch { vm_name: vm_name@ },
            Action::Signal { vm_name, pid, delete } => ActionView::Signal {
                vm_name: vm_name@,
                pid: *pid,
                delete: *delete,
            },
            Action::RemoveConf { conf_file } => ActionView::RemoveConf { conf_file: conf_file@ },
            Action::ReadConf { conf_file, pid_file } => ActionView::ReadConf {
                conf_file: conf_file@,
                pid_file: pid_file@,
            },
            Action::ReadPidFile { vm_name, pid_file } => ActionView::ReadPidFile {
                vm_name: vm_name@,
                pid_file: pid_file@,
            },
            Action::Send(event) => ActionView::Send(event@),
        }
    }
}

/// What an event that may be missing holds.
pub open spec fn event_view(event: Option<AppEvent>) -> Option<AppEventView> {
    match event {
        Some(e) => Some(e@),
        None => None,
    }
}

} // verus!
