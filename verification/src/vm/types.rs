use crate::number::{
    decimal_text, int_error_message, int_error_text, parse_decimal, parse_u16, parse_u32, parse_u8,
    u32_to_decimal,
};
use crate::text::{
    base_name, chars_of, ends_with, skip_class_back, str_eq, string_of, subvec, trim,
    trim_matches_chars, CharClass,
};
use crate::ui::{
    invalid_conf_vm_fg, running_vm_fg, starting_vm_fg, stopped_vm_fg, stopping_vm_fg,
};
use crate::vm::helpers::{parse_bool, parse_bool_spec};
use ratatui::style::Color;
use vstd::prelude::*;
use vstd::string::*;

verus! {

/// Where a machine stands in its life cycle.
#[derive(Clone, Debug, PartialEq, Eq)]
pub enum VmState {
    /// The configuration file holds a value that cannot be read.
    InvalidConfiguration { cause: String },
    /// The launcher was asked to start the machine and has not answered yet.
    Starting,
    /// The machine's process-id file is there and names `pid`.
    Running { pid: u32 },
    /// The termination signal was sent; the process-id file is not known to be gone.
    Stopping,
    /// As `Stopping`, and the machine leaves the list once the file is gone.
    StoppingToDelete,
    /// No process-id file is there.
    Stopped,
}

/// What a state holds.
pub enum VmStateView {
    InvalidConfiguration { cause: Seq<char> },
    Starting,
    Running { pid: u32 },
    Stopping,
    StoppingToDelete,
    Stopped,
}

impl View for VmState {
    type V = VmStateView;

    open spec fn view(&self) -> VmStateView {
        match self {
            VmState::InvalidConfiguration { cause } => VmStateView::InvalidConfiguration {
                cause: cause@,
            },
            VmState::Starting => VmStateView::Starting,
            VmState::Running { pid } => VmStateView::Running { pid: *pid },
            VmState::Stopping => VmStateView::Stopping,
            VmState::StoppingToDelete => VmStateView::StoppingToDelete,
            VmState::Stopped => VmStateView::Stopped,
        }
    }
}

/// One virtual machine: what its configuration file says, and its state.
#[derive(Clone, Debug, PartialEq, Eq)]
pub struct Vm {
    /// The name of the configuration file without `.conf`.
    pub name: String,
    /// The disk image.
    pub img: Option<String>,
    /// The kernel to load.
    pub kernel: Option<String>,
    pub mem: Option<String>,
    pub cores: Option<u8>,
    pub hostfwd: Option<String>,
    pub editprotect: bool,
    pub rmprotect: bool,
    pub qmp_port: Option<u16>,
    pub bridgenet: Option<String>,
    pub share: Option<String>,
    pub sharerw: bool,
    pub extra: Option<String>,
    pub state: VmState,
    pub cpu_usage: u8,
}

/// What a machine holds.
pub struct VmView {
    pub name: Seq<char>,
    pub img: Option<Seq<char>>,
    pub kernel: Option<Seq<char>>,
    pub mem: Option<Seq<char>>,
    pub cores: Option<u8>,
    pub hostfwd: Option<Seq<char>>,
    pub editprotect: bool,
    pub rmprotect: bool,
    pub qmp_port: Option<u16>,
    pub bridgenet: Option<Seq<char>>,
    pub share: Option<Seq<char>>,
    pub sharerw: bool,
    pub extra: Option<Seq<char>>,
    pub state: VmStateView,
    pub cpu_usage: u8,
}

/// What a text that may be missing holds.
pub open spec fn text_view(text: Option<String>) -> Option<Seq<char>> {
    match text {
        Some(t) => Some(t@),
        None => None,
    }
}

impl View for Vm {
    type V = VmView;

    open spec fn view(&self) -> VmView {
        VmView {
            name: self.name@,
            img: text_view(self.img),
            kernel: text_view(self.kernel),
            mem: text_view(self.mem),
            cores: self.cores,
            hostfwd: text_view(self.hostfwd),
            editprotect: self.editprotect,
            rmprotect: self.rmprotect,
            qmp_port: self.qmp_port,
            bridgenet: text_view(self.bridgenet),
            share: text_view(self.share),
            sharerw: self.sharerw,
            extra: text_view(self.extra),
            state: self.state@,
            cpu_usage: self.cpu_usage,
        }
    }
}

/// What a list of settings holds: each key with its value.
pub open spec fn conf_view(conf: Seq<(&str, &str)>) -> Seq<(Seq<char>, Seq<char>)> {
    conf.map_values(|entry: (&str, &str)| (entry.0@, entry.1@))
}

/// Whether the file's name ends in `.conf`.
pub open spec fn is_conf_file(conf_file: Seq<char>) -> bool {
    ends_with(base_name(conf_file), ".conf"@)
}

/// The name of the machine that a configuration file describes: the file's name
/// without the directories before it and without `.conf`.
pub open spec fn conf_name(conf_file: Seq<char>) -> Seq<char> {
    let file = base_name(conf_file);
    file.take(file.len() - ".conf"@.len())
}

/// The machine `name` before any setting is read.
pub open spec fn blank_vm(name: Seq<char>) -> VmView {
    VmView {
        name,
        img: None,
        kernel: None,
        mem: None,
        cores: None,
        hostfwd: None,
        editprotect: false,
        rmprotect: false,
        qmp_port: None,
        bridgenet: None,
        share: None,
        sharerw: false,
        extra: None,
        state: VmStateView::Stopped,
        cpu_usage: 0,
    }
}

/// Why a value of `cores` is refused.
pub open spec fn cores_cause(value: Seq<char>, error: Seq<char>) -> Seq<char> {
    "Failed to convert 'cores' parameter ("@ + value + ") to a u8: "@ + error
}

/// Why a value of the switch `key` is refused.
pub open spec fn bool_cause(key: Seq<char>, value: Seq<char>, error: Seq<char>) -> Seq<char> {
    "Failed to parse '"@ + key + "' parameter ("@ + value + ") to a boolean: "@ + error
}

/// `vm` in the state of a configuration that cannot be read.
pub open spec fn invalid(vm: VmView, cause: Seq<char>) -> VmView {
    VmView { state: VmStateView::InvalidConfiguration { cause }, ..vm }
}

/// `vm` after the setting `key` = `value`. A key that is not known changes nothing; a
/// value of `cores` or of a switch that cannot be read changes the state alone.
pub open spec fn apply_entry(vm: VmView, key: Seq<char>, value: Seq<char>) -> VmView {
    if key == "img"@ {
        VmView { img: Some(value), ..vm }
    } else if key == "kernel"@ {
        VmView { kernel: Some(value), ..vm }
    } else if key == "mem"@ {
        VmView { mem: Some(value), ..vm }
    } else if key == "cores"@ {
        match parse_decimal(value, 255) {
            Ok(n) => VmView { cores: Some(n as u8), ..vm },
            Err(e) => invalid(vm, cores_cause(value, int_error_text(e))),
        }
    } else if key == "hostfwd"@ {
        VmView { hostfwd: Some(value), ..vm }
    } else if key == "editprotect"@ {
        match parse_bool_spec(value) {
            Ok(b) => VmView { editprotect: b, ..vm },
            Err(e) => invalid(vm, bool_cause(key, value, e)),
        }
    } else if key == "rmprotect"@ {
        match parse_bool_spec(value) {
            Ok(b) => VmView { rmprotect: b, ..vm },
            Err(e) => invalid(vm, bool_cause(key, value, e)),
        }
    } else if key == "qmp_port"@ {
        match parse_decimal(value, 65535) {
            Ok(n) => VmView { qmp_port: Some(n as u16), ..vm },
            Err(_) => VmView { qmp_port: Some(0), ..vm },
        }
    } else if key == "bridgenet"@ {
        VmView { bridgenet: Some(value), ..vm }
    } else if key == "share"@ {
        VmView { share: Some(value), ..vm }
    } else if key == "sharerw"@ {
        match parse_bool_spec(value) {
            Ok(b) => VmView { sharerw: b, ..vm },
            Err(e) => invalid(vm, bool_cause(key, value, e)),
        }
    } else if key == "extra"@ {
        VmView { extra: Some(value), ..vm }
    } else {
        vm
    }
}

/// `vm` after the settings `conf`, read in their order up to the first whose value
/// cannot be read: that one sets the state, and none after it is looked at.
pub open spec fn apply_conf(vm: VmView, conf: Seq<(Seq<char>, Seq<char>)>) -> VmView
    decreases conf.len(),
{
    if conf.len() == 0 {
        vm
    } else {
        let next = apply_entry(vm, conf[0].0, conf[0].1);
        if next.state is InvalidConfiguration {
            next
        } else {
            apply_conf(next, conf.drop_first())
        }
    }
}

/// The process id that a process-id file names: the number that its content writes,
/// white space around it left aside. None where the file is missing, cannot be read or
/// holds something else.
pub open spec fn pid_of(pid_file: Option<Seq<char>>) -> Option<u32> {
    match pid_file {
        Some(content) => match parse_decimal(trim(content), u32::MAX as nat) {
            Ok(n) => Some(n as u32),
            Err(_) => None,
        },
        None => None,
    }
}

/// The state that a process-id file stands for.
pub open spec fn pid_file_state(pid_file: Option<Seq<char>>) -> VmStateView {
    match pid_of(pid_file) {
        Some(pid) => VmStateView::Running { pid },
        None => VmStateView::Stopped,
    }
}

/// The states in which a look at the process-id file decides the state anew.
pub open spec fn follows_pid_file(state: VmStateView) -> bool {
    state is Starting || state is Running || state is Stopped || state is Stopping
}

/// `vm` after a look at its process-id file.
pub open spec fn update_state_spec(vm: VmView, pid_file: Option<Seq<char>>) -> VmView {
    if follows_pid_file(vm.state) {
        VmView { state: pid_file_state(pid_file), ..vm }
    } else {
        vm
    }
}

/// The message for a termination signal that could not be sent to `pid`.
pub open spec fn kill_error(pid: u32, err_str: Seq<char>) -> Seq<char> {
    "Failed to kill PID "@ + decimal_text(pid as nat) + ": "@ + err_str
}

/// `vm` after the attempt to send it the termination signal ended with `code`.
pub open spec fn kill_spec(vm: VmView, code: i32) -> VmView {
    if vm.state is Running && code == 0 {
        VmView { state: VmStateView::Stopping, ..vm }
    } else {
        vm
    }
}

/// What the attempt to send the termination signal is reported as.
pub open spec fn kill_result(vm: VmView, code: i32, err_str: Seq<char>) -> Result<(), Seq<char>> {
    match vm.state {
        VmStateView::Running { pid } => if code == 0 {
            Ok(())
        } else {
            Err(kill_error(pid, err_str))
        },
        _ => Ok(()),
    }
}

/// The words that name a state on the screen.
pub open spec fn state_label(state: VmStateView) -> Seq<char> {
    match state {
        VmStateView::InvalidConfiguration { .. } => "Invalid configuration"@,
        VmStateView::Starting => "Starting..."@,
        VmStateView::Running { .. } => "Running"@,
        VmStateView::Stopping => "Stopping"@,
        VmStateView::StoppingToDelete => "Stopping"@,
        VmStateView::Stopped => "Stopped"@,
    }
}

/// The colour in which a state is shown.
pub open spec fn state_color(state: VmStateView) -> Color {
    match state {
        VmStateView::InvalidConfiguration { .. } => Color::Red,
        VmStateView::Starting => Color::LightGreen,
        VmStateView::Running { .. } => Color::Indexed(74),
        VmStateView::Stopping => Color::Magenta,
        VmStateView::StoppingToDelete => Color::Magenta,
        VmStateView::Stopped => Color::Indexed(202),
    }
}

/// The key `cores` is none of the keys that are looked for before it.
pub proof fn lemma_cores_is_no_other_key()
    ensures
        "cores"@ != "img"@,
        "cores"@ != "kernel"@,
        "cores"@ != "mem"@,
{
    reveal_strlit("cores");
    reveal_strlit("img");
    reveal_strlit("kernel");
    reveal_strlit("mem");
    assert("cores"@.len() == 5);
    assert("img"@.len() == 3);
    assert("kernel"@.len() == 6);
    assert("mem"@.len() == 3);
}

/// The settings leave the name alone.
pub proof fn lemma_apply_conf_keeps_name(vm: VmView, conf: Seq<(Seq<char>, Seq<char>)>)
    ensures
        apply_conf(vm, conf).name == vm.name,
    decreases conf.len(),
{
    if conf.len() > 0 {
        let next = apply_entry(vm, conf[0].0, conf[0].1);
        if !(next.state is InvalidConfiguration) {
            lemma_apply_conf_keeps_name(next, conf.drop_first());
        }
    }
}

/// Reading stops at the first setting whose value cannot be read: the machine is what
/// the settings before it made of it, in the state of a configuration that cannot be
/// read. No setting after that one changes anything.
pub proof fn lemma_first_fault_stops_reading(
    vm: VmView,
    conf: Seq<(Seq<char>, Seq<char>)>,
    i: int,
)
    requires
        0 <= i < conf.len(),
        !(apply_conf(vm, conf.take(i)).state is InvalidConfiguration),
        apply_entry(
            apply_conf(vm, conf.take(i)),
            conf[i].0,
            conf[i].1,
        ).state is InvalidConfiguration,
    ensures
        apply_conf(vm, conf) == apply_entry(apply_conf(vm, conf.take(i)), conf[i].0, conf[i].1),
    decreases i,
{
    if i == 0 {
        assert(conf.take(0).len() == 0);
    } else {
        let next = apply_entry(vm, conf[0].0, conf[0].1);
        assert(conf.take(i)[0] == conf[0]);
        assert(conf.take(i).drop_first() == conf.drop_first().take(i - 1));
        lemma_first_fault_stops_reading(next, conf.drop_first(), i - 1);
    }
}

/// Reading stops at a value of `cores` that is no number from 0 to 255: where the
/// settings before the one at `i` were read without fault, the machine is what those
/// settings made of it, in the state of a configuration that cannot be read. No setting
/// after that one changes anything.
pub proof fn lemma_bad_cores_stops_reading(
    vm: VmView,
    conf: Seq<(Seq<char>, Seq<char>)>,
    i: int,
)
    requires
        0 <= i < conf.len(),
        conf[i].0 == "cores"@,
        parse_decimal(conf[i].1, 255) is Err,
        !(apply_conf(vm, conf.take(i)).state is InvalidConfiguration),
    ensures
        apply_conf(vm, conf) == invalid(
            apply_conf(vm, conf.take(i)),
            cores_cause(conf[i].1, int_error_text(parse_decimal(conf[i].1, 255)->Err_0)),
        ),
{
    lemma_cores_is_no_other_key();
    lemma_first_fault_stops_reading(vm, conf, i);
}

/// A value of `cores` that is no number from 0 to 255 makes the configuration one
/// that cannot be read, wherever in the file it stands.
pub proof fn lemma_bad_cores_is_invalid(vm: VmView, conf: Seq<(Seq<char>, Seq<char>)>, i: int)
    requires
        0 <= i < conf.len(),
        conf[i].0 == "cores"@,
        parse_decimal(conf[i].1, 255) is Err,
    ensures
        apply_conf(vm, conf).state is InvalidConfiguration,
    decreases i,
{
    lemma_cores_is_no_other_key();
    let next = apply_entry(vm, conf[0].0, conf[0].1);
    if i > 0 && !(next.state is InvalidConfiguration) {
        lemma_bad_cores_is_invalid(next, conf.drop_first(), i - 1);
    }
}

impl Vm {
    /// The machine that the configuration file `conf_file` describes, from the
    /// settings `vm_conf` read in it. Its state is `Stopped`, or that of a configuration
    /// that cannot be read.
    pub fn new(vm_conf: Vec<(&str, &str)>, conf_file: &str) -> (vm: Vm)
        requires
            is_conf_file(conf_file@),
        ensures
            vm@ == apply_conf(blank_vm(conf_name(conf_file@)), conf_view(vm_conf@)),
            vm@.name == conf_name(conf_file@),
    {
        let path = chars_of(conf_file);
        let from = skip_class_back(&path, CharClass::Not('/'), 0, path.len());
        let file = subvec(&path, from, path.len());
        let suffix = chars_of(".conf");
        proof {
            assert(path@.subrange(0, path@.len() as int) == path@);
            assert(file@ == base_name(conf_file@));
        }
        let stem = subvec(&file, 0, file.len() - suffix.len());
        let mut res = Vm {
            name: string_of(&stem),
            img: None,
            kernel: None,
            mem: None,
            cores: None,
            hostfwd: None,
            editprotect: false,
            rmprotect: false,
            qmp_port: None,
            bridgenet: None,
            share: None,
            sharerw: false,
            extra: None,
            state: VmState::Stopped,
            cpu_usage: 0,
        };
        let ghost conf = conf_view(vm_conf@);
        let ghost start = res@;
        proof {
            lemma_apply_conf_keeps_name(start, conf);
            assert(conf.skip(0) == conf);
        }
        let mut i: usize = 0;
        while i < vm_conf.len()
            invariant
                0 <= i <= vm_conf@.len(),
                conf == conf_view(vm_conf@),
                start == blank_vm(conf_name(conf_file@)),
                apply_conf(start, conf).name == start.name,
                !(res@.state is InvalidConfiguration),
                apply_conf(start, conf) == apply_conf(res@, conf.skip(i as int)),
            decreases vm_conf@.len() - i,
        {
            let (key, value) = vm_conf[i];
            let ghost before = res@;
            proof {
                assert(conf.skip(i as int)[0] == (key@, value@));
                assert(conf.skip(i as int).drop_first() == conf.skip(i + 1));
            }
            let failed = res.apply(key, value);
            if failed {
                return res;
            }
            i += 1;
        }
        res
    }

    /// Reads the setting `key` = `value` into the machine, and says whether the value
    /// was refused.
    fn apply(&mut self, key: &str, value: &str) -> (failed: bool)
        ensures
            final(self)@ == apply_entry(old(self)@, key@, value@),
            failed == (final(self)@.state is InvalidConfiguration),
    {
        if str_eq(key, "img") {
            self.img = Some(value.to_owned());
        } else if str_eq(key, "kernel") {
            self.kernel = Some(value.to_owned());
        } else if str_eq(key, "mem") {
            self.mem = Some(value.to_owned());
        } else if str_eq(key, "cores") {
            match parse_u8(value) {
                Ok(n) => {
                    self.cores = Some(n);
                },
                Err(e) => {
                    let mut cause = String::from_str("Failed to convert 'cores' parameter (");
                    cause.append(value);
                    cause.append(") to a u8: ");
                    cause.append(int_error_message(e));
                    self.state = VmState::InvalidConfiguration { cause };
                    return true;
                },
            }
        } else if str_eq(key, "hostfwd") {
            self.hostfwd = Some(value.to_owned());
        } else if str_eq(key, "editprotect") {
            match parse_bool(value) {
                Ok(b) => {
                    self.editprotect = b;
                },
                Err(e) => {
                    let cause = switch_cause(key, value, &e);
                    self.state = VmState::InvalidConfiguration { cause };
                    return true;
                },
            }
        } else if str_eq(key, "rmprotect") {
            match parse_bool(value) {
                Ok(b) => {
                    self.rmprotect = b;
                },
                Err(e) => {
                    let cause = switch_cause(key, value, &e);
                    self.state = VmState::InvalidConfiguration { cause };
                    return true;
                },
            }
        } else if str_eq(key, "qmp_port") {
            match parse_u16(value) {
                Ok(n) => {
                    self.qmp_port = Some(n);
                },
                Err(_) => {
                    self.qmp_port = Some(0);
                },
            }
        } else if str_eq(key, "bridgenet") {
            self.bridgenet = Some(value.to_owned());
        } else if str_eq(key, "share") {
            self.share = Some(value.to_owned());
        } else if str_eq(key, "sharerw") {
            match parse_bool(value) {
                Ok(b) => {
                    self.sharerw = b;
                },
                Err(e) => {
                    let cause = switch_cause(key, value, &e);
                    self.state = VmState::InvalidConfiguration { cause };
                    return true;
                },
            }
        } else if str_eq(key, "extra") {
            self.extra = Some(value.to_owned());
        }
        matches!(self.state, VmState::InvalidConfiguration { .. })
    }

    /// How the state is shown: its words and its colour.
    pub fn state(&self) -> (shown: (String, Color))
        ensures
            shown.0@ == state_label(self@.state),
            shown.1 == state_color(self@.state),
    {
        match self.state {
            VmState::InvalidConfiguration { .. } => (
                String::from_str("Invalid configuration"),
                invalid_conf_vm_fg(),
            ),
            VmState::Starting => (String::from_str("Starting..."), starting_vm_fg()),
            VmState::Running { .. } => (String::from_str("Running"), running_vm_fg()),
            VmState::Stopping => (String::from_str("Stopping"), stopping_vm_fg()),
            VmState::StoppingToDelete => (String::from_str("Stopping"), stopping_vm_fg()),
            VmState::Stopped => (String::from_str("Stopped"), stopped_vm_fg()),
        }
    }

    /// Decides the state anew from the machine's process-id file, of which `pid_file`
    /// is the content, or nothing where the file is missing or cannot be read. A
    /// machine whose configuration cannot be read, or that is stopping to be deleted,
    /// stays as it is.
    pub fn update_state(&mut self, pid_file: Option<&str>)
        ensures
            final(self)@ == update_state_spec(old(self)@, text_ref_view(pid_file)),
    {
        match &self.state {
            VmState::Starting | VmState::Running { .. } | VmState::Stopped | VmState::Stopping => {
                self.set_pid(pid_file);
            },
            VmState::InvalidConfiguration { .. } | VmState::StoppingToDelete => {},
        }
    }

    /// Records the outcome of the attempt to send the machine the termination signal:
    /// `code` is what the system answered, 0 for success, and `err_str` its words for
    /// a failure. A running machine that got the signal is stopping; one that did not
    /// stays as it is, and the failure is reported. Of a machine that is not running
    /// nothing changes.
    pub fn kill(&mut self, code: i32, err_str: &str) -> (res: Result<(), String>)
        ensures
            final(self)@ == kill_spec(old(self)@, code),
            match kill_result(old(self)@, code, err_str@) {
                Ok(_) => res is Ok,
                Err(e) => res is Err && res->Err_0@ == e,
            },
    {
        match self.state {
            VmState::Running { pid } => {
                if code == 0 {
                    self.state = VmState::Stopping;
                    Ok(())
                } else {
                    let mut message = String::from_str("Failed to kill PID ");
                    let number = u32_to_decimal(pid);
                    message.append(number.as_str());
                    message.append(": ");
                    message.append(err_str);
                    Err(message)
                }
            },
            _ => Ok(()),
        }
    }

    /// Whether the machine's process is known to run.
    pub fn is_running(&self) -> (r: bool)
        ensures
            r == (self@.state is Running),
    {
        matches!(self.state, VmState::Running { .. })
    }

    /// Sets the state to what the process-id file stands for: running with the
    /// process id that the file names, else stopped. As `update_state`, it leaves a
    /// machine alone whose configuration cannot be read or that is stopping to be
    /// deleted.
    pub fn set_pid(&mut self, pid_file: Option<&str>)
        ensures
            final(self)@ == update_state_spec(old(self)@, text_ref_view(pid_file)),
    {
        match &self.state {
            VmState::Starting | VmState::Running { .. } | VmState::Stopped | VmState::Stopping => {
                self.state = match pid_file {
                    Some(content) => {
                        let chars = chars_of(content);
                        let bare = trim_matches_chars(&chars, CharClass::Whitespace);
                        let number = string_of(&bare);
                        match parse_u32(number.as_str()) {
                            Ok(pid) => VmState::Running { pid },
                            Err(_) => VmState::Stopped,
                        }
                    },
                    None => VmState::Stopped,
                };
            },
            VmState::InvalidConfiguration { .. } | VmState::StoppingToDelete => {},
        }
    }
}

/// What a borrowed text that may be missing holds.
pub open spec fn text_ref_view(text: Option<&str>) -> Option<Seq<char>> {
    match text {
        Some(t) => Some(t@),
        None => None,
    }
}

/// The cause of a switch's value being refused.
fn switch_cause(key: &str, value: &str, error: &String) -> (cause: String)
    ensures
        cause@ == bool_cause(key@, value@, error@),
{
    let mut cause = String::from_str("Failed to parse '");
    cause.append(key);
    cause.append("' parameter (");
    cause.append(value);
    cause.append(") to a boolean: ");
    cause.append(error.as_str());
    cause
}

} // verus!
