use crate::events::types::{Action, ActionView, AppEvent, AppEventView};
use crate::text::{str_eq, str_lt, text_lt};
use crate::ui::types::{Screen, ScreenView};
use crate::vm::helpers::{
    conf_file_path, conf_file_path_spec, lemma_vm_name_is_conf_name, pid_file_path,
    pid_file_path_spec, vm_from_conf, vm_from_conf_spec, vm_name, vm_name_of, vms_view, ConfFile,
    ConfFileView,
};
use crate::vm::types::{
    follows_pid_file, kill_result, kill_spec, text_ref_view, text_view, update_state_spec, Vm,
    VmState, VmStateView, VmView,
};
use crate::laws::lemma_new_state_is_sorted;
use ratatui::widgets::TableState;
use vstd::prelude::*;
use vstd::string::*;

verus! {

/// The selection state of the table of the terminal library.
#[verifier::external_type_specification]
#[verifier::external_body]
pub struct ExTableState(TableState);

/// The row that a table state marks as selected.
pub uninterp spec fn selected_row(table: TableState) -> Option<usize>;

/// `TableState::new`: no row is selected.
pub assume_specification[ TableState::new ]() -> (table: TableState)
    ensures
        selected_row(table) == None::<usize>,
;

/// `TableState::selected`: the selected row.
pub assume_specification[ TableState::selected ](table: &TableState) -> (row: Option<usize>)
    ensures
        row == selected_row(*table),
;

/// `TableState::select`: the selected row becomes `index`.
pub assume_specification[ TableState::select ](table: &mut TableState, index: Option<usize>)
    ensures
        selected_row(*final(table)) == index,
;

/// `TableState::select_next`: the row after the selected one, not past the largest
/// number; the first row where none was selected.
pub assume_specification[ TableState::select_next ](table: &mut TableState)
    ensures
        selected_row(*final(table)) == next_row(selected_row(*old(table))),
;

/// `TableState::select_previous`: the row before the selected one, not before the
/// first; the largest number where none was selected.
pub assume_specification[ TableState::select_previous ](table: &mut TableState)
    ensures
        selected_row(*final(table)) == previous_row(selected_row(*old(table))),
;

/// `TableState::select_first`: the first row.
pub assume_specification[ TableState::select_first ](table: &mut TableState)
    ensures
        selected_row(*final(table)) == Some(0usize),
;

/// `TableState::select_last`: the largest number, which stands for the last row.
pub assume_specification[ TableState::select_last ](table: &mut TableState)
    ensures
        selected_row(*final(table)) == Some(usize::MAX),
;

/// The selection after a step down.
pub open spec fn next_row(row: Option<usize>) -> Option<usize> {
    match row {
        Some(i) => if i < usize::MAX {
            Some((i + 1) as usize)
        } else {
            Some(i)
        },
        None => Some(0),
    }
}

/// The selection after a step up.
pub open spec fn previous_row(row: Option<usize>) -> Option<usize> {
    match row {
        Some(i) => if i > 0 {
            Some((i - 1) as usize)
        } else {
            Some(i)
        },
        None => Some(usize::MAX),
    }
}

/// All that the controller owns: the machines, sorted by name, the selection, the
/// screen, and whether to leave.
#[derive(Debug)]
pub struct State {
    /// The path of the base directory, with or without a `/` at its end.
    pub base_dir: String,
    pub vms: Vec<Vm>,
    pub table_state: TableState,
    pub current_screen: Screen,
    pub exit: bool,
    pub fatal_error: Option<String>,
}

/// What the state holds.
#[verifier::ext_equal]
pub struct StateView {
    pub base_dir: Seq<char>,
    pub vms: Seq<VmView>,
    pub selected: Option<usize>,
    pub current_screen: ScreenView,
    pub exit: bool,
    pub fatal_error: Option<Seq<char>>,
}

impl View for State {
    type V = StateView;

    open spec fn view(&self) -> StateView {
        StateView {
            base_dir: self.base_dir@,
            vms: vms_view(self.vms@),
            selected: selected_row(self.table_state),
            current_screen: self.current_screen@,
            exit: self.exit,
            fatal_error: text_view(self.fatal_error),
        }
    }
}

/// The place of the first machine called `name` in `vms`, or the length of `vms`
/// where none is called so.
pub open spec fn name_index(vms: Seq<VmView>, name: Seq<char>) -> nat
    decreases vms.len(),
{
    if vms.len() > 0 && vms[0].name != name {
        1 + name_index(vms.drop_first(), name)
    } else {
        0
    }
}

/// Whether a machine is called `name`.
pub open spec fn has_vm(vms: Seq<VmView>, name: Seq<char>) -> bool {
    name_index(vms, name) < vms.len()
}

/// How many machines at the start of `vms` have a name that comes before `name`: the
/// place of a machine called `name` in a list that is sorted by name.
pub open spec fn insert_index(vms: Seq<VmView>, name: Seq<char>) -> nat
    decreases vms.len(),
{
    if vms.len() > 0 && text_lt(vms[0].name, name) {
        1 + insert_index(vms.drop_first(), name)
    } else {
        0
    }
}

/// The machines are sorted by name, and no two have the same name.
pub open spec fn sorted(vms: Seq<VmView>) -> bool {
    forall|i: int, j: int|
        0 <= i < j < vms.len() ==> text_lt(#[trigger] vms[i].name, #[trigger] vms[j].name)
}

/// `vms` with the machine `vm` at its place, unless a machine of that name is there.
pub open spec fn with_vm(vms: Seq<VmView>, vm: VmView) -> Seq<VmView> {
    if has_vm(vms, vm.name) {
        vms
    } else {
        vms.insert(insert_index(vms, vm.name) as int, vm)
    }
}

/// `vms` with the machines `more`, added one after the other.
pub open spec fn with_vms(vms: Seq<VmView>, more: Seq<VmView>) -> Seq<VmView>
    decreases more.len(),
{
    if more.len() == 0 {
        vms
    } else {
        with_vm(with_vms(vms, more.drop_last()), more.last())
    }
}

/// The state at the start: the machines sorted by name, the first one selected if
/// there is any, the list on the screen.
pub open spec fn new_state(base_dir: Seq<char>, vms: Seq<VmView>) -> StateView {
    let sorted_vms = with_vms(Seq::empty(), vms);
    StateView {
        base_dir,
        vms: sorted_vms,
        selected: if sorted_vms.len() == 0 {
            None
        } else {
            Some(0)
        },
        current_screen: ScreenView::List,
        exit: false,
        fatal_error: None,
    }
}

/// `s` with the machine at `i` in the state `state`.
pub open spec fn with_vm_state(s: StateView, i: int, state: VmStateView) -> StateView {
    StateView { vms: s.vms.update(i, VmView { state, ..s.vms[i] }), ..s }
}

/// The place of the machine in the row `selected`, where that is the row of one.
pub open spec fn vm_at(s: StateView, selected: Option<usize>) -> Option<int> {
    match selected {
        Some(i) => if i < s.vms.len() {
            Some(i as int)
        } else {
            None
        },
        None => None,
    }
}

/// The place of the selected machine, where the selection names one.
pub open spec fn selected_vm(s: StateView) -> Option<int> {
    vm_at(s, s.selected)
}

/// Whether a machine in this state may leave the list at once: it is at rest.
pub open spec fn can_remove(state: VmStateView) -> bool {
    state is Stopped || state is InvalidConfiguration
}

/// The order to start or stop the machine in the row `selected`: a stopped machine is
/// starting, and the launcher is to be run; to a running machine the signal is to be
/// sent. Nothing where the row is that of no machine or the machine is in another
/// state.
pub open spec fn start_stop_spec(s: StateView, selected: Option<usize>) -> (
    StateView,
    ActionView,
) {
    match vm_at(s, selected) {
        Some(i) => match s.vms[i].state {
            VmStateView::Running { pid } => (
                s,
                ActionView::Signal { vm_name: s.vms[i].name, pid, delete: false },
            ),
            VmStateView::Stopped => (
                with_vm_state(s, i, VmStateView::Starting),
                ActionView::Launch { vm_name: s.vms[i].name },
            ),
            _ => (s, ActionView::Nothing),
        },
        None => (s, ActionView::Nothing),
    }
}

/// The order to start or stop the selected machine.
pub open spec fn start_stop_selected_spec(s: StateView) -> (StateView, ActionView) {
    start_stop_spec(s, s.selected)
}

/// The selection after the machine at `i` left a list of `len` machines.
pub open spec fn selection_after_removal(i: int, len: int) -> Option<usize> {
    if len <= 1 {
        None
    } else if i < len - 1 {
        Some(i as usize)
    } else {
        Some((len - 2) as usize)
    }
}

/// The order to delete the machine in the row `selected`: a machine at rest leaves
/// the list, the selection goes to the row that takes its place, and its configuration
/// file is to be deleted; to a running machine the signal is to be sent, and it stays
/// until its process-id file is gone. Nothing where the row is that of no machine or
/// the machine is starting or stopping.
pub open spec fn delete_spec(s: StateView, selected: Option<usize>) -> (StateView, ActionView) {
    match vm_at(s, selected) {
        Some(i) => match s.vms[i].state {
            VmStateView::Running { pid } => (
                s,
                ActionView::Signal { vm_name: s.vms[i].name, pid, delete: true },
            ),
            VmStateView::Stopped | VmStateView::InvalidConfiguration { .. } => (
                StateView {
                    vms: s.vms.remove(i),
                    selected: selection_after_removal(i, s.vms.len() as int),
                    ..s
                },
                ActionView::RemoveConf {
                    conf_file: conf_file_path_spec(s.base_dir, s.vms[i].name),
                },
            ),
            _ => (s, ActionView::Nothing),
        },
        None => (s, ActionView::Nothing),
    }
}

/// The order to delete the selected machine.
pub open spec fn delete_selected_spec(s: StateView) -> (StateView, ActionView) {
    delete_spec(s, s.selected)
}

/// What to do about a configuration file that appeared: read it, if it is the file
/// of a machine that is not in the list.
pub open spec fn conf_created_spec(s: StateView, conf_file: Seq<char>) -> ActionView {
    match vm_name_of(s.base_dir, conf_file) {
        Some(name) => if has_vm(s.vms, name) {
            ActionView::Nothing
        } else {
            ActionView::ReadConf { conf_file, pid_file: pid_file_path_spec(s.base_dir, name) }
        },
        None => ActionView::Nothing,
    }
}

/// The state after a configuration file was read: its machine is in the list, at its
/// place by name, if the path is that of a machine's file, no machine of that name
/// was there, and the file could be read.
pub open spec fn add_vm_spec(s: StateView, file: ConfFileView) -> StateView {
    match vm_name_of(s.base_dir, file.conf_file) {
        Some(name) => match vm_from_conf_spec(file) {
            Ok(vm) => StateView { vms: with_vm(s.vms, vm), ..s },
            Err(_) => s,
        },
        None => s,
    }
}

/// The state after a configuration file disappeared, and what to do: its machine
/// leaves the list if it is at rest; to a running machine the signal is to be sent, and
/// it stays until its process-id file is gone; a machine that is starting or stopping
/// stays.
pub open spec fn delete_vm_spec(s: StateView, conf_file: Seq<char>) -> (StateView, ActionView) {
    match vm_name_of(s.base_dir, conf_file) {
        Some(name) => if has_vm(s.vms, name) {
            let i = name_index(s.vms, name) as int;
            match s.vms[i].state {
                VmStateView::Running { pid } => (
                    s,
                    ActionView::Signal { vm_name: name, pid, delete: true },
                ),
                VmStateView::Stopped | VmStateView::InvalidConfiguration { .. } => (
                    StateView { vms: s.vms.remove(i), ..s },
                    ActionView::Nothing,
                ),
                _ => (s, ActionView::Nothing),
            }
        } else {
            (s, ActionView::Nothing)
        },
        None => (s, ActionView::Nothing),
    }
}

/// The state after the process-id file of `name` disappeared: a machine that was
/// stopping to be deleted leaves the list; one whose configuration cannot be read
/// stays as it is; any other is stopped.
pub open spec fn pid_file_deleted_spec(s: StateView, name: Seq<char>) -> StateView {
    if has_vm(s.vms, name) {
        let i = name_index(s.vms, name) as int;
        match s.vms[i].state {
            VmStateView::StoppingToDelete => StateView { vms: s.vms.remove(i), ..s },
            VmStateView::InvalidConfiguration { .. } => s,
            _ => with_vm_state(s, i, VmStateView::Stopped),
        }
    } else {
        s
    }
}

/// The state after the launch of `name` failed: the machine is stopped, unless its
/// configuration cannot be read or it is stopping to be deleted.
pub open spec fn start_failed_spec(s: StateView, name: Seq<char>) -> StateView {
    if has_vm(s.vms, name) && follows_pid_file(s.vms[name_index(s.vms, name) as int].state) {
        with_vm_state(s, name_index(s.vms, name) as int, VmStateView::Stopped)
    } else {
        s
    }
}

/// What to do after the launch of `name` succeeded: read the machine's process-id
/// file, if the machine is in the list.
pub open spec fn start_succeeded_spec(s: StateView, name: Seq<char>) -> ActionView {
    if has_vm(s.vms, name) {
        ActionView::ReadPidFile { vm_name: name, pid_file: pid_file_path_spec(s.base_dir, name) }
    } else {
        ActionView::Nothing
    }
}

/// The state after the process-id file of `name` was read.
pub open spec fn pid_file_read_spec(
    s: StateView,
    name: Seq<char>,
    pid_file: Option<Seq<char>>,
) -> StateView {
    if has_vm(s.vms, name) {
        let i = name_index(s.vms, name) as int;
        StateView { vms: s.vms.update(i, update_state_spec(s.vms[i], pid_file)), ..s }
    } else {
        s
    }
}

/// The state after the attempt to send the signal to the machine `name`, and what to
/// do. A running machine that got the signal is stopping, or stopping to be deleted
/// where it was to be deleted. One that did not get the signal stays running, and the
/// failure is to be reported. A machine that is not running stays as it is.
pub open spec fn signal_sent_spec(
    s: StateView,
    name: Seq<char>,
    code: i32,
    error: Seq<char>,
    delete: bool,
) -> (StateView, ActionView) {
    if has_vm(s.vms, name) && s.vms[name_index(s.vms, name) as int].state is Running {
        let i = name_index(s.vms, name) as int;
        let killed = kill_spec(s.vms[i], code);
        let vm = if delete && code == 0 {
            VmView { state: VmStateView::StoppingToDelete, ..killed }
        } else {
            killed
        };
        (
            StateView { vms: s.vms.update(i, vm), ..s },
            match kill_result(s.vms[i], code, error) {
                Ok(_) => ActionView::Nothing,
                Err(message) => ActionView::Send(
                    AppEventView::KillFailed { vm_name: name, error: message },
                ),
            },
        )
    } else {
        (s, ActionView::Nothing)
    }
}

/// One machine found at `k` fixes the place of its name.
pub proof fn lemma_name_index(vms: Seq<VmView>, name: Seq<char>, k: int)
    requires
        0 <= k <= vms.len(),
        forall|j: int| 0 <= j < k ==> (#[trigger] vms[j]).name != name,
        k < vms.len() ==> vms[k].name == name,
    ensures
        name_index(vms, name) == k,
    decreases k,
{
    if k > 0 {
        let rest = vms.drop_first();
        assert forall|j: int| 0 <= j < k - 1 implies (#[trigger] rest[j]).name != name by {
            assert(rest[j] == vms[j + 1]);
        }
        lemma_name_index(rest, name, k - 1);
    }
}

/// The place of a name lies in the list or right behind it; no machine before it has
/// the name, and the machine at it, if any, has.
pub proof fn lemma_name_index_bounds(vms: Seq<VmView>, name: Seq<char>)
    ensures
        name_index(vms, name) <= vms.len(),
        forall|j: int| 0 <= j < name_index(vms, name) ==> (#[trigger] vms[j]).name != name,
        has_vm(vms, name) ==> vms[name_index(vms, name) as int].name == name,
    decreases vms.len(),
{
    if vms.len() > 0 && vms[0].name != name {
        let rest = vms.drop_first();
        lemma_name_index_bounds(rest, name);
        assert forall|j: int| 0 <= j < name_index(vms, name) implies (#[trigger] vms[j]).name
            != name by {
            if j > 0 {
                assert(vms[j] == rest[j - 1]);
            }
        }
        if has_vm(vms, name) {
            assert(vms[name_index(vms, name) as int] == rest[name_index(rest, name) as int]);
        }
    }
}

/// The names before `k` come before `name` and the name at `k`, if any, does not:
/// then `k` is the place to insert at.
pub proof fn lemma_insert_index(vms: Seq<VmView>, name: Seq<char>, k: int)
    requires
        0 <= k <= vms.len(),
        forall|j: int| 0 <= j < k ==> text_lt((#[trigger] vms[j]).name, name),
        k < vms.len() ==> !text_lt(vms[k].name, name),
    ensures
        insert_index(vms, name) == k,
    decreases k,
{
    if k > 0 {
        let rest = vms.drop_first();
        assert forall|j: int| 0 <= j < k - 1 implies text_lt((#[trigger] rest[j]).name, name) by {
            assert(rest[j] == vms[j + 1]);
        }
        lemma_insert_index(rest, name, k - 1);
    }
}

/// The place to insert at lies in the list or right behind it; the names before it
/// come before `name`, and the name at it, if any, does not.
pub proof fn lemma_insert_index_bounds(vms: Seq<VmView>, name: Seq<char>)
    ensures
        insert_index(vms, name) <= vms.len(),
        forall|j: int| 0 <= j < insert_index(vms, name) ==> text_lt((#[trigger] vms[j]).name, name),
        insert_index(vms, name) < vms.len() ==> !text_lt(
            vms[insert_index(vms, name) as int].name,
            name,
        ),
    decreases vms.len(),
{
    if vms.len() > 0 && text_lt(vms[0].name, name) {
        let rest = vms.drop_first();
        lemma_insert_index_bounds(rest, name);
        assert forall|j: int| 0 <= j < insert_index(vms, name) implies text_lt(
            (#[trigger] vms[j]).name,
            name,
        ) by {
            if j > 0 {
                assert(vms[j] == rest[j - 1]);
            }
        }
        if insert_index(vms, name) < vms.len() {
            assert(vms[insert_index(vms, name) as int] == rest[insert_index(rest, name) as int]);
        }
    }
}

impl State {
    /// What holds of the state at all times: the machines are sorted by name, and no two
    /// have the same name.
    pub open spec fn wf(&self) -> bool {
        sorted(self@.vms)
    }

    /// The state at the start, from the machines that were found.
    pub fn new(base_dir: String, vms: Vec<Vm>) -> (state: State)
        ensures
            state@ == new_state(base_dir@, vms_view(vms@)),
            state.wf(),
    {
        let mut state = State {
            base_dir,
            vms: Vec::new(),
            table_state: TableState::new(),
            current_screen: Screen::List,
            exit: false,
            fatal_error: None,
        };
        let ghost all = vms_view(vms@);
        let ghost base = state.base_dir@;
        proof {
            assert(all.take(0) == Seq::<VmView>::empty());
            assert(vms_view(state.vms@) == Seq::<VmView>::empty());
        }
        for vm in it: vms
            invariant
                all == vms_view(it.seq()),
                state.base_dir@ == base,
                state.current_screen == Screen::List,
                state.exit == false,
                state.fatal_error == None::<String>,
                selected_row(state.table_state) == None::<usize>,
                vms_view(state.vms@) == with_vms(Seq::empty(), all.take(it.index() as int)),
        {
            proof {
                assert(all.take(it.index() + 1).drop_last() == all.take(it.index() as int));
                assert(all.take(it.index() + 1).last() == vm@);
            }
            state.insert_vm(vm);
        }
        proof {
            assert(all.take(all.len() as int) == all);
        }
        if !state.vms.is_empty() {
            state.table_state.select(Some(0));
        }
        proof {
            lemma_new_state_is_sorted(base, all);
        }
        state
    }

    /// Whether the loop that feeds the controller is to end: the operator asked to
    /// leave, or a fatal error was recorded.
    pub fn finished(&self) -> (r: bool)
        ensures
            r == (self@.exit || self@.fatal_error is Some),
    {
        self.exit || self.fatal_error.is_some()
    }

    /// Puts a machine at its place by name, unless a machine of that name is there.
    pub fn insert_vm(&mut self, vm: Vm)
        ensures
            final(self)@ == (StateView { vms: with_vm(old(self)@.vms, vm@), ..old(self)@ }),
            final(self).table_state == old(self).table_state,
            final(self).current_screen == old(self).current_screen,
            final(self).fatal_error == old(self).fatal_error,
            final(self).base_dir == old(self).base_dir,
    {
        if self.find_vm_by_name(vm.name.as_str()).is_some() {
            return ;
        }
        let mut at: usize = 0;
        while at < self.vms.len() && str_lt(self.vms[at].name.as_str(), vm.name.as_str())
            invariant
                0 <= at <= self.vms@.len(),
                forall|j: int|
                    0 <= j < at ==> text_lt((#[trigger] vms_view(self.vms@)[j]).name, vm@.name),
            decreases self.vms@.len() - at,
        {
            at += 1;
        }
        proof {
            lemma_insert_index(vms_view(self.vms@), vm@.name, at as int);
        }
        let ghost before = vms_view(self.vms@);
        self.vms.insert(at, vm);
        assert(vms_view(self.vms@) == before.insert(at as int, vm@));
    }

    /// The place of the machine called `name`.
    pub fn find_vm_by_name(&self, name: &str) -> (index: Option<usize>)
        ensures
            match index {
                Some(i) => has_vm(self@.vms, name@) && i == name_index(self@.vms, name@),
                None => !has_vm(self@.vms, name@),
            },
    {
        let mut i: usize = 0;
        while i < self.vms.len()
            invariant
                0 <= i <= self.vms@.len(),
                forall|j: int| 0 <= j < i ==> (#[trigger] vms_view(self.vms@)[j]).name != name@,
            decreases self.vms@.len() - i,
        {
            if str_eq(self.vms[i].name.as_str(), name) {
                proof {
                    lemma_name_index(vms_view(self.vms@), name@, i as int);
                }
                return Some(i);
            }
            i += 1;
        }
        proof {
            lemma_name_index(vms_view(self.vms@), name@, i as int);
        }
        None
    }

    /// The machine called `name`, to be changed in its place.
    #[must_use]
    pub fn get_mut_vm_by_name(&mut self, name: &str) -> (found: Option<&mut Vm>)
        ensures
            match found {
                Some(vm) => {
                    &&& has_vm(old(self)@.vms, name@)
                    &&& *vm == old(self).vms@[name_index(old(self)@.vms, name@) as int]
                    &&& final(self).vms@ == old(self).vms@.update(
                        name_index(old(self)@.vms, name@) as int,
                        *final(vm),
                    )
                    &&& final(self).base_dir == old(self).base_dir
                    &&& final(self).table_state == old(self).table_state
                    &&& final(self).current_screen == old(self).current_screen
                    &&& final(self).exit == old(self).exit
                    &&& final(self).fatal_error == old(self).fatal_error
                },
                None => !has_vm(old(self)@.vms, name@) && *final(self) == *old(self),
            },
    {
        match self.find_vm_by_name(name) {
            Some(i) => Some(&mut self.vms[i]),
            None => None,
        }
    }

    /// Starts or stops the selected machine, as far as that can be done at once, and
    /// says what is left to do.
    pub fn start_stop_selected_vm(&mut self) -> (action: Action)
        ensures
            final(self)@ == start_stop_selected_spec(old(self)@).0,
            action@ == start_stop_selected_spec(old(self)@).1,
    {
        let selected = self.table_state.selected();
        self.start_stop_vm(selected)
    }

    /// Starts or stops the machine in the row `selected`, as far as that can be done
    /// at once, and says what is left to do.
    pub fn start_stop_vm(&mut self, selected: Option<usize>) -> (action: Action)
        ensures
            final(self)@ == start_stop_spec(old(self)@, selected).0,
            action@ == start_stop_spec(old(self)@, selected).1,
    {
        let index = match selected {
            Some(index) => index,
            None => {
                return Action::Nothing;
            },
        };
        if index >= self.vms.len() {
            return Action::Nothing;
        }
        let ghost before = vms_view(self.vms@);
        match &self.vms[index].state {
            VmState::Running { pid } => Action::Signal {
                vm_name: self.vms[index].name.clone(),
                pid: *pid,
                delete: false,
            },
            VmState::Stopped => {
                let vm_name = self.vms[index].name.clone();
                self.vms[index].state = VmState::Starting;
                assert(vms_view(self.vms@) == before.update(
                    index as int,
                    VmView { state: VmStateView::Starting, ..before[index as int] },
                ));
                Action::Launch { vm_name }
            },
            _ => Action::Nothing,
        }
    }

    /// Deletes the selected machine, as far as that can be done at once, and says
    /// what is left to do.
    pub fn delete_selected_vm(&mut self) -> (action: Action)
        ensures
            final(self)@ == delete_selected_spec(old(self)@).0,
            action@ == delete_selected_spec(old(self)@).1,
    {
        let selected = self.table_state.selected();
        self.delete_vm_in_row(selected)
    }

    /// Deletes the machine in the row `selected`, as far as that can be done at once,
    /// and says what is left to do.
    pub fn delete_vm_in_row(&mut self, selected: Option<usize>) -> (action: Action)
        ensures
            final(self)@ == delete_spec(old(self)@, selected).0,
            action@ == delete_spec(old(self)@, selected).1,
    {
        let index = match selected {
            Some(index) => index,
            None => {
                return Action::Nothing;
            },
        };
        if index >= self.vms.len() {
            return Action::Nothing;
        }
        let ghost before = vms_view(self.vms@);
        match &self.vms[index].state {
            VmState::Running { pid } => Action::Signal {
                vm_name: self.vms[index].name.clone(),
                pid: *pid,
                delete: true,
            },
            VmState::Stopped | VmState::InvalidConfiguration { .. } => {
                let conf_file = conf_file_path(
                    self.base_dir.as_str(),
                    self.vms[index].name.as_str(),
                );
                self.vms.remove(index);
                assert(vms_view(self.vms@) == before.remove(index as int));
                let selected = if self.vms.is_empty() {
                    None
                } else if index < self.vms.len() {
                    Some(index)
                } else {
                    Some(self.vms.len() - 1)
                };
                self.table_state.select(selected);
                Action::RemoveConf { conf_file }
            },
            _ => Action::Nothing,
        }
    }

    /// Says what to do about a configuration file that appeared.
    pub fn conf_created(&self, conf_file: String) -> (action: Action)
        ensures
            action@ == conf_created_spec(self@, conf_file@),
    {
        match vm_name(self.base_dir.as_str(), conf_file.as_str()) {
            Some(name) => {
                if self.find_vm_by_name(name.as_str()).is_some() {
                    Action::Nothing
                } else {
                    let pid_file = pid_file_path(self.base_dir.as_str(), name.as_str());
                    Action::ReadConf { conf_file, pid_file }
                }
            },
            None => Action::Nothing,
        }
    }

    /// Adds the machine of a configuration file that was read.
    pub fn add_vm(&mut self, file: &ConfFile)
        ensures
            final(self)@ == add_vm_spec(old(self)@, file@),
    {
        if vm_name(self.base_dir.as_str(), file.conf_file.as_str()).is_none() {
            return ;
        }
        proof {
            lemma_vm_name_is_conf_name(self.base_dir@, file@.conf_file);
        }
        match vm_from_conf(file) {
            Ok(vm) => {
                self.insert_vm(vm);
            },
            Err(_) => {},
        }
    }

    /// Takes the machine of a configuration file that disappeared from the list, as
    /// far as that can be done at once, and says what is left to do.
    pub fn delete_vm(&mut self, conf_file: &str) -> (action: Action)
        ensures
            final(self)@ == delete_vm_spec(old(self)@, conf_file@).0,
            action@ == delete_vm_spec(old(self)@, conf_file@).1,
    {
        let name = match vm_name(self.base_dir.as_str(), conf_file) {
            Some(name) => name,
            None => {
                return Action::Nothing;
            },
        };
        let index = match self.find_vm_by_name(name.as_str()) {
            Some(index) => index,
            None => {
                return Action::Nothing;
            },
        };
        let ghost before = vms_view(self.vms@);
        match &self.vms[index].state {
            VmState::Running { pid } => Action::Signal { vm_name: name, pid: *pid, delete: true },
            VmState::Stopped | VmState::InvalidConfiguration { .. } => {
                self.vms.remove(index);
                assert(vms_view(self.vms@) == before.remove(index as int));
                Action::Nothing
            },
            _ => Action::Nothing,
        }
    }

    /// Records that the process-id file of `vm_name` disappeared.
    pub fn pid_file_deleted(&mut self, vm_name: &str)
        ensures
            final(self)@ == pid_file_deleted_spec(old(self)@, vm_name@),
    {
        let index = match self.find_vm_by_name(vm_name) {
            Some(index) => index,
            None => {
                return ;
            },
        };
        let ghost before = vms_view(self.vms@);
        match &self.vms[index].state {
            VmState::StoppingToDelete => {
                self.vms.remove(index);
                assert(vms_view(self.vms@) == before.remove(index as int));
            },
            VmState::InvalidConfiguration { .. } => {},
            _ => {
                self.vms[index].state = VmState::Stopped;
                assert(vms_view(self.vms@) == before.update(
                    index as int,
                    VmView { state: VmStateView::Stopped, ..before[index as int] },
                ));
            },
        }
    }

    /// Records that the launch of `vm_name` failed.
    pub fn start_failed(&mut self, vm_name: &str)
        ensures
            final(self)@ == start_failed_spec(old(self)@, vm_name@),
    {
        let index = match self.find_vm_by_name(vm_name) {
            Some(index) => index,
            None => {
                return ;
            },
        };
        let ghost before = vms_view(self.vms@);
        match &self.vms[index].state {
            VmState::InvalidConfiguration { .. } | VmState::StoppingToDelete => {},
            _ => {
                self.vms[index].state = VmState::Stopped;
                assert(vms_view(self.vms@) == before.update(
                    index as int,
                    VmView { state: VmStateView::Stopped, ..before[index as int] },
                ));
            },
        }
    }

    /// Says what to do after the launch of `vm_name` succeeded.
    pub fn start_succeeded(&self, vm_name: String) -> (action: Action)
        ensures
            action@ == start_succeeded_spec(self@, vm_name@),
    {
        if self.find_vm_by_name(vm_name.as_str()).is_some() {
            let pid_file = pid_file_path(self.base_dir.as_str(), vm_name.as_str());
            Action::ReadPidFile { vm_name, pid_file }
        } else {
            Action::Nothing
        }
    }

    /// Decides the state of `vm_name` anew from its process-id file.
    pub fn pid_file_read(&mut self, vm_name: &str, pid_file: Option<&str>)
        ensures
            final(self)@ == pid_file_read_spec(
                old(self)@,
                vm_name@,
                text_ref_view(pid_file),
            ),
    {
        let index = match self.find_vm_by_name(vm_name) {
            Some(index) => index,
            None => {
                return ;
            },
        };
        let ghost before = vms_view(self.vms@);
        self.vms[index].update_state(pid_file);
        assert(vms_view(self.vms@) == before.update(
            index as int,
            update_state_spec(before[index as int], text_ref_view(pid_file)),
        ));
    }

    /// Records how the attempt to send the signal to `vm_name` ended, and says what is
    /// left to do.
    pub fn signal_sent(&mut self, vm_name: String, code: i32, error: &str, delete: bool) -> (action:
        Action)
        ensures
            final(self)@ == signal_sent_spec(old(self)@, vm_name@, code, error@, delete).0,
            action@ == signal_sent_spec(old(self)@, vm_name@, code, error@, delete).1,
    {
        let index = match self.find_vm_by_name(vm_name.as_str()) {
            Some(index) => index,
            None => {
                return Action::Nothing;
            },
        };
        if !self.vms[index].is_running() {
            return Action::Nothing;
        }
        let ghost before = vms_view(self.vms@);
        match self.vms[index].kill(code, error) {
            Ok(_) => {
                if delete {
                    self.vms[index].state = VmState::StoppingToDelete;
                }
                proof {
                    let killed = kill_spec(before[index as int], code);
                    let vm = if delete {
                        VmView { state: VmStateView::StoppingToDelete, ..killed }
                    } else {
                        killed
                    };
                    assert(vms_view(self.vms@) == before.update(index as int, vm));
                }
                Action::Nothing
            },
            Err(message) => {
                assert(vms_view(self.vms@) == before.update(index as int, before[index as int]));
                Action::Send(AppEvent::KillFailed { vm_name, error: message })
            },
        }
    }
}

} // verus!
