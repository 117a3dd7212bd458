//! What holds of the controller whatever the events are: the list stays sorted, a
//! machine leaves it only at rest or once its process-id file is gone, and the life
//! cycle goes the way the steps below say.
use crate::app::state::{
    can_remove, has_vm, insert_index, lemma_insert_index_bounds, lemma_name_index,
    lemma_name_index_bounds, name_index, new_state, selected_vm, sorted, with_vm, with_vm_state,
    with_vms, StateView,
};
use crate::events::fs::{path_event, FileOperation};
use crate::events::handle::{step, with_screen};
use crate::events::types::{ActionView, AppEventView, KeyCode, KeyEvent, KeyEventKind};
use crate::number::parse_decimal;
use crate::text::{
    dir_prefix, in_class, lemma_prefix_len, lemma_text_lt_irreflexive, lemma_text_lt_total,
    lemma_text_lt_transitive, strip_prefix, text_lt, CharClass,
};
use crate::ui::types::ScreenView;
use crate::vm::helpers::{
    conf_file_path_spec, lemma_vm_name_is_conf_name, loaded_vm, pid_file_path_spec, settings_of,
    vm_from_conf_spec, vm_name_of, ConfFileView,
};
use crate::vm::types::{
    apply_conf, apply_entry, blank_vm, conf_name, kill_error, lemma_apply_conf_keeps_name,
    lemma_bad_cores_is_invalid, pid_file_state, update_state_spec, VmStateView, VmView,
};
use vstd::prelude::*;

verus! {

/// In a sorted list no two machines have the same name.
pub proof fn lemma_sorted_names_differ(vms: Seq<VmView>, i: int, j: int)
    requires
        sorted(vms),
        0 <= i < vms.len(),
        0 <= j < vms.len(),
        vms[i].name == vms[j].name,
    ensures
        i == j,
{
    lemma_text_lt_irreflexive(vms[i].name);
}

/// In a sorted list the machine at `i` is the one that its name finds.
pub proof fn lemma_sorted_name_index(vms: Seq<VmView>, i: int)
    requires
        sorted(vms),
        0 <= i < vms.len(),
    ensures
        name_index(vms, vms[i].name) == i,
{
    assert forall|j: int| 0 <= j < i implies (#[trigger] vms[j]).name != vms[i].name by {
        lemma_text_lt_irreflexive(vms[i].name);
    }
    lemma_name_index(vms, vms[i].name, i);
}

/// A machine that changes, but not its name, is found where it was, and so is every
/// other.
pub proof fn lemma_update_keeps_places(vms: Seq<VmView>, j: int, vm: VmView, name: Seq<char>)
    requires
        0 <= j < vms.len(),
        vm.name == vms[j].name,
    ensures
        name_index(vms.update(j, vm), name) == name_index(vms, name),
{
    lemma_name_index_bounds(vms, name);
    let k = name_index(vms, name) as int;
    let after = vms.update(j, vm);
    assert forall|m: int| 0 <= m < k implies (#[trigger] after[m]).name != name by {
        assert(vms[m].name != name);
    }
    lemma_name_index(after, name, k);
}

/// A machine stays in the list when another one leaves.
pub proof fn lemma_remove_keeps_others(vms: Seq<VmView>, j: int, name: Seq<char>)
    requires
        0 <= j < vms.len(),
        has_vm(vms, name),
        name_index(vms, name) != j,
    ensures
        has_vm(vms.remove(j), name),
        vms.remove(j)[name_index(vms.remove(j), name) as int] == vms[name_index(vms, name) as int],
{
    lemma_name_index_bounds(vms, name);
    let i = name_index(vms, name) as int;
    let after = vms.remove(j);
    let k = if j < i {
        i - 1
    } else {
        i
    };
    assert forall|m: int| 0 <= m < k implies (#[trigger] after[m]).name != name by {
        if m < j {
            assert(after[m] == vms[m]);
        } else {
            assert(after[m] == vms[m + 1]);
        }
    }
    lemma_name_index(after, name, k);
}

/// A machine stays in the list when one of another name comes in.
pub proof fn lemma_insert_keeps_others(vms: Seq<VmView>, k: int, vm: VmView, name: Seq<char>)
    requires
        0 <= k <= vms.len(),
        has_vm(vms, name),
        vm.name != name,
    ensures
        has_vm(vms.insert(k, vm), name),
        vms.insert(k, vm)[name_index(vms.insert(k, vm), name) as int] == vms[name_index(
            vms,
            name,
        ) as int],
{
    lemma_name_index_bounds(vms, name);
    let i = name_index(vms, name) as int;
    let after = vms.insert(k, vm);
    let at = if k <= i {
        i + 1
    } else {
        i
    };
    assert forall|m: int| 0 <= m < at implies (#[trigger] after[m]).name != name by {
        if m < k {
            assert(after[m] == vms[m]);
        } else if m == k {
            assert(after[m] == vm);
        } else {
            assert(after[m] == vms[m - 1]);
        }
    }
    lemma_name_index(after, name, at);
}

/// A machine that is in the list after another one left was in it before, and is
/// not the one that left.
pub proof fn lemma_remove_brings_none(vms: Seq<VmView>, j: int, name: Seq<char>)
    requires
        sorted(vms),
        0 <= j < vms.len(),
        has_vm(vms.remove(j), name),
    ensures
        has_vm(vms, name),
        name_index(vms, name) != j,
        vms.remove(j)[name_index(vms.remove(j), name) as int] == vms[name_index(vms, name) as int],
{
    let after = vms.remove(j);
    lemma_name_index_bounds(after, name);
    lemma_name_index_bounds(vms, name);
    let m = name_index(after, name) as int;
    let at = if m < j {
        m
    } else {
        m + 1
    };
    assert(after[m] == vms[at]);
    lemma_sorted_name_index(vms, at);
}

/// A machine that is in the list after one came in was in it before, or is the one
/// that came in.
pub proof fn lemma_insert_brings_one(vms: Seq<VmView>, k: int, vm: VmView, name: Seq<char>)
    requires
        0 <= k <= vms.len(),
        has_vm(vms.insert(k, vm), name),
        vm.name != name,
    ensures
        has_vm(vms, name),
        vms.insert(k, vm)[name_index(vms.insert(k, vm), name) as int] == vms[name_index(
            vms,
            name,
        ) as int],
{
    let after = vms.insert(k, vm);
    lemma_name_index_bounds(after, name);
    lemma_name_index_bounds(vms, name);
    let m = name_index(after, name) as int;
    let at = if m < k {
        m
    } else {
        m - 1
    };
    assert(after[m] == vms[at]);
    lemma_insert_keeps_others(vms, k, vm, name);
}

/// A sorted list stays sorted when a machine changes, but not its name.
pub proof fn lemma_update_keeps_sorted(vms: Seq<VmView>, j: int, vm: VmView)
    requires
        sorted(vms),
        0 <= j < vms.len(),
        vm.name == vms[j].name,
    ensures
        sorted(vms.update(j, vm)),
{
    let after = vms.update(j, vm);
    assert forall|a: int, b: int| 0 <= a < b < after.len() implies text_lt(
        #[trigger] after[a].name,
        #[trigger] after[b].name,
    ) by {
        assert(after[a].name == vms[a].name);
        assert(after[b].name == vms[b].name);
    }
}

/// A sorted list stays sorted when a machine leaves.
pub proof fn lemma_remove_keeps_sorted(vms: Seq<VmView>, j: int)
    requires
        sorted(vms),
        0 <= j < vms.len(),
    ensures
        sorted(vms.remove(j)),
{
    let after = vms.remove(j);
    assert forall|a: int, b: int| 0 <= a < b < after.len() implies text_lt(
        #[trigger] after[a].name,
        #[trigger] after[b].name,
    ) by {
        let x = if a < j {
            a
        } else {
            a + 1
        };
        let y = if b < j {
            b
        } else {
            b + 1
        };
        assert(after[a] == vms[x]);
        assert(after[b] == vms[y]);
    }
}

/// A sorted list stays sorted when a machine is put in.
pub proof fn lemma_with_vm_keeps_sorted(vms: Seq<VmView>, vm: VmView)
    requires
        sorted(vms),
    ensures
        sorted(with_vm(vms, vm)),
{
    if !has_vm(vms, vm.name) {
        lemma_insert_index_bounds(vms, vm.name);
        lemma_name_index_bounds(vms, vm.name);
        let k = insert_index(vms, vm.name) as int;
        let after = vms.insert(k, vm);
        assert forall|a: int, b: int| 0 <= a < b < after.len() implies text_lt(
            #[trigger] after[a].name,
            #[trigger] after[b].name,
        ) by {
            if b < k {
                assert(after[a] == vms[a] && after[b] == vms[b]);
            } else if b == k {
                assert(after[a] == vms[a]);
            } else if a == k {
                // The name at `k` does not come before the new name, and is not it.
                assert(after[b] == vms[b - 1]);
                assert(vms[k].name != vm.name);
                lemma_text_lt_total(vms[k].name, vm.name);
                if b - 1 > k {
                    assert(text_lt(vms[k].name, vms[b - 1].name));
                    lemma_text_lt_transitive(vm.name, vms[k].name, vms[b - 1].name);
                }
            } else if a < k {
                assert(after[a] == vms[a] && after[b] == vms[b - 1]);
            } else {
                assert(after[a] == vms[a - 1] && after[b] == vms[b - 1]);
            }
        }
    }
}

/// Machines put into a sorted list one after the other leave it sorted.
pub proof fn lemma_with_vms_keeps_sorted(vms: Seq<VmView>, more: Seq<VmView>)
    requires
        sorted(vms),
    ensures
        sorted(with_vms(vms, more)),
    decreases more.len(),
{
    if more.len() > 0 {
        lemma_with_vms_keeps_sorted(vms, more.drop_last());
        lemma_with_vm_keeps_sorted(with_vms(vms, more.drop_last()), more.last());
    }
}

/// The list is sorted at the start.
pub proof fn lemma_new_state_is_sorted(base_dir: Seq<char>, vms: Seq<VmView>)
    ensures
        sorted(new_state(base_dir, vms).vms),
{
    lemma_with_vms_keeps_sorted(Seq::empty(), vms);
}

/// The list stays sorted by name, without two machines of one name, whatever the
/// event.
pub proof fn lemma_step_keeps_sorted(s: StateView, event: AppEventView)
    requires
        sorted(s.vms),
    ensures
        sorted(step(s, event).0.vms),
{
    match event {
        AppEventView::Key(key) => {
            lemma_key_keeps_sorted(s, key);
        },
        AppEventView::StartNbFailed { vm_name, error, stdout, stderr } => {
            if has_vm(s.vms, vm_name) {
                let i = name_index(s.vms, vm_name) as int;
                lemma_update_keeps_sorted(
                    s.vms,
                    i,
                    VmView { state: VmStateView::Stopped, ..s.vms[i] },
                );
            }
        },
        AppEventView::VmConfDeleted(conf_file) => {
            match vm_name_of(s.base_dir, conf_file) {
                Some(name) => {
                    if has_vm(s.vms, name) {
                        lemma_remove_keeps_sorted(s.vms, name_index(s.vms, name) as int);
                    }
                },
                None => {},
            }
        },
        AppEventView::PidFileDeleted(vm_name) => {
            if has_vm(s.vms, vm_name) {
                let i = name_index(s.vms, vm_name) as int;
                lemma_remove_keeps_sorted(s.vms, i);
                lemma_update_keeps_sorted(
                    s.vms,
                    i,
                    VmView { state: VmStateView::Stopped, ..s.vms[i] },
                );
            }
        },
        AppEventView::VmConfRead(file) => {
            match vm_from_conf_spec(file) {
                Ok(vm) => {
                    lemma_with_vm_keeps_sorted(s.vms, vm);
                },
                Err(_) => {},
            }
        },
        AppEventView::PidFileRead { vm_name, pid_file } => {
            if has_vm(s.vms, vm_name) {
                let i = name_index(s.vms, vm_name) as int;
                lemma_update_keeps_sorted(s.vms, i, update_state_spec(s.vms[i], pid_file));
            }
        },
        AppEventView::SignalSent { vm_name, code, error, delete } => {
            if has_vm(s.vms, vm_name) {
                let i = name_index(s.vms, vm_name) as int;
                lemma_update_keeps_sorted(s.vms, i, step(s, event).0.vms[i]);
                assert(step(s, event).0.vms =~= s.vms.update(i, step(s, event).0.vms[i]));
            }
        },
        _ => {},
    }
}

/// The list stays sorted when a key is pressed.
pub proof fn lemma_key_keeps_sorted(s: StateView, key: KeyEvent)
    requires
        sorted(s.vms),
    ensures
        sorted(step(s, AppEventView::Key(key)).0.vms),
{
    match selected_vm(s) {
        Some(i) => {
            lemma_update_keeps_sorted(
                s.vms,
                i,
                VmView { state: VmStateView::Starting, ..s.vms[i] },
            );
            lemma_remove_keeps_sorted(s.vms, i);
        },
        None => {},
    }
}

/// A machine that is stopping to be deleted stays as it is until its process-id file
/// is gone.
pub proof fn lemma_stopping_to_delete_waits(s: StateView, event: AppEventView, name: Seq<char>)
    requires
        sorted(s.vms),
        has_vm(s.vms, name),
        s.vms[name_index(s.vms, name) as int].state is StoppingToDelete,
        event != AppEventView::PidFileDeleted(name),
    ensures
        has_vm(step(s, event).0.vms, name),
        step(s, event).0.vms[name_index(step(s, event).0.vms, name) as int] == s.vms[name_index(
            s.vms,
            name,
        ) as int],
{
    lemma_name_index_bounds(s.vms, name);
    let i = name_index(s.vms, name) as int;
    let after = step(s, event).0.vms;
    match event {
        AppEventView::Key(key) => {
            match selected_vm(s) {
                Some(j) => {
                    lemma_update_keeps_places(
                        s.vms,
                        j,
                        VmView { state: VmStateView::Starting, ..s.vms[j] },
                        name,
                    );
                    if j != i {
                        lemma_remove_keeps_others(s.vms, j, name);
                    }
                },
                None => {},
            }
        },
        AppEventView::StartNbFailed { vm_name, error, stdout, stderr } => {
            if has_vm(s.vms, vm_name) {
                let j = name_index(s.vms, vm_name) as int;
                lemma_name_index_bounds(s.vms, vm_name);
                lemma_update_keeps_places(
                    s.vms,
                    j,
                    VmView { state: VmStateView::Stopped, ..s.vms[j] },
                    name,
                );
            }
        },
        AppEventView::VmConfDeleted(conf_file) => {
            match vm_name_of(s.base_dir, conf_file) {
                Some(other) => {
                    if has_vm(s.vms, other) {
                        let j = name_index(s.vms, other) as int;
                        lemma_name_index_bounds(s.vms, other);
                        if j != i {
                            lemma_remove_keeps_others(s.vms, j, name);
                        }
                    }
                },
                None => {},
            }
        },
        AppEventView::PidFileDeleted(vm_name) => {
            if has_vm(s.vms, vm_name) {
                let j = name_index(s.vms, vm_name) as int;
                lemma_name_index_bounds(s.vms, vm_name);
                lemma_update_keeps_places(
                    s.vms,
                    j,
                    VmView { state: VmStateView::Stopped, ..s.vms[j] },
                    name,
                );
                lemma_remove_keeps_others(s.vms, j, name);
            }
        },
        AppEventView::VmConfRead(file) => {
            match vm_from_conf_spec(file) {
                Ok(vm) => {
                    if !has_vm(s.vms, vm.name) {
                        lemma_insert_index_bounds(s.vms, vm.name);
                        lemma_insert_keeps_others(
                            s.vms,
                            insert_index(s.vms, vm.name) as int,
                            vm,
                            name,
                        );
                    }
                },
                Err(_) => {},
            }
        },
        AppEventView::PidFileRead { vm_name, pid_file } => {
            if has_vm(s.vms, vm_name) {
                let j = name_index(s.vms, vm_name) as int;
                lemma_name_index_bounds(s.vms, vm_name);
                lemma_update_keeps_places(s.vms, j, update_state_spec(s.vms[j], pid_file), name);
            }
        },
        AppEventView::SignalSent { vm_name, code, error, delete } => {
            if has_vm(s.vms, vm_name) {
                let j = name_index(s.vms, vm_name) as int;
                lemma_name_index_bounds(s.vms, vm_name);
                assert(after =~= s.vms.update(j, after[j]));
                lemma_update_keeps_places(s.vms, j, after[j], name);
            }
        },
        _ => {},
    }
}

/// A machine comes into the list in one way only: its configuration file was read.
pub proof fn lemma_vms_come_from_conf_files(s: StateView, event: AppEventView, name: Seq<char>)
    requires
        sorted(s.vms),
        !has_vm(s.vms, name),
        has_vm(step(s, event).0.vms, name),
    ensures
        event is VmConfRead,
        event->VmConfRead_0.data is Ok,
        vm_name_of(s.base_dir, event->VmConfRead_0.conf_file) == Some(name),
        step(s, event).0.vms == s.vms.insert(
            insert_index(s.vms, name) as int,
            loaded_vm(
                event->VmConfRead_0.conf_file,
                event->VmConfRead_0.data->Ok_0,
                event->VmConfRead_0.pid_file,
            ),
        ),
{
    let after = step(s, event).0.vms;
    match event {
        AppEventView::Key(key) => {
            match selected_vm(s) {
                Some(j) => {
                    lemma_update_keeps_places(
                        s.vms,
                        j,
                        VmView { state: VmStateView::Starting, ..s.vms[j] },
                        name,
                    );
                    if after == s.vms.remove(j) {
                        lemma_remove_brings_none(s.vms, j, name);
                    }
                },
                None => {},
            }
        },
        AppEventView::StartNbFailed { vm_name, error, stdout, stderr } => {
            if has_vm(s.vms, vm_name) {
                let j = name_index(s.vms, vm_name) as int;
                lemma_update_keeps_places(
                    s.vms,
                    j,
                    VmView { state: VmStateView::Stopped, ..s.vms[j] },
                    name,
                );
            }
        },
        AppEventView::VmConfDeleted(conf_file) => {
            match vm_name_of(s.base_dir, conf_file) {
                Some(other) => {
                    if has_vm(s.vms, other) && after != s.vms {
                        lemma_remove_brings_none(s.vms, name_index(s.vms, other) as int, name);
                    }
                },
                None => {},
            }
        },
        AppEventView::PidFileDeleted(vm_name) => {
            if has_vm(s.vms, vm_name) {
                let j = name_index(s.vms, vm_name) as int;
                lemma_update_keeps_places(
                    s.vms,
                    j,
                    VmView { state: VmStateView::Stopped, ..s.vms[j] },
                    name,
                );
                if after == s.vms.remove(j) {
                    lemma_remove_brings_none(s.vms, j, name);
                }
            }
        },
        AppEventView::VmConfRead(file) => {
            match vm_name_of(s.base_dir, file.conf_file) {
                Some(found) => {
                    lemma_vm_name_is_conf_name(s.base_dir, file.conf_file);
                    match file.data {
                        Ok(data) => {
                            let vm = loaded_vm(file.conf_file, data, file.pid_file);
                            lemma_loaded_vm(file.conf_file, data, file.pid_file);
                            if vm.name != name {
                                lemma_insert_index_bounds(s.vms, vm.name);
                                lemma_insert_brings_one(
                                    s.vms,
                                    insert_index(s.vms, vm.name) as int,
                                    vm,
                                    name,
                                );
                            }
                        },
                        Err(_) => {},
                    }
                },
                None => {},
            }
        },
        AppEventView::PidFileRead { vm_name, pid_file } => {
            if has_vm(s.vms, vm_name) {
                let j = name_index(s.vms, vm_name) as int;
                lemma_update_keeps_places(s.vms, j, update_state_spec(s.vms[j], pid_file), name);
            }
        },
        AppEventView::SignalSent { vm_name, code, error, delete } => {
            if has_vm(s.vms, vm_name) {
                let j = name_index(s.vms, vm_name) as int;
                assert(after =~= s.vms.update(j, after[j]));
                lemma_update_keeps_places(s.vms, j, after[j], name);
            }
        },
        _ => {},
    }
}

/// A machine leaves the list in three ways only: at rest, by the order to delete it,
/// confirmed on the screen; at rest, because its configuration file disappeared;
/// stopping to be deleted, because its process-id file is gone.
pub proof fn lemma_vms_leave_on_order(s: StateView, event: AppEventView, name: Seq<char>)
    requires
        sorted(s.vms),
        has_vm(s.vms, name),
        !has_vm(step(s, event).0.vms, name),
    ensures
        ({
            let i = name_index(s.vms, name) as int;
            let enter = KeyEvent { code: KeyCode::Enter, kind: KeyEventKind::Press };
            &&& step(s, event).0.vms == s.vms.remove(i)
            &&& {
                ||| can_remove(s.vms[i].state) && event == AppEventView::Key(enter)
                    && s.current_screen == ScreenView::DeleteConfirmation(true) && selected_vm(s)
                    == Some(i)
                ||| can_remove(s.vms[i].state) && event is VmConfDeleted && vm_name_of(
                    s.base_dir,
                    event->VmConfDeleted_0,
                ) == Some(name)
                ||| s.vms[i].state is StoppingToDelete && event == AppEventView::PidFileDeleted(
                    name,
                )
            }
        }),
{
    lemma_name_index_bounds(s.vms, name);
    let i = name_index(s.vms, name) as int;
    let after = step(s, event).0.vms;
    match event {
        AppEventView::Key(key) => {
            match selected_vm(s) {
                Some(j) => {
                    lemma_update_keeps_places(
                        s.vms,
                        j,
                        VmView { state: VmStateView::Starting, ..s.vms[j] },
                        name,
                    );
                    if j != i {
                        lemma_remove_keeps_others(s.vms, j, name);
                    }
                },
                None => {},
            }
        },
        AppEventView::StartNbFailed { vm_name, error, stdout, stderr } => {
            if has_vm(s.vms, vm_name) {
                let j = name_index(s.vms, vm_name) as int;
                lemma_update_keeps_places(
                    s.vms,
                    j,
                    VmView { state: VmStateView::Stopped, ..s.vms[j] },
                    name,
                );
            }
        },
        AppEventView::VmConfDeleted(conf_file) => {
            match vm_name_of(s.base_dir, conf_file) {
                Some(other) => {
                    if has_vm(s.vms, other) {
                        let j = name_index(s.vms, other) as int;
                        lemma_name_index_bounds(s.vms, other);
                        if j != i {
                            lemma_remove_keeps_others(s.vms, j, name);
                        }
                    }
                },
                None => {},
            }
        },
        AppEventView::PidFileDeleted(vm_name) => {
            if has_vm(s.vms, vm_name) {
                let j = name_index(s.vms, vm_name) as int;
                lemma_name_index_bounds(s.vms, vm_name);
                lemma_update_keeps_places(
                    s.vms,
                    j,
                    VmView { state: VmStateView::Stopped, ..s.vms[j] },
                    name,
                );
                if j != i {
                    lemma_remove_keeps_others(s.vms, j, name);
                }
            }
        },
        AppEventView::VmConfRead(file) => {
            match vm_from_conf_spec(file) {
                Ok(vm) => {
                    if !has_vm(s.vms, vm.name) {
                        lemma_insert_index_bounds(s.vms, vm.name);
                        lemma_insert_keeps_others(
                            s.vms,
                            insert_index(s.vms, vm.name) as int,
                            vm,
                            name,
                        );
                    }
                },
                Err(_) => {},
            }
        },
        AppEventView::PidFileRead { vm_name, pid_file } => {
            if has_vm(s.vms, vm_name) {
                let j = name_index(s.vms, vm_name) as int;
                lemma_update_keeps_places(s.vms, j, update_state_spec(s.vms[j], pid_file), name);
            }
        },
        AppEventView::SignalSent { vm_name, code, error, delete } => {
            if has_vm(s.vms, vm_name) {
                let j = name_index(s.vms, vm_name) as int;
                assert(after =~= s.vms.update(j, after[j]));
                lemma_update_keeps_places(s.vms, j, after[j], name);
            }
        },
        _ => {},
    }
}

/// A machine that is not at rest stays in the list, whatever the event, but for one
/// case: a machine that is stopping to be deleted leaves once its process-id file is
/// gone. So a machine that is starting, running or stopping is never taken from the
/// list as it is.
pub proof fn lemma_busy_vm_stays(s: StateView, event: AppEventView, name: Seq<char>)
    requires
        sorted(s.vms),
        has_vm(s.vms, name),
        !can_remove(s.vms[name_index(s.vms, name) as int].state),
        !(s.vms[name_index(s.vms, name) as int].state is StoppingToDelete && event
            == AppEventView::PidFileDeleted(name)),
    ensures
        has_vm(step(s, event).0.vms, name),
{
    if !has_vm(step(s, event).0.vms, name) {
        lemma_vms_leave_on_order(s, event, name);
    }
}

/// A machine is running only because its process-id file was read and names a
/// process: a machine that is running after an event ran before it with the same
/// process id, or the event is the answer with the content of its process-id file, or
/// the answer with its configuration file, and the file's content names that process.
pub proof fn lemma_running_comes_from_pid_file(s: StateView, event: AppEventView, name: Seq<char>)
    requires
        sorted(s.vms),
        has_vm(step(s, event).0.vms, name),
        step(s, event).0.vms[name_index(step(s, event).0.vms, name) as int].state is Running,
    ensures
        ({
            let after = step(s, event).0.vms;
            let state = after[name_index(after, name) as int].state;
            ||| has_vm(s.vms, name) && s.vms[name_index(s.vms, name) as int].state == state
            ||| event is PidFileRead && event->PidFileRead_vm_name == name && pid_file_state(
                event->PidFileRead_pid_file,
            ) == state
            ||| event is VmConfRead && vm_name_of(s.base_dir, event->VmConfRead_0.conf_file)
                == Some(name) && pid_file_state(event->VmConfRead_0.pid_file) == state
        }),
{
    let after = step(s, event).0.vms;
    lemma_name_index_bounds(after, name);
    if !has_vm(s.vms, name) {
        lemma_vms_come_from_conf_files(s, event, name);
        let file = event->VmConfRead_0;
        lemma_loaded_vm(file.conf_file, file.data->Ok_0, file.pid_file);
        lemma_vm_name_is_conf_name(s.base_dir, file.conf_file);
        lemma_insert_index_bounds(s.vms, name);
        lemma_name_index_bounds(s.vms, name);
        let k = insert_index(s.vms, name) as int;
        assert forall|m: int| 0 <= m < k implies (#[trigger] after[m]).name != name by {
            assert(after[m] == s.vms[m]);
        }
        lemma_name_index(after, name, k);
    } else {
        lemma_name_index_bounds(s.vms, name);
        let i = name_index(s.vms, name) as int;
        match event {
            AppEventView::Key(key) => {
                match selected_vm(s) {
                    Some(j) => {
                        lemma_update_keeps_places(
                            s.vms,
                            j,
                            VmView { state: VmStateView::Starting, ..s.vms[j] },
                            name,
                        );
                        if after == s.vms.remove(j) {
                            lemma_remove_brings_none(s.vms, j, name);
                        }
                    },
                    None => {},
                }
            },
            AppEventView::StartNbFailed { vm_name, error, stdout, stderr } => {
                if has_vm(s.vms, vm_name) {
                    let j = name_index(s.vms, vm_name) as int;
                    lemma_name_index_bounds(s.vms, vm_name);
                    lemma_update_keeps_places(
                        s.vms,
                        j,
                        VmView { state: VmStateView::Stopped, ..s.vms[j] },
                        name,
                    );
                }
            },
            AppEventView::VmConfDeleted(conf_file) => {
                match vm_name_of(s.base_dir, conf_file) {
                    Some(other) => {
                        if has_vm(s.vms, other) && after != s.vms {
                            lemma_remove_brings_none(s.vms, name_index(s.vms, other) as int, name);
                        }
                    },
                    None => {},
                }
            },
            AppEventView::PidFileDeleted(vm_name) => {
                if has_vm(s.vms, vm_name) {
                    let j = name_index(s.vms, vm_name) as int;
                    lemma_name_index_bounds(s.vms, vm_name);
                    lemma_update_keeps_places(
                        s.vms,
                        j,
                        VmView { state: VmStateView::Stopped, ..s.vms[j] },
                        name,
                    );
                    if after == s.vms.remove(j) {
                        lemma_remove_brings_none(s.vms, j, name);
                    }
                }
            },
            AppEventView::VmConfRead(file) => {
                match vm_from_conf_spec(file) {
                    Ok(vm) => {
                        if !has_vm(s.vms, vm.name) {
                            lemma_insert_index_bounds(s.vms, vm.name);
                            lemma_insert_keeps_others(
                                s.vms,
                                insert_index(s.vms, vm.name) as int,
                                vm,
                                name,
                            );
                        }
                    },
                    Err(_) => {},
                }
            },
            AppEventView::PidFileRead { vm_name, pid_file } => {
                if has_vm(s.vms, vm_name) {
                    let j = name_index(s.vms, vm_name) as int;
                    lemma_name_index_bounds(s.vms, vm_name);
                    lemma_update_keeps_places(
                        s.vms,
                        j,
                        update_state_spec(s.vms[j], pid_file),
                        name,
                    );
                }
            },
            AppEventView::SignalSent { vm_name, code, error, delete } => {
                if has_vm(s.vms, vm_name) {
                    let j = name_index(s.vms, vm_name) as int;
                    lemma_name_index_bounds(s.vms, vm_name);
                    assert(after =~= s.vms.update(j, after[j]));
                    lemma_update_keeps_places(s.vms, j, after[j], name);
                }
            },
            _ => {},
        }
    }
}

/// The order to delete a running machine: the signal is to be sent to its process.
/// Once the signal was sent the machine is stopping to be deleted, and is still in the
/// list. Where the signal could not be sent the machine stays running, nothing else
/// changes, and the failure is to be reported.
pub proof fn lemma_delete_running_vm(s: StateView, i: int, code: i32, error: Seq<char>)
    requires
        sorted(s.vms),
        s.current_screen == ScreenView::DeleteConfirmation(true),
        selected_vm(s) == Some(i),
        s.vms[i].state is Running,
    ensures
        ({
            let enter = AppEventView::Key(
                KeyEvent { code: KeyCode::Enter, kind: KeyEventKind::Press },
            );
            let name = s.vms[i].name;
            let asked = step(s, enter);
            let sent = step(
                asked.0,
                AppEventView::SignalSent { vm_name: name, code, error, delete: true },
            );
            &&& asked.0 == with_screen(s, ScreenView::List)
            &&& asked.1 == ActionView::Signal {
                vm_name: name,
                pid: s.vms[i].state->pid,
                delete: true,
            }
            &&& code == 0 ==> sent == (
                StateView {
                    vms: s.vms.update(
                        i,
                        VmView { state: VmStateView::StoppingToDelete, ..s.vms[i] },
                    ),
                    ..asked.0
                },
                ActionView::Nothing,
            )
            &&& code != 0 ==> sent == (
                asked.0,
                ActionView::Send(
                    AppEventView::KillFailed {
                        vm_name: name,
                        error: kill_error(s.vms[i].state->pid, error),
                    },
                ),
            )
        }),
{
    lemma_sorted_name_index(s.vms, i);
    let asked = with_screen(s, ScreenView::List);
    assert(asked.vms.update(i, asked.vms[i]) =~= asked.vms);
}

/// A machine that is stopping to be deleted leaves the list when its process-id file
/// is gone, and no other machine does.
pub proof fn lemma_pid_file_deleted_removes(s: StateView, name: Seq<char>)
    requires
        sorted(s.vms),
        has_vm(s.vms, name),
        s.vms[name_index(s.vms, name) as int].state is StoppingToDelete,
    ensures
        step(s, AppEventView::PidFileDeleted(name)).0.vms == s.vms.remove(
            name_index(s.vms, name) as int,
        ),
        !has_vm(step(s, AppEventView::PidFileDeleted(name)).0.vms, name),
{
    lemma_name_index_bounds(s.vms, name);
    let i = name_index(s.vms, name) as int;
    let after = s.vms.remove(i);
    assert forall|m: int| 0 <= m < after.len() implies (#[trigger] after[m]).name != name by {
        let at = if m < i {
            m
        } else {
            m + 1
        };
        assert(after[m] == s.vms[at]);
        if s.vms[at].name == name {
            lemma_sorted_names_differ(s.vms, at, i);
        }
    }
    lemma_name_index(after, name, after.len() as int);
}

/// The news that the process-id file of a stopped machine is gone changes nothing,
/// however often it comes.
pub proof fn lemma_pid_file_deleted_when_stopped(s: StateView, name: Seq<char>)
    requires
        has_vm(s.vms, name),
        s.vms[name_index(s.vms, name) as int].state is Stopped,
    ensures
        step(s, AppEventView::PidFileDeleted(name)) == (s, ActionView::Nothing),
        step(step(s, AppEventView::PidFileDeleted(name)).0, AppEventView::PidFileDeleted(name)) == (
            s,
            ActionView::Nothing,
        ),
{
    let i = name_index(s.vms, name) as int;
    assert(s.vms.update(i, VmView { state: VmStateView::Stopped, ..s.vms[i] }) =~= s.vms);
    assert(step(s, AppEventView::PidFileDeleted(name)).0 =~= s);
}

/// The news that a process-id file is gone, told twice, does what it does when told
/// once.
pub proof fn lemma_pid_file_deleted_twice(s: StateView, name: Seq<char>)
    requires
        sorted(s.vms),
    ensures
        step(step(s, AppEventView::PidFileDeleted(name)).0, AppEventView::PidFileDeleted(name))
            == step(s, AppEventView::PidFileDeleted(name)),
{
    let once = step(s, AppEventView::PidFileDeleted(name)).0;
    if has_vm(s.vms, name) {
        lemma_name_index_bounds(s.vms, name);
        let i = name_index(s.vms, name) as int;
        match s.vms[i].state {
            VmStateView::StoppingToDelete => {
                lemma_pid_file_deleted_removes(s, name);
            },
            VmStateView::InvalidConfiguration { .. } => {},
            _ => {
                let stopped = VmView { state: VmStateView::Stopped, ..s.vms[i] };
                lemma_update_keeps_places(s.vms, i, stopped, name);
                assert(once.vms.update(i, VmView { state: VmStateView::Stopped, ..once.vms[i] })
                    =~= once.vms);
                assert(step(once, AppEventView::PidFileDeleted(name)).0 =~= once);
            },
        }
    }
}

/// The order to start a stopped machine: the machine is starting at once, and the
/// launcher is to be run for it.
pub proof fn lemma_start_stopped_vm(s: StateView, i: int)
    requires
        s.current_screen == ScreenView::List,
        selected_vm(s) == Some(i),
        s.vms[i].state is Stopped,
    ensures
        step(
            s,
            AppEventView::Key(KeyEvent { code: KeyCode::Char('s'), kind: KeyEventKind::Press }),
        ) == (
            with_vm_state(s, i, VmStateView::Starting),
            ActionView::Launch { vm_name: s.vms[i].name },
        ),
{
}

/// The end of a launch: a machine that is starting is stopped when the launch
/// failed. When it succeeded, the machine's process-id file is to be read, and once
/// it was read the machine is running, with the process id that the file names, or
/// stopped. It is starting no longer.
pub proof fn lemma_launch_ends_starting(
    s: StateView,
    name: Seq<char>,
    error: Seq<char>,
    stdout: Seq<char>,
    stderr: Seq<char>,
    pid_file: Option<Seq<char>>,
)
    requires
        has_vm(s.vms, name),
        s.vms[name_index(s.vms, name) as int].state is Starting,
    ensures
        ({
            let i = name_index(s.vms, name) as int;
            let failed = step(
                s,
                AppEventView::StartNbFailed { vm_name: name, error, stdout, stderr },
            );
            let succeeded = step(s, AppEventView::StartNbSuccess { vm_name: name });
            let read = step(succeeded.0, AppEventView::PidFileRead { vm_name: name, pid_file });
            &&& failed.0.vms == s.vms.update(i, VmView { state: VmStateView::Stopped, ..s.vms[i] })
            &&& failed.0.current_screen == ScreenView::StartNbFailed {
                vm_name: name,
                error,
                stdout,
                stderr,
            }
            &&& succeeded == (
                s,
                ActionView::ReadPidFile {
                    vm_name: name,
                    pid_file: pid_file_path_spec(s.base_dir, name),
                },
            )
            &&& read.0.vms == s.vms.update(
                i,
                VmView { state: pid_file_state(pid_file), ..s.vms[i] },
            )
            &&& (pid_file_state(pid_file) is Running || pid_file_state(pid_file) is Stopped)
        }),
{
}

/// Settings leave a machine stopped, unless one of them cannot be read.
pub proof fn lemma_apply_conf_state(vm: VmView, conf: Seq<(Seq<char>, Seq<char>)>)
    requires
        vm.state is Stopped,
    ensures
        apply_conf(vm, conf).state is Stopped || apply_conf(vm, conf).state is InvalidConfiguration,
    decreases conf.len(),
{
    if conf.len() > 0 {
        let next = apply_entry(vm, conf[0].0, conf[0].1);
        if !(next.state is InvalidConfiguration) {
            lemma_apply_conf_state(next, conf.drop_first());
        }
    }
}

/// The machine of a configuration file has the file's name without `.conf`, and the
/// state that its process-id file stands for, unless a setting cannot be read.
pub proof fn lemma_loaded_vm(conf_file: Seq<char>, data: Seq<char>, pid_file: Option<Seq<char>>)
    ensures
        loaded_vm(conf_file, data, pid_file).name == conf_name(conf_file),
        loaded_vm(conf_file, data, pid_file).state is InvalidConfiguration || loaded_vm(
            conf_file,
            data,
            pid_file,
        ).state == pid_file_state(pid_file),
{
    lemma_apply_conf_keeps_name(blank_vm(conf_name(conf_file)), settings_of(data));
    lemma_apply_conf_state(blank_vm(conf_name(conf_file)), settings_of(data));
}

/// A configuration file with a value of `cores` that is no number from 0 to 255
/// gives a machine whose configuration cannot be read.
pub proof fn lemma_bad_cores_file(
    conf_file: Seq<char>,
    data: Seq<char>,
    pid_file: Option<Seq<char>>,
    i: int,
)
    requires
        0 <= i < settings_of(data).len(),
        settings_of(data)[i].0 == "cores"@,
        parse_decimal(settings_of(data)[i].1, 255) is Err,
    ensures
        loaded_vm(conf_file, data, pid_file).state is InvalidConfiguration,
{
    lemma_bad_cores_is_invalid(blank_vm(conf_name(conf_file)), settings_of(data), i);
}

/// A configuration file that appears and disappears: when the file of a machine that
/// is not in the list appears, it is to be read; once it was read, its machine is in
/// the list, at its place by name, and no other machine came or went. When the file
/// disappears while the machine is not running, the list is what it was before.
pub proof fn lemma_conf_file_round_trip(s: StateView, file: ConfFileView)
    requires
        sorted(s.vms),
        vm_name_of(s.base_dir, file.conf_file) is Some,
        !has_vm(s.vms, vm_name_of(s.base_dir, file.conf_file)->0),
        file.data is Ok,
    ensures
        ({
            let name = vm_name_of(s.base_dir, file.conf_file)->0;
            let vm = loaded_vm(file.conf_file, file.data->Ok_0, file.pid_file);
            let created = step(s, AppEventView::VmConfCreated(file.conf_file));
            let read = step(created.0, AppEventView::VmConfRead(file));
            let deleted = step(read.0, AppEventView::VmConfDeleted(file.conf_file));
            &&& created == (
                s,
                ActionView::ReadConf {
                    conf_file: file.conf_file,
                    pid_file: pid_file_path_spec(s.base_dir, name),
                },
            )
            &&& vm.name == name
            &&& vm.state is InvalidConfiguration || vm.state == pid_file_state(file.pid_file)
            &&& read == (
                StateView { vms: s.vms.insert(insert_index(s.vms, name) as int, vm), ..s },
                ActionView::Nothing,
            )
            &&& read.0.vms.remove(insert_index(s.vms, name) as int) == s.vms
            &&& !(vm.state is Running) ==> deleted == (s, ActionView::Nothing)
        }),
{
    let name = vm_name_of(s.base_dir, file.conf_file)->0;
    let vm = loaded_vm(file.conf_file, file.data->Ok_0, file.pid_file);
    lemma_vm_name_is_conf_name(s.base_dir, file.conf_file);
    lemma_loaded_vm(file.conf_file, file.data->Ok_0, file.pid_file);
    lemma_insert_index_bounds(s.vms, name);
    lemma_name_index_bounds(s.vms, name);
    let k = insert_index(s.vms, name) as int;
    let after = s.vms.insert(k, vm);
    assert(after.remove(k) =~= s.vms);
    assert forall|m: int| 0 <= m < k implies (#[trigger] after[m]).name != name by {
        assert(after[m] == s.vms[m]);
    }
    lemma_name_index(after, name, k);
    let read = step(s, AppEventView::VmConfRead(file));
    assert(read.0 =~= StateView { vms: after, ..s });
    let deleted = step(read.0, AppEventView::VmConfDeleted(file.conf_file));
    if !(vm.state is Running) {
        assert(deleted.0 =~= s);
    }
}

/// The path that is built for the configuration file of a machine is the path of that
/// machine's configuration file, and what the watcher reports of it are the events of
/// a configuration file.
pub proof fn lemma_conf_file_path_names_vm(base_dir: Seq<char>, name: Seq<char>)
    requires
        forall|j: int| 0 <= j < name.len() ==> name[j] != '/',
    ensures
        vm_name_of(base_dir, conf_file_path_spec(base_dir, name)) == Some(name),
        path_event(base_dir, conf_file_path_spec(base_dir, name), FileOperation::Created) == Some(
            AppEventView::VmConfCreated(conf_file_path_spec(base_dir, name)),
        ),
        path_event(base_dir, conf_file_path_spec(base_dir, name), FileOperation::Deleted) == Some(
            AppEventView::VmConfDeleted(conf_file_path_spec(base_dir, name)),
        ),
{
    reveal_strlit("etc/");
    reveal_strlit(".conf");
    let path = conf_file_path_spec(base_dir, name);
    let dir = dir_prefix(base_dir);
    let below = "etc/"@ + name + ".conf"@;
    let file = name + ".conf"@;
    assert(path.take(dir.len() as int) =~= dir);
    assert(path.skip(dir.len() as int) =~= below);
    assert(below.take(4) =~= "etc/"@);
    assert(below.skip(4) =~= file);
    assert(file.skip(file.len() - 5) =~= ".conf"@);
    assert(file.take(file.len() - 5) =~= name);
    assert(below.skip(below.len() - 5) =~= ".conf"@);
    assert forall|j: int| 0 <= j < file.len() implies in_class(
        #[trigger] file[j],
        CharClass::Not('/'),
    ) by {
        if j < name.len() {
            assert(file[j] == name[j]);
        } else {
            assert(file[j] == ".conf"@[j - name.len()]);
        }
    }
    lemma_prefix_len(file, CharClass::Not('/'), file.len() as int);
}

/// When the process-id file of a machine is deleted, the watcher reports that the
/// process-id file of that machine is gone.
pub proof fn lemma_pid_file_path_names_vm(base_dir: Seq<char>, name: Seq<char>)
    ensures
        path_event(base_dir, pid_file_path_spec(base_dir, name), FileOperation::Deleted) == Some(
            AppEventView::PidFileDeleted(name),
        ),
{
    reveal_strlit("etc/");
    reveal_strlit("images/");
    reveal_strlit("kernels/");
    reveal_strlit("qemu-");
    reveal_strlit(".pid");
    let path = pid_file_path_spec(base_dir, name);
    let dir = dir_prefix(base_dir);
    let file = "qemu-"@ + name + ".pid"@;
    let rest = name + ".pid"@;
    assert(path.take(dir.len() as int) =~= dir);
    assert(path.skip(dir.len() as int) =~= file);
    assert(file[0] == 'q');
    assert(strip_prefix(file, "etc/"@) is None) by {
        if file.len() >= 4 {
            assert(file.take(4)[0] == 'q');
        }
    }
    assert(strip_prefix(file, "images/"@) is None) by {
        if file.len() >= 7 {
            assert(file.take(7)[0] == 'q');
        }
    }
    assert(strip_prefix(file, "kernels/"@) is None) by {
        if file.len() >= 8 {
            assert(file.take(8)[0] == 'q');
        }
    }
    assert(file.take(5) =~= "qemu-"@);
    assert(file.skip(5) =~= rest);
    assert(rest.skip(rest.len() - 4) =~= ".pid"@);
    assert(rest.take(rest.len() - 4) =~= name);
}

} // verus!
