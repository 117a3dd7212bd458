use crate::app::state::{
    add_vm_spec, conf_created_spec, delete_selected_spec, delete_vm_spec, next_row,
    pid_file_deleted_spec, pid_file_read_spec, previous_row, signal_sent_spec, start_failed_spec,
    start_stop_selected_spec, start_succeeded_spec, State, StateView,
};
use crate::events::types::{
    Action, ActionView, AppEvent, AppEventView, KeyCode, KeyEvent, KeyEventKind,
};
use crate::laws::lemma_step_keeps_sorted;
use crate::ui::types::{Screen, ScreenView};
use vstd::prelude::*;
use vstd::string::*;

verus! {

/// `s` with `screen` on the screen.
pub open spec fn with_screen(s: StateView, screen: ScreenView) -> StateView {
    StateView { current_screen: screen, ..s }
}

/// `s` with the row `row` selected.
pub open spec fn with_selected(s: StateView, row: Option<usize>) -> StateView {
    StateView { selected: row, ..s }
}

/// The state after a key was pressed on the list, and what to do: the arrow keys,
/// `Home` and `End` move the selection; `Esc`, `q` and `Q` leave; `s` starts or stops
/// the selected machine; `d` asks whether to delete it.
pub open spec fn list_key_spec(s: StateView, code: KeyCode) -> (StateView, ActionView) {
    match code {
        KeyCode::Down => (with_selected(s, next_row(s.selected)), ActionView::Nothing),
        KeyCode::Up => (with_selected(s, previous_row(s.selected)), ActionView::Nothing),
        KeyCode::Home => (with_selected(s, Some(0)), ActionView::Nothing),
        KeyCode::End => (with_selected(s, Some(usize::MAX)), ActionView::Nothing),
        KeyCode::Esc => (StateView { exit: true, ..s }, ActionView::Nothing),
        KeyCode::Char(c) => if c == 'q' || c == 'Q' {
            (StateView { exit: true, ..s }, ActionView::Nothing)
        } else if c == 's' {
            start_stop_selected_spec(s)
        } else if c == 'd' {
            (with_screen(s, ScreenView::DeleteConfirmation(false)), ActionView::Nothing)
        } else {
            (s, ActionView::Nothing)
        },
        _ => (s, ActionView::Nothing),
    }
}

/// The state after a key was pressed on the question whether to delete, and what to
/// do: `Left` chooses "OK", `Right` chooses "Cancel", `Tab` changes the choice; `Enter`
/// takes the choice and goes back to the list; `Esc` goes back to the list.
pub open spec fn confirmation_key_spec(s: StateView, ok: bool, code: KeyCode) -> (
    StateView,
    ActionView,
) {
    match code {
        KeyCode::Esc => (with_screen(s, ScreenView::List), ActionView::Nothing),
        KeyCode::Left => (
            with_screen(s, ScreenView::DeleteConfirmation(true)),
            ActionView::Nothing,
        ),
        KeyCode::Right => (
            with_screen(s, ScreenView::DeleteConfirmation(false)),
            ActionView::Nothing,
        ),
        KeyCode::Tab => (with_screen(s, ScreenView::DeleteConfirmation(!ok)), ActionView::Nothing),
        KeyCode::Enter => if ok {
            (
                with_screen(delete_selected_spec(s).0, ScreenView::List),
                delete_selected_spec(s).1,
            )
        } else {
            (with_screen(s, ScreenView::List), ActionView::Nothing)
        },
        _ => (s, ActionView::Nothing),
    }
}

/// The state after a key was pressed on the report of a failure: `Esc` and `Enter` go
/// back to the list.
pub open spec fn report_key_spec(s: StateView, code: KeyCode) -> StateView {
    match code {
        KeyCode::Esc | KeyCode::Enter => with_screen(s, ScreenView::List),
        _ => s,
    }
}

/// The state after a key event, and what to do. Only a key that was pressed counts.
pub open spec fn key_spec(s: StateView, key: KeyEvent) -> (StateView, ActionView) {
    if key.kind is Press {
        match s.current_screen {
            ScreenView::List => list_key_spec(s, key.code),
            ScreenView::DeleteConfirmation(ok) => confirmation_key_spec(s, ok, key.code),
            ScreenView::StartNbFailed { .. } => (report_key_spec(s, key.code), ActionView::Nothing),
            ScreenView::KillFailed { .. } => (report_key_spec(s, key.code), ActionView::Nothing),
        }
    } else {
        (s, ActionView::Nothing)
    }
}

/// The state after the event `event`, and what the caller is to do. The events of
/// kernels and images, the change of a configuration file, the creation of a
/// process-id file and the order to draw anew change nothing.
pub open spec fn step(s: StateView, event: AppEventView) -> (StateView, ActionView) {
    match event {
        AppEventView::Key(key) => key_spec(s, key),
        AppEventView::StartNbSuccess { vm_name } => (s, start_succeeded_spec(s, vm_name)),
        AppEventView::StartNbFailed { vm_name, error, stdout, stderr } => (
            with_screen(
                start_failed_spec(s, vm_name),
                ScreenView::StartNbFailed { vm_name, error, stdout, stderr },
            ),
            ActionView::Nothing,
        ),
        AppEventView::KillFailed { vm_name, error } => (
            with_screen(s, ScreenView::KillFailed { vm_name, error }),
            ActionView::Nothing,
        ),
        AppEventView::FatalError(error) => (
            StateView { fatal_error: Some(error), ..s },
            ActionView::Nothing,
        ),
        AppEventView::VmConfCreated(conf_file) => (s, conf_created_spec(s, conf_file)),
        AppEventView::VmConfDeleted(conf_file) => delete_vm_spec(s, conf_file),
        AppEventView::PidFileDeleted(vm_name) => (
            pid_file_deleted_spec(s, vm_name),
            ActionView::Nothing,
        ),
        AppEventView::VmConfRead(file) => (add_vm_spec(s, file), ActionView::Nothing),
        AppEventView::PidFileRead { vm_name, pid_file } => (
            pid_file_read_spec(s, vm_name, pid_file),
            ActionView::Nothing,
        ),
        AppEventView::SignalSent { vm_name, code, error, delete } => signal_sent_spec(
            s,
            vm_name,
            code,
            error,
            delete,
        ),
        _ => (s, ActionView::Nothing),
    }
}

/// Applies a key that was pressed.
fn handle_key(app: &mut State, code: KeyCode) -> (action: Action)
    ensures
        final(app)@ == key_spec(old(app)@, KeyEvent { code, kind: KeyEventKind::Press }).0,
        action@ == key_spec(old(app)@, KeyEvent { code, kind: KeyEventKind::Press }).1,
{
    let confirmation: Option<bool> = match &app.current_screen {
        Screen::DeleteConfirmation(ok) => Some(*ok),
        _ => None,
    };
    let on_list = matches!(app.current_screen, Screen::List);
    if on_list {
        match code {
            KeyCode::Down => {
                app.table_state.select_next();
            },
            KeyCode::Up => {
                app.table_state.select_previous();
            },
            KeyCode::Home => {
                app.table_state.select_first();
            },
            KeyCode::End => {
                app.table_state.select_last();
            },
            KeyCode::Esc => {
                app.exit = true;
            },
            KeyCode::Char(c) => {
                if c == 'q' || c == 'Q' {
                    app.exit = true;
                } else if c == 's' {
                    return app.start_stop_selected_vm();
                } else if c == 'd' {
                    app.current_screen = Screen::DeleteConfirmation(false);
                }
            },
            _ => {},
        }
        return Action::Nothing;
    }
    match confirmation {
        Some(ok) => match code {
            KeyCode::Esc => {
                app.current_screen = Screen::List;
            },
            KeyCode::Left => {
                app.current_screen = Screen::DeleteConfirmation(true);
            },
            KeyCode::Right => {
                app.current_screen = Screen::DeleteConfirmation(false);
            },
            KeyCode::Tab => {
                app.current_screen = Screen::DeleteConfirmation(!ok);
            },
            KeyCode::Enter => {
                let action = if ok {
                    app.delete_selected_vm()
                } else {
                    Action::Nothing
                };
                app.current_screen = Screen::List;
                return action;
            },
            _ => {},
        },
        None => match code {
            KeyCode::Esc | KeyCode::Enter => {
                app.current_screen = Screen::List;
            },
            _ => {},
        },
    }
    Action::Nothing
}

/// Applies one event to the state, and says what the caller is to do before the next
/// event.
pub fn handle(app: &mut State, event: AppEvent) -> (action: Action)
    ensures
        final(app)@ == step(old(app)@, event@).0,
        action@ == step(old(app)@, event@).1,
        old(app).wf() ==> final(app).wf(),
{
    proof {
        if app.wf() {
            lemma_step_keeps_sorted(app@, event@);
        }
    }
    match event {
        AppEvent::Key(key) => match key.kind {
            KeyEventKind::Press => handle_key(app, key.code),
            _ => Action::Nothing,
        },
        AppEvent::StartNbSuccess { vm_name } => app.start_succeeded(vm_name),
        AppEvent::StartNbFailed { vm_name, error, stdout, stderr } => {
            app.start_failed(vm_name.as_str());
            app.current_screen = Screen::StartNbFailed { vm_name, error, stdout, stderr };
            Action::Nothing
        },
        AppEvent::KillFailed { vm_name, error } => {
            app.current_screen = Screen::KillFailed { vm_name, error };
            Action::Nothing
        },
        AppEvent::FatalError(error) => {
            app.fatal_error = Some(error);
            Action::Nothing
        },
        AppEvent::VmConfCreated(conf_file) => app.conf_created(conf_file),
        AppEvent::VmConfDeleted(conf_file) => app.delete_vm(conf_file.as_str()),
        AppEvent::PidFileDeleted(vm_name) => {
            app.pid_file_deleted(vm_name.as_str());
            Action::Nothing
        },
        AppEvent::VmConfRead(file) => {
            app.add_vm(&file);
            Action::Nothing
        },
        AppEvent::PidFileRead { vm_name, pid_file } => {
            let content: Option<&str> = match &pid_file {
                Some(text) => Some(text.as_str()),
                None => None,
            };
            app.pid_file_read(vm_name.as_str(), content);
            Action::Nothing
        },
        AppEvent::SignalSent { vm_name, code, error, delete } => app.signal_sent(
            vm_name,
            code,
            error.as_str(),
            delete,
        ),
        _ => Action::Nothing,
    }
}

} // verus!
