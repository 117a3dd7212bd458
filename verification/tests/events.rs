use vm_manager::events::fs::{
    file_event, file_operation, fs_event, too_many_paths_event, CreateKind, EventKind,
    FileOperation, ModifyKind, RemoveKind,
};
use vm_manager::events::launch::{launch_command, launch_event, LaunchCommand, LaunchOutcome};
use vm_manager::events::term::TermEvent;
use vm_manager::events::types::{KeyCode, KeyEvent, KeyEventKind};
use vm_manager::events::{send_file_event, term_event, AppEvent};

fn paths(list: &[&str]) -> Vec<String> {
    list.iter().map(|path| path.to_string()).collect()
}

#[test]
fn only_file_operations_count() {
    assert_eq!(file_operation(EventKind::Create(CreateKind::File)), Some(FileOperation::Created));
    assert_eq!(file_operation(EventKind::Modify(ModifyKind::Data)), Some(FileOperation::Modified));
    assert_eq!(file_operation(EventKind::Remove(RemoveKind::File)), Some(FileOperation::Deleted));
    for kind in [
        EventKind::Any,
        EventKind::Access,
        EventKind::Other,
        EventKind::Create(CreateKind::Any),
        EventKind::Create(CreateKind::Folder),
        EventKind::Create(CreateKind::Other),
        EventKind::Modify(ModifyKind::Any),
        EventKind::Modify(ModifyKind::Metadata),
        EventKind::Modify(ModifyKind::Name),
        EventKind::Modify(ModifyKind::Other),
        EventKind::Remove(RemoveKind::Any),
        EventKind::Remove(RemoveKind::Folder),
        EventKind::Remove(RemoveKind::Other),
    ] {
        assert_eq!(file_operation(kind), None, "{:?}", kind);
        assert_eq!(fs_event("/base/", kind, &paths(&["/base/etc/vm.conf"])), None);
    }
}

#[test]
fn configuration_files_give_events_with_the_whole_path() {
    let path = "/base/etc/vm1.conf";
    assert_eq!(
        file_event("/base/", path, FileOperation::Created),
        Some(AppEvent::VmConfCreated(path.to_string()))
    );
    assert_eq!(
        file_event("/base/", path, FileOperation::Modified),
        Some(AppEvent::VmConfModified(path.to_string()))
    );
    assert_eq!(
        file_event("/base/", path, FileOperation::Deleted),
        Some(AppEvent::VmConfDeleted(path.to_string()))
    );
    assert_eq!(file_event("/base/", "/base/etc/readme.txt", FileOperation::Created), None);
    assert_eq!(file_event("/base/", "/base/vm1.conf", FileOperation::Created), None);
}

#[test]
fn images_and_kernels_give_events_with_the_path_below_their_directory() {
    assert_eq!(
        file_event("/base/", "/base/images/disk.img", FileOperation::Created),
        Some(AppEvent::ImageFileCreated("disk.img".to_string()))
    );
    assert_eq!(
        file_event("/base/", "/base/images/disk.img", FileOperation::Modified),
        Some(AppEvent::ImageFileModified("disk.img".to_string()))
    );
    assert_eq!(
        file_event("/base/", "/base/images/old/disk.img", FileOperation::Deleted),
        Some(AppEvent::ImageFileDeleted("old/disk.img".to_string()))
    );
    assert_eq!(
        file_event("/base/", "/base/kernels/netbsd", FileOperation::Created),
        Some(AppEvent::KernelCreated("netbsd".to_string()))
    );
    assert_eq!(
        file_event("/base/", "/base/kernels/netbsd", FileOperation::Modified),
        Some(AppEvent::KernelModified("netbsd".to_string()))
    );
    assert_eq!(
        file_event("/base/", "/base/kernels/netbsd", FileOperation::Deleted),
        Some(AppEvent::KernelDeleted("netbsd".to_string()))
    );
}

#[test]
fn of_a_process_id_file_only_the_deletion_gives_an_event() {
    let path = "/base/qemu-vm3.pid";
    assert_eq!(
        file_event("/base/", path, FileOperation::Deleted),
        Some(AppEvent::PidFileDeleted("vm3".to_string()))
    );
    assert_eq!(file_event("/base/", path, FileOperation::Created), None);
    assert_eq!(file_event("/base/", path, FileOperation::Modified), None);
    assert_eq!(file_event("/base/", "/base/qemu-vm3.pid.bak", FileOperation::Deleted), None);
    assert_eq!(file_event("/base/", "/base/qemu.pid", FileOperation::Deleted), None);
    assert_eq!(
        file_event("/base/", "/base/qemu-.pid", FileOperation::Deleted),
        Some(AppEvent::PidFileDeleted(String::new()))
    );
}

#[test]
fn other_files_give_no_event() {
    for path in ["/base/startnb.sh", "/base/", "/elsewhere/etc/vm.conf", "", "/base/etcetera/a.conf"] {
        for operation in [FileOperation::Created, FileOperation::Modified, FileOperation::Deleted] {
            assert_eq!(file_event("/base/", path, operation), None, "{:?}", path);
        }
    }
}

#[test]
fn a_notification_with_several_paths_is_a_fatal_error() {
    let both = paths(&["/base/etc/a.conf", "/base/qemu-\"b\".pid"]);
    assert_eq!(
        send_file_event("/base/", &both, FileOperation::Created),
        Some(AppEvent::FatalError(
            "send_file_event(), Created: paths.len() > 1, paths=[\"/base/etc/a.conf\", \"/base/qemu-\\\"b\\\".pid\"]"
                .to_string()
        ))
    );
    assert_eq!(
        send_file_event("/base/", &both, FileOperation::Modified),
        Some(AppEvent::FatalError(format!(
            "send_file_event(), Modified: paths.len() > 1, paths={:?}",
            both
        )))
    );
    assert_eq!(
        fs_event("/base/", EventKind::Remove(RemoveKind::File), &both),
        Some(AppEvent::FatalError(format!(
            "send_file_event(), Deleted: paths.len() > 1, paths={:?}",
            both
        )))
    );
}

#[test]
fn a_notification_with_one_path_or_none() {
    assert_eq!(send_file_event("/base/", &Vec::new(), FileOperation::Deleted), None);
    assert_eq!(
        send_file_event("/base/", &paths(&["/base/qemu-a.pid"]), FileOperation::Deleted),
        Some(AppEvent::PidFileDeleted("a".to_string()))
    );
    assert_eq!(
        fs_event("/base/", EventKind::Create(CreateKind::File), &paths(&["/base/etc/a.conf"])),
        Some(AppEvent::VmConfCreated("/base/etc/a.conf".to_string()))
    );
}

#[test]
fn the_terminal_hands_on_pressed_keys_and_resizes() {
    let key = |kind: KeyEventKind| -> KeyEvent { KeyEvent { code: KeyCode::Char('s'), kind } };
    assert_eq!(
        term_event(TermEvent::Key(key(KeyEventKind::Press))),
        Some(AppEvent::Key(key(KeyEventKind::Press)))
    );
    assert_eq!(term_event(TermEvent::Key(key(KeyEventKind::Release))), None);
    assert_eq!(term_event(TermEvent::Key(key(KeyEventKind::Repeat))), None);
    assert_eq!(term_event(TermEvent::Resize), Some(AppEvent::ForceRender));
    assert_eq!(term_event(TermEvent::FocusGained), None);
    assert_eq!(term_event(TermEvent::FocusLost), None);
    assert_eq!(term_event(TermEvent::Mouse), None);
    assert_eq!(term_event(TermEvent::Paste), None);
}

#[test]
fn the_launcher_is_called_as_agreed() {
    assert_eq!(
        launch_command("/base/", "vm2"),
        LaunchCommand {
            program: "/base/startnb.sh".to_string(),
            args: vec!["-f".to_string(), "etc/vm2.conf".to_string(), "-d".to_string()],
            current_dir: "/base/".to_string(),
        }
    );
}

#[test]
fn a_launch_ends_in_one_event() {
    assert_eq!(
        launch_event(
            "vm2".to_string(),
            LaunchOutcome::Exited { success: true, stdout: "out".to_string(), stderr: String::new() }
        ),
        AppEvent::StartNbSuccess { vm_name: "vm2".to_string() }
    );
    assert_eq!(
        launch_event(
            "vm2".to_string(),
            LaunchOutcome::Exited {
                success: false,
                stdout: "out".to_string(),
                stderr: "boom".to_string()
            }
        ),
        AppEvent::StartNbFailed {
            vm_name: "vm2".to_string(),
            error: "startnb.sh failed!".to_string(),
            stdout: "out".to_string(),
            stderr: "boom".to_string(),
        }
    );
    assert_eq!(
        launch_event("vm2".to_string(), LaunchOutcome::NotFound { error: "no file".to_string() }),
        AppEvent::StartNbFailed {
            vm_name: "vm2".to_string(),
            error: "std::fs::canonicalize() failed: no file".to_string(),
            stdout: String::new(),
            stderr: String::new(),
        }
    );
    assert_eq!(
        launch_event("vm2".to_string(), LaunchOutcome::SpawnFailed { error: "denied".to_string() }),
        AppEvent::StartNbFailed {
            vm_name: "vm2".to_string(),
            error: "startnb.sh failed: denied".to_string(),
            stdout: String::new(),
            stderr: String::new(),
        }
    );
}

#[test]
fn the_complaint_about_several_paths() {
    assert_eq!(
        too_many_paths_event(FileOperation::Deleted, "[\"a\", \"b\"]"),
        AppEvent::FatalError(
            "send_file_event(), Deleted: paths.len() > 1, paths=[\"a\", \"b\"]".to_string()
        )
    );
    assert_eq!(
        too_many_paths_event(FileOperation::Created, ""),
        AppEvent::FatalError("send_file_event(), Created: paths.len() > 1, paths=".to_string())
    );
}

#[test]
fn the_base_directory_may_lack_the_final_slash() {
    assert_eq!(
        send_file_event("/b", &paths(&["/b/qemu-vm3.pid"]), FileOperation::Deleted),
        Some(AppEvent::PidFileDeleted("vm3".to_string()))
    );
    assert_eq!(
        send_file_event("/b", &paths(&["/b/etc/vm1.conf"]), FileOperation::Created),
        Some(AppEvent::VmConfCreated("/b/etc/vm1.conf".to_string()))
    );
    assert_eq!(
        send_file_event("/b", &paths(&["/b/etc/vm1.conf"]), FileOperation::Deleted),
        Some(AppEvent::VmConfDeleted("/b/etc/vm1.conf".to_string()))
    );
    assert_eq!(
        file_event("/b", "/b/etc/vm1.conf", FileOperation::Modified),
        Some(AppEvent::VmConfModified("/b/etc/vm1.conf".to_string()))
    );
    assert_eq!(
        file_event("/b", "/b/images/disk.img", FileOperation::Created),
        Some(AppEvent::ImageFileCreated("disk.img".to_string()))
    );
    assert_eq!(
        fs_event("/b", EventKind::Remove(RemoveKind::File), &paths(&["/b/kernels/netbsd"])),
        Some(AppEvent::KernelDeleted("netbsd".to_string()))
    );
    // A directory whose name only starts like the base directory is another one.
    assert_eq!(file_event("/b", "/base/etc/vm1.conf", FileOperation::Created), None);
    assert_eq!(file_event("/b", "/bqemu-vm3.pid", FileOperation::Deleted), None);
    assert_eq!(file_event("/b", "/betc/vm1.conf", FileOperation::Created), None);
    assert_eq!(file_event("/b", "/b", FileOperation::Created), None);
    assert_eq!(file_event("/b/", "/b//etc/vm1.conf", FileOperation::Created), None);
}

#[test]
fn the_launcher_is_found_in_a_base_directory_without_the_final_slash() {
    assert_eq!(
        launch_command("/b", "n"),
        LaunchCommand {
            program: "/b/startnb.sh".to_string(),
            args: vec!["-f".to_string(), "etc/n.conf".to_string(), "-d".to_string()],
            current_dir: "/b".to_string(),
        }
    );
}
