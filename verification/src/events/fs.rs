use crate::events::types::{event_view, AppEvent, AppEventView};
use crate::text::{
    chars_end_with, chars_of, ends_with, path_below, path_below_chars, string_of, strip_prefix,
    strip_prefix_chars, strip_suffix, strip_suffix_chars,
};
use vstd::prelude::*;
use vstd::string::*;

verus! {

/// What was done to a file.
#[derive(Clone, Copy, Debug, PartialEq, Eq)]
pub enum FileOperation {
    Created,
    Modified,
    Deleted,
}

/// What was created.
#[derive(Clone, Copy, Debug, PartialEq, Eq)]
pub enum CreateKind {
    Any,
    File,
    Folder,
    Other,
}

/// What was modified.
#[derive(Clone, Copy, Debug, PartialEq, Eq)]
pub enum ModifyKind {
    Any,
    Data,
    Metadata,
    Name,
    Other,
}

/// What was removed.
#[derive(Clone, Copy, Debug, PartialEq, Eq)]
pub enum RemoveKind {
    Any,
    File,
    Folder,
    Other,
}

/// The kind of a raw notification of the watcher of the directory.
#[derive(Clone, Copy, Debug, PartialEq, Eq)]
pub enum EventKind {
    Any,
    Access,
    Create(CreateKind),
    Modify(ModifyKind),
    Remove(RemoveKind),
    Other,
}

/// The operation that a raw notification reports: the creation of a file, a change
/// of a file's data, the removal of a file. Nothing for the rest.
pub open spec fn file_operation_spec(kind: EventKind) -> Option<FileOperation> {
    match kind {
        EventKind::Create(CreateKind::File) => Some(FileOperation::Created),
        EventKind::Modify(ModifyKind::Data) => Some(FileOperation::Modified),
        EventKind::Remove(RemoveKind::File) => Some(FileOperation::Deleted),
        _ => None,
    }
}

/// The text that `Debug` writes for a list of texts.
pub uninterp spec fn debug_text(paths: Seq<Seq<char>>) -> Seq<char>;

/// What a list of paths holds.
pub open spec fn paths_view(paths: Seq<String>) -> Seq<Seq<char>> {
    paths.map_values(|path: String| path@)
}

/// The name of an operation.
pub open spec fn operation_name(operation: FileOperation) -> Seq<char> {
    match operation {
        FileOperation::Created => "Created"@,
        FileOperation::Modified => "Modified"@,
        FileOperation::Deleted => "Deleted"@,
    }
}

/// The complaint about a notification of `operation` that names more than one path,
/// where `listed` is the list of the paths as `Debug` writes it.
pub open spec fn too_many_paths(operation: FileOperation, listed: Seq<char>) -> Seq<char> {
    "send_file_event(), "@ + operation_name(operation) + ": paths.len() > 1, paths="@ + listed
}

/// The event for an operation on the file `path`, by its place below the base
/// directory, whose path may or may not end in `/`:
/// in `etc/` with a name that ends in `.conf`, the event of a configuration file, with
/// the whole path; in `images/` or `kernels/`, the event of an image or a kernel, with
/// the path below that directory; `qemu-<name>.pid`, if it was deleted, the event that
/// the process-id file of `<name>` is gone. Nothing for any other file.
pub open spec fn path_event(
    base_dir: Seq<char>,
    path: Seq<char>,
    operation: FileOperation,
) -> Option<AppEventView> {
    match path_below(base_dir, path) {
        Some(file) => if strip_prefix(file, "etc/"@) is Some {
            if ends_with(file, ".conf"@) {
                Some(
                    match operation {
                        FileOperation::Created => AppEventView::VmConfCreated(path),
                        FileOperation::Modified => AppEventView::VmConfModified(path),
                        FileOperation::Deleted => AppEventView::VmConfDeleted(path),
                    },
                )
            } else {
                None
            }
        } else if strip_prefix(file, "images/"@) is Some {
            let below = strip_prefix(file, "images/"@)->0;
            Some(
                match operation {
                    FileOperation::Created => AppEventView::ImageFileCreated(below),
                    FileOperation::Modified => AppEventView::ImageFileModified(below),
                    FileOperation::Deleted => AppEventView::ImageFileDeleted(below),
                },
            )
        } else if strip_prefix(file, "kernels/"@) is Some {
            let below = strip_prefix(file, "kernels/"@)->0;
            Some(
                match operation {
                    FileOperation::Created => AppEventView::KernelCreated(below),
                    FileOperation::Modified => AppEventView::KernelModified(below),
                    FileOperation::Deleted => AppEventView::KernelDeleted(below),
                },
            )
        } else if strip_prefix(file, "qemu-"@) is Some {
            match strip_suffix(strip_prefix(file, "qemu-"@)->0, ".pid"@) {
                Some(vm_name) => if operation is Deleted {
                    Some(AppEventView::PidFileDeleted(vm_name))
                } else {
                    None
                },
                None => None,
            }
        } else {
            None
        },
        None => None,
    }
}

/// The event for an operation that a notification reports of the files `paths`: a
/// fatal error where it names more than one file, else the event of its one file.
pub open spec fn send_file_event_spec(
    base_dir: Seq<char>,
    paths: Seq<Seq<char>>,
    operation: FileOperation,
) -> Option<AppEventView> {
    if paths.len() > 1 {
        Some(AppEventView::FatalError(too_many_paths(operation, debug_text(paths))))
    } else if paths.len() == 1 {
        path_event(base_dir, paths[0], operation)
    } else {
        None
    }
}

/// The event that a raw notification becomes.
pub open spec fn fs_event_spec(
    base_dir: Seq<char>,
    kind: EventKind,
    paths: Seq<Seq<char>>,
) -> Option<AppEventView> {
    match file_operation_spec(kind) {
        Some(operation) => send_file_event_spec(base_dir, paths, operation),
        None => None,
    }
}

/// Tells which operation a raw notification reports.
pub fn file_operation(kind: EventKind) -> (operation: Option<FileOperation>)
    ensures
        operation == file_operation_spec(kind),
{
    match kind {
        EventKind::Create(CreateKind::File) => Some(FileOperation::Created),
        EventKind::Modify(ModifyKind::Data) => Some(FileOperation::Modified),
        EventKind::Remove(RemoveKind::File) => Some(FileOperation::Deleted),
        _ => None,
    }
}

/// `format!` with `{:?}` on a list of texts: the same list gives the same text.
#[verifier::external_body]
fn debug_paths(paths: &Vec<String>) -> (text: String)
    ensures
        text@ == debug_text(paths_view(paths@)),
{
    format!("{:?}", paths)
}

fn operation_word(operation: FileOperation) -> (word: &'static str)
    ensures
        word@ == operation_name(operation),
{
    match operation {
        FileOperation::Created => "Created",
        FileOperation::Modified => "Modified",
        FileOperation::Deleted => "Deleted",
    }
}

/// The event for an operation on one file.
pub fn file_event(base_dir: &str, path: &str, operation: FileOperation) -> (event: Option<
    AppEvent,
>)
    ensures
        event_view(event) == path_event(base_dir@, path@, operation),
{
    let file = match path_below_chars(base_dir, path) {
        Some(file) => file,
        None => {
            return None;
        },
    };
    if strip_prefix_chars(&file, "etc/").is_some() {
        if chars_end_with(&file, &chars_of(".conf")) {
            let whole = path.to_owned();
            return Some(
                match operation {
                    FileOperation::Created => AppEvent::VmConfCreated(whole),
                    FileOperation::Modified => AppEvent::VmConfModified(whole),
                    FileOperation::Deleted => AppEvent::VmConfDeleted(whole),
                },
            );
        }
        return None;
    }
    if let Some(below) = strip_prefix_chars(&file, "images/") {
        let image = string_of(&below);
        return Some(
            match operation {
                FileOperation::Created => AppEvent::ImageFileCreated(image),
                FileOperation::Modified => AppEvent::ImageFileModified(image),
                FileOperation::Deleted => AppEvent::ImageFileDeleted(image),
            },
        );
    }
    if let Some(below) = strip_prefix_chars(&file, "kernels/") {
        let kernel = string_of(&below);
        return Some(
            match operation {
                FileOperation::Created => AppEvent::KernelCreated(kernel),
                FileOperation::Modified => AppEvent::KernelModified(kernel),
                FileOperation::Deleted => AppEvent::KernelDeleted(kernel),
            },
        );
    }
    if let Some(rest) = strip_prefix_chars(&file, "qemu-") {
        if let Some(vm_name) = strip_suffix_chars(&rest, ".pid") {
            return match operation {
                FileOperation::Deleted => Some(AppEvent::PidFileDeleted(string_of(&vm_name))),
                _ => None,
            };
        }
    }
    None
}

/// The fatal error for a notification of `operation` that names more than one path,
/// where `listed` is the list of the paths as `Debug` writes it.
pub fn too_many_paths_event(operation: FileOperation, listed: &str) -> (event: AppEvent)
    ensures
        event@ == AppEventView::FatalError(too_many_paths(operation, listed@)),
{
    let mut message = String::from_str("send_file_event(), ");
    message.append(operation_word(operation));
    message.append(": paths.len() > 1, paths=");
    message.append(listed);
    AppEvent::FatalError(message)
}

/// The event to send for an operation that a notification reports of `paths`.
pub fn send_file_event(base_dir: &str, paths: &Vec<String>, operation: FileOperation) -> (event:
    Option<AppEvent>)
    ensures
        event_view(event) == send_file_event_spec(base_dir@, paths_view(paths@), operation),
{
    if paths.len() > 1 {
        let listed = debug_paths(paths);
        return Some(too_many_paths_event(operation, listed.as_str()));
    }
    if paths.len() == 1 {
        file_event(base_dir, paths[0].as_str(), operation)
    } else {
        None
    }
}

/// The event to send for a raw notification of kind `kind` about `paths`.
pub fn fs_event(base_dir: &str, kind: EventKind, paths: &Vec<String>) -> (event: Option<AppEvent>)
    ensures
        event_view(event) == fs_event_spec(base_dir@, kind, paths_view(paths@)),
{
    match file_operation(kind) {
        Some(operation) => send_file_event(base_dir, paths, operation),
        None => None,
    }
}

} // verus!
