use crate::text::{
    base_name, chars_are, chars_end_with, chars_of, chars_to_ascii_lower, dir_prefix,
    dir_with_slash, in_class, index_of, lemma_prefix_len_bounds, lemma_suffix_len, path_below,
    path_below_chars, skip_class, skip_class_back, split_lines, split_lines_chars, string_of,
    strip_prefix, strip_prefix_chars, strip_suffix, strip_suffix_chars, subvec, texts_view,
    to_ascii_lower, trim, trim_matches, trim_matches_chars, CharClass,
};
use crate::vm::types::{
    apply_conf, blank_vm, conf_name, conf_view, is_conf_file, text_view, update_state_spec, Vm,
    VmView,
};
use vstd::prelude::*;
use vstd::string::*;

verus! {

/// The word of a truth value: what is left of `input` without the double quotes
/// around it, in small letters.
pub open spec fn bool_word(input: Seq<char>) -> Seq<char> {
    to_ascii_lower(trim_matches(input, CharClass::Quote))
}

/// Whether `word` is one of the words for true.
pub open spec fn means_true(word: Seq<char>) -> bool {
    word == "true"@ || word == "y"@ || word == "yes"@
}

/// Whether `word` is one of the words for false.
pub open spec fn means_false(word: Seq<char>) -> bool {
    word == "false"@ || word == "n"@ || word == "no"@
}

/// The message for a text that is no truth value.
pub open spec fn bool_error(input: Seq<char>) -> Seq<char> {
    "cannot convert '"@ + input + "' into a boolean"@
}

/// The truth value that `input` writes: `true`, `y` or `yes` for true, `false`, `n` or
/// `no` for false, in capitals or small letters, with or without double quotes around.
pub open spec fn parse_bool_spec(input: Seq<char>) -> Result<bool, Seq<char>> {
    if means_true(bool_word(input)) {
        Ok(true)
    } else if means_false(bool_word(input)) {
        Ok(false)
    } else {
        Err(bool_error(input))
    }
}

/// Reads a truth value.
pub fn parse_bool(input: &str) -> (r: Result<bool, String>)
    ensures
        match parse_bool_spec(input@) {
            Ok(b) => r == Ok::<bool, String>(b),
            Err(e) => r is Err && r->Err_0@ == e,
        },
{
    let chars = chars_of(input);
    let bare = trim_matches_chars(&chars, CharClass::Quote);
    let word = chars_to_ascii_lower(&bare);
    if chars_are(&word, "true") || chars_are(&word, "y") || chars_are(&word, "yes") {
        Ok(true)
    } else if chars_are(&word, "false") || chars_are(&word, "n") || chars_are(&word, "no") {
        Ok(false)
    } else {
        let mut message = String::from_str("cannot convert '");
        message.append(input);
        message.append("' into a boolean");
        Err(message)
    }
}

/// Whether a line of a configuration file holds a setting: it does not start with
/// `#`, and it holds a `=`.
pub open spec fn is_setting(line: Seq<char>) -> bool {
    !(line.len() > 0 && line[0] == '#') && index_of(line, '=') < line.len()
}

/// The setting that a line holds: the key before the first `=` and the value after
/// it, each without the white space around it.
pub open spec fn setting_of(line: Seq<char>) -> (Seq<char>, Seq<char>) {
    let at = index_of(line, '=') as int;
    (trim(line.take(at)), trim(line.skip(at + 1)))
}

/// The settings that the lines hold, in their order.
pub open spec fn settings_of_lines(lines: Seq<Seq<char>>) -> Seq<(Seq<char>, Seq<char>)> {
    lines.filter(|line: Seq<char>| is_setting(line)).map_values(
        |line: Seq<char>| setting_of(line),
    )
}

/// The settings that the text of a configuration file holds, in their order.
pub open spec fn settings_of(data: Seq<char>) -> Seq<(Seq<char>, Seq<char>)> {
    settings_of_lines(split_lines(data))
}

/// What a list of settings holds: each key with its value.
pub open spec fn settings_view(conf: Seq<(String, String)>) -> Seq<(Seq<char>, Seq<char>)> {
    conf.map_values(|entry: (String, String)| (entry.0@, entry.1@))
}

/// Reads the settings of a configuration file from its text.
pub fn parse_conf(data: &str) -> (conf: Vec<(String, String)>)
    ensures
        settings_view(conf@) == settings_of(data@),
{
    let chars = chars_of(data);
    let lines = split_lines_chars(&chars);
    let ghost all = texts_view(lines@);
    let mut conf: Vec<(String, String)> = Vec::new();
    let mut i: usize = 0;
    proof {
        reveal(Seq::filter);
        assert(all.take(0) == Seq::<Seq<char>>::empty());
        assert(settings_view(conf@) == settings_of_lines(all.take(0)));
    }
    while i < lines.len()
        invariant
            0 <= i <= lines@.len(),
            all == texts_view(lines@),
            settings_view(conf@) == settings_of_lines(all.take(i as int)),
        decreases lines@.len() - i,
    {
        let line = &lines[i];
        let ghost before = settings_view(conf@);
        proof {
            reveal(Seq::filter);
            assert(all.take(i + 1).drop_last() == all.take(i as int));
            assert(all.take(i + 1).last() == line@);
            assert(line@.skip(0) == line@);
        }
        let at = skip_class(line, CharClass::Not('='), 0);
        let is_comment = line.len() > 0 && line[0] == '#';
        if !is_comment && at < line.len() {
            let key = trim_matches_chars(&subvec(line, 0, at), CharClass::Whitespace);
            let value = trim_matches_chars(
                &subvec(line, at + 1, line.len()),
                CharClass::Whitespace,
            );
            conf.push((string_of(&key), string_of(&value)));
            proof {
                assert(is_setting(line@));
                assert(settings_view(conf@) == before.push(setting_of(line@)));
                assert(settings_of_lines(all.take(i + 1)) == before.push(setting_of(line@)));
            }
        } else {
            proof {
                assert(!is_setting(line@));
                assert(settings_of_lines(all.take(i + 1)) == before);
            }
        }
        i += 1;
    }
    proof {
        assert(all.take(lines@.len() as int) == all);
    }
    conf
}

/// A configuration file as it was found: its path, its text or why it could not be
/// read, and the content of the process-id file of its machine, if that could be read.
#[derive(Debug, PartialEq, Eq)]
pub struct ConfFile {
    pub conf_file: String,
    pub data: Result<String, String>,
    pub pid_file: Option<String>,
}

/// What a configuration file holds.
pub struct ConfFileView {
    pub conf_file: Seq<char>,
    pub data: Result<Seq<char>, Seq<char>>,
    pub pid_file: Option<Seq<char>>,
}

/// What the outcome of reading a file holds.
pub open spec fn data_view(data: Result<String, String>) -> Result<Seq<char>, Seq<char>> {
    match data {
        Ok(text) => Ok(text@),
        Err(error) => Err(error@),
    }
}

impl View for ConfFile {
    type V = ConfFileView;

    open spec fn view(&self) -> ConfFileView {
        ConfFileView {
            conf_file: self.conf_file@,
            data: data_view(self.data),
            pid_file: text_view(self.pid_file),
        }
    }
}

/// The machine that a configuration file describes: its name from the file's name,
/// its settings from the file's text, its state from the process-id file unless a
/// setting cannot be read.
pub open spec fn loaded_vm(
    conf_file: Seq<char>,
    data: Seq<char>,
    pid_file: Option<Seq<char>>,
) -> VmView {
    update_state_spec(apply_conf(blank_vm(conf_name(conf_file)), settings_of(data)), pid_file)
}

/// The machine of a configuration file, or the reason why the file could not be read.
pub open spec fn vm_from_conf_spec(file: ConfFileView) -> Result<VmView, Seq<char>> {
    match file.data {
        Ok(data) => Ok(loaded_vm(file.conf_file, data, file.pid_file)),
        Err(error) => Err(error),
    }
}

/// The machines of the files whose names end in `.conf`, in the order of the files;
/// or the reason why the first of them that could not be read could not.
pub open spec fn get_vms_spec(files: Seq<ConfFileView>) -> Result<Seq<VmView>, Seq<char>>
    decreases files.len(),
{
    if files.len() == 0 {
        Ok(Seq::empty())
    } else {
        match get_vms_spec(files.drop_last()) {
            Ok(vms) => if is_conf_file(files.last().conf_file) {
                match vm_from_conf_spec(files.last()) {
                    Ok(vm) => Ok(vms.push(vm)),
                    Err(error) => Err(error),
                }
            } else {
                Ok(vms)
            },
            Err(error) => Err(error),
        }
    }
}

/// What a list of machines holds.
pub open spec fn vms_view(vms: Seq<Vm>) -> Seq<VmView> {
    vms.map_values(|vm: Vm| vm@)
}

/// What a list of configuration files holds.
pub open spec fn conf_files_view(files: Seq<ConfFile>) -> Seq<ConfFileView> {
    files.map_values(|file: ConfFile| file@)
}

/// The path of the process-id file of the machine `name`: `qemu-<name>.pid` in the
/// base directory.
pub open spec fn pid_file_path_spec(base_dir: Seq<char>, name: Seq<char>) -> Seq<char> {
    dir_prefix(base_dir) + "qemu-"@ + name + ".pid"@
}

/// The path of the configuration file of the machine `name`: `etc/<name>.conf` below
/// the base directory.
pub open spec fn conf_file_path_spec(base_dir: Seq<char>, name: Seq<char>) -> Seq<char> {
    dir_prefix(base_dir) + "etc/"@ + name + ".conf"@
}

/// The name of the machine whose configuration file is `conf_file`: the file lies in
/// `etc/` below the base directory, not deeper, and its name ends in `.conf`. None
/// for any other path.
pub open spec fn vm_name_of(base_dir: Seq<char>, conf_file: Seq<char>) -> Option<Seq<char>> {
    match path_below(base_dir, conf_file) {
        Some(below) => match strip_prefix(below, "etc/"@) {
            Some(file) => if index_of(file, '/') < file.len() {
                None
            } else {
                strip_suffix(file, ".conf"@)
            },
            None => None,
        },
        None => None,
    }
}

/// The name that the controller gives to the machine of a configuration file is the
/// name that the loader gives it.
pub proof fn lemma_vm_name_is_conf_name(base_dir: Seq<char>, conf_file: Seq<char>)
    requires
        vm_name_of(base_dir, conf_file) is Some,
    ensures
        is_conf_file(conf_file),
        conf_name(conf_file) == vm_name_of(base_dir, conf_file)->0,
{
    reveal_strlit("etc/");
    let below = path_below(base_dir, conf_file)->0;
    let file = strip_prefix(below, "etc/"@)->0;
    let class = CharClass::Not('/');
    lemma_prefix_len_bounds(file, class);
    let from = conf_file.len() - file.len();
    assert forall|j: int| from <= j < conf_file.len() implies in_class(
        #[trigger] conf_file[j],
        class,
    ) by {
        assert(conf_file[j] == file[j - from]);
    }
    assert(conf_file[from - 1] == below[3]);
    assert(below[3] == below.take(4)[3]);
    lemma_suffix_len(conf_file, class, file.len() as int);
    assert(base_name(conf_file) == file);
}

/// The path of the process-id file of a machine.
pub fn pid_file_path(base_directory: &str, name: &str) -> (path: String)
    ensures
        path@ == pid_file_path_spec(base_directory@, name@),
{
    let mut path = dir_with_slash(base_directory);
    path.append("qemu-");
    path.append(name);
    path.append(".pid");
    path
}

/// The path of the configuration file of a machine.
pub fn conf_file_path(base_directory: &str, name: &str) -> (path: String)
    ensures
        path@ == conf_file_path_spec(base_directory@, name@),
{
    let mut path = dir_with_slash(base_directory);
    path.append("etc/");
    path.append(name);
    path.append(".conf");
    path
}

/// The name of the machine whose configuration file is `conf_file`.
pub fn vm_name(base_directory: &str, conf_file: &str) -> (name: Option<String>)
    ensures
        text_view(name) == vm_name_of(base_directory@, conf_file@),
{
    let below = match path_below_chars(base_directory, conf_file) {
        Some(below) => below,
        None => {
            return None;
        },
    };
    let file = match strip_prefix_chars(&below, "etc/") {
        Some(file) => file,
        None => {
            return None;
        },
    };
    assert(file@.skip(0) == file@);
    if skip_class(&file, CharClass::Not('/'), 0) < file.len() {
        return None;
    }
    match strip_suffix_chars(&file, ".conf") {
        Some(name) => Some(string_of(&name)),
        None => None,
    }
}

/// Whether the name of a file ends in `.conf`.
pub fn has_conf_name(conf_file: &str) -> (r: bool)
    ensures
        r == is_conf_file(conf_file@),
{
    let path = chars_of(conf_file);
    let from = skip_class_back(&path, CharClass::Not('/'), 0, path.len());
    let file = subvec(&path, from, path.len());
    proof {
        assert(path@.subrange(0, path@.len() as int) == path@);
    }
    chars_end_with(&file, &chars_of(".conf"))
}

/// Builds the machine that a configuration file describes, once the file and the
/// process-id file of the machine have been read.
pub fn vm_from_conf(file: &ConfFile) -> (res: Result<Vm, String>)
    requires
        is_conf_file(file@.conf_file),
    ensures
        match vm_from_conf_spec(file@) {
            Ok(vm) => res is Ok && res->Ok_0@ == vm && vm.name == conf_name(file@.conf_file),
            Err(error) => res is Err && res->Err_0@ == error,
        },
{
    match &file.data {
        Ok(data) => {
            let conf = parse_conf(data.as_str());
            let mut vm_conf: Vec<(&str, &str)> = Vec::new();
            let mut i: usize = 0;
            while i < conf.len()
                invariant
                    0 <= i <= conf@.len(),
                    conf_view(vm_conf@) == settings_view(conf@).take(i as int),
                decreases conf@.len() - i,
            {
                let entry = &conf[i];
                vm_conf.push((entry.0.as_str(), entry.1.as_str()));
                assert(settings_view(conf@).take(i + 1) == settings_view(conf@).take(
                    i as int,
                ).push((entry.0@, entry.1@)));
                i += 1;
            }
            assert(settings_view(conf@).take(conf@.len() as int) == settings_view(conf@));
            let mut vm = Vm::new(vm_conf, file.conf_file.as_str());
            let pid_file: Option<&str> = match &file.pid_file {
                Some(content) => Some(content.as_str()),
                None => None,
            };
            vm.update_state(pid_file);
            Ok(vm)
        },
        Err(error) => Err(error.clone()),
    }
}

/// Builds the machines of a directory from its files as they were found. The files
/// whose names do not end in `.conf` are left aside.
pub fn get_vms(conf_files: &Vec<ConfFile>) -> (res: Result<Vec<Vm>, String>)
    ensures
        match get_vms_spec(conf_files_view(conf_files@)) {
            Ok(vms) => res is Ok && vms_view(res->Ok_0@) == vms,
            Err(error) => res is Err && res->Err_0@ == error,
        },
{
    let mut vm_confs: Vec<Vm> = Vec::new();
    let ghost files = conf_files_view(conf_files@);
    let mut i: usize = 0;
    proof {
        assert(files.take(0) == Seq::<ConfFileView>::empty());
        assert(vms_view(vm_confs@) == Seq::<VmView>::empty());
    }
    while i < conf_files.len()
        invariant
            0 <= i <= conf_files@.len(),
            files == conf_files_view(conf_files@),
            get_vms_spec(files.take(i as int)) == Ok::<Seq<VmView>, Seq<char>>(
                vms_view(vm_confs@),
            ),
        decreases conf_files@.len() - i,
    {
        let file = &conf_files[i];
        let ghost before = vms_view(vm_confs@);
        proof {
            assert(files.take(i + 1).drop_last() == files.take(i as int));
            assert(files.take(i + 1).last() == file@);
        }
        if has_conf_name(file.conf_file.as_str()) {
            match vm_from_conf(file) {
                Ok(vm) => {
                    vm_confs.push(vm);
                    assert(vms_view(vm_confs@) == before.push(vm@));
                },
                Err(error) => {
                    proof {
                        lemma_get_vms_fails(files, i + 1);
                    }
                    return Err(error);
                },
            }
        }
        i += 1;
    }
    proof {
        assert(files.take(conf_files@.len() as int) == files);
    }
    Ok(vm_confs)
}

/// Once a file could not be read, the files after it are not looked at.
pub proof fn lemma_get_vms_fails(files: Seq<ConfFileView>, n: int)
    requires
        0 <= n <= files.len(),
        get_vms_spec(files.take(n)) is Err,
    ensures
        get_vms_spec(files) == get_vms_spec(files.take(n)),
    decreases files.len() - n,
{
    if n < files.len() {
        assert(files.take(n + 1).drop_last() == files.take(n));
        lemma_get_vms_fails(files, n + 1);
    } else {
        assert(files.take(n) == files);
    }
}

} // verus!
