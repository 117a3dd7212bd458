use ratatui::style::Color;
use vm_manager::number::{
    int_error_message, parse_u16, parse_u32, parse_u8, u32_to_decimal, IntErrorKind,
};
use vm_manager::text::{
    chars_of, dir_with_slash, path_below_chars, split_lines_chars, str_eq, str_lt, string_of,
    trim_matches_chars, CharClass,
};
use vm_manager::vm::helpers::{
    conf_file_path, get_vms, has_conf_name, parse_bool, parse_conf, pid_file_path, vm_from_conf,
    vm_name, ConfFile,
};
use vm_manager::vm::{Vm, VmState};

fn conf_file(path: &str, data: &str, pid_file: Option<&str>) -> ConfFile {
    ConfFile {
        conf_file: path.to_string(),
        data: Ok(data.to_string()),
        pid_file: pid_file.map(|text| text.to_string()),
    }
}

fn trimmed(text: &str) -> String {
    string_of(&trim_matches_chars(&chars_of(text), CharClass::Whitespace))
}

#[test]
fn parse_bool_reads_the_words_for_true() {
    for word in ["true", "True", "TRUE", "tRuE", "y", "Y", "yes", "Yes", "YES"] {
        assert_eq!(parse_bool(word), Ok(true), "{}", word);
    }
}

#[test]
fn parse_bool_reads_the_words_for_false() {
    for word in ["false", "False", "FALSE", "n", "N", "no", "No", "NO"] {
        assert_eq!(parse_bool(word), Ok(false), "{}", word);
    }
}

#[test]
fn parse_bool_leaves_quotes_aside() {
    assert_eq!(parse_bool("\"true\""), Ok(true));
    assert_eq!(parse_bool("\"no\""), Ok(false));
    assert_eq!(parse_bool("\"\"yes\""), Ok(true));
    assert_eq!(parse_bool("\"n"), Ok(false));
}

#[test]
fn parse_bool_refuses_other_words() {
    assert_eq!(parse_bool("maybe"), Err("cannot convert 'maybe' into a boolean".to_string()));
    assert_eq!(parse_bool(""), Err("cannot convert '' into a boolean".to_string()));
    assert_eq!(parse_bool("\"1\""), Err("cannot convert '\"1\"' into a boolean".to_string()));
    assert_eq!(parse_bool(" true"), Err("cannot convert ' true' into a boolean".to_string()));
    assert_eq!(parse_bool("tr\"ue"), Err("cannot convert 'tr\"ue' into a boolean".to_string()));
}

#[test]
fn parse_u8_reads_numbers_up_to_255() {
    assert_eq!(parse_u8("0"), Ok(0));
    assert_eq!(parse_u8("7"), Ok(7));
    assert_eq!(parse_u8("255"), Ok(255));
    assert_eq!(parse_u8("+12"), Ok(12));
    assert_eq!(parse_u8("007"), Ok(7));
}

#[test]
fn parse_u8_tells_the_errors_apart() {
    assert_eq!(parse_u8(""), Err(IntErrorKind::Empty));
    assert_eq!(parse_u8("+"), Err(IntErrorKind::InvalidDigit));
    assert_eq!(parse_u8("-"), Err(IntErrorKind::InvalidDigit));
    assert_eq!(parse_u8("-1"), Err(IntErrorKind::InvalidDigit));
    assert_eq!(parse_u8("bad"), Err(IntErrorKind::InvalidDigit));
    assert_eq!(parse_u8("12 "), Err(IntErrorKind::InvalidDigit));
    assert_eq!(parse_u8("30x"), Err(IntErrorKind::InvalidDigit));
    assert_eq!(parse_u8("256"), Err(IntErrorKind::PosOverflow));
    assert_eq!(parse_u8("999x"), Err(IntErrorKind::PosOverflow));
    assert_eq!(parse_u8("000256"), Err(IntErrorKind::PosOverflow));
}

#[test]
fn parse_u8_agrees_with_the_standard_library() {
    for text in [
        "", "+", "-", "0", "1", "09", "255", "256", "300", "+255", "+256", "-0", "1a", "a1", "25x",
        "30x", "999x", "2 5", " 25", "25 ", "0000000000000000255", "18446744073709551616", "++1",
    ] {
        let expected = text.parse::<u8>();
        let got = parse_u8(text);
        match (expected, got) {
            (Ok(a), Ok(b)) => assert_eq!(a, b, "{:?}", text),
            (Err(e), Err(kind)) => assert_eq!(e.to_string(), int_error_message(kind), "{:?}", text),
            (a, b) => panic!("{:?}: {:?} against {:?}", text, a, b),
        }
    }
}

#[test]
fn parse_u16_and_u32_agree_with_the_standard_library() {
    for text in ["", "0", "65535", "65536", "4294967295", "4294967296", "12ab", "+7", "99999999999"] {
        match (text.parse::<u16>(), parse_u16(text)) {
            (Ok(a), Ok(b)) => assert_eq!(a, b, "{:?}", text),
            (Err(e), Err(kind)) => assert_eq!(e.to_string(), int_error_message(kind), "{:?}", text),
            (a, b) => panic!("{:?}: {:?} against {:?}", text, a, b),
        }
        match (text.parse::<u32>(), parse_u32(text)) {
            (Ok(a), Ok(b)) => assert_eq!(a, b, "{:?}", text),
            (Err(e), Err(kind)) => assert_eq!(e.to_string(), int_error_message(kind), "{:?}", text),
            (a, b) => panic!("{:?}: {:?} against {:?}", text, a, b),
        }
    }
}

#[test]
fn int_error_messages_are_exact() {
    assert_eq!(int_error_message(IntErrorKind::Empty), "cannot parse integer from empty string");
    assert_eq!(int_error_message(IntErrorKind::InvalidDigit), "invalid digit found in string");
    assert_eq!(
        int_error_message(IntErrorKind::PosOverflow),
        "number too large to fit in target type"
    );
}

#[test]
fn u32_to_decimal_writes_the_digits() {
    assert_eq!(u32_to_decimal(0), "0");
    assert_eq!(u32_to_decimal(9), "9");
    assert_eq!(u32_to_decimal(10), "10");
    assert_eq!(u32_to_decimal(4242), "4242");
    assert_eq!(u32_to_decimal(1000000), "1000000");
    assert_eq!(u32_to_decimal(u32::MAX), "4294967295");
}

#[test]
fn trim_agrees_with_the_standard_library() {
    for text in [
        "", " ", "a", " a ", "\t a b \r\n", "\u{a0}x\u{3000}", "\u{2003}\u{85}y z\u{1680}",
        "\u{200b}x", "x\u{feff}", "  ", "\u{b}\u{c}q",
    ] {
        assert_eq!(trimmed(text), text.trim(), "{:?}", text);
    }
}

#[test]
fn string_of_gives_the_characters_back() {
    assert_eq!(string_of(&chars_of("héllo, wörld")), "héllo, wörld");
    assert_eq!(string_of(&vec!['a', 'b']), "ab");
    assert_eq!(string_of(&Vec::new()), "");
}

#[test]
fn split_lines_splits_at_line_feeds() {
    let lines = |text: &str| -> Vec<String> {
        split_lines_chars(&chars_of(text)).iter().map(string_of).collect()
    };
    assert_eq!(lines(""), Vec::<String>::new());
    assert_eq!(lines("a"), vec!["a"]);
    assert_eq!(lines("a\n"), vec!["a"]);
    assert_eq!(lines("a\nb"), vec!["a", "b"]);
    assert_eq!(lines("a\n\nb\n"), vec!["a", "", "b"]);
    assert_eq!(lines("\n"), vec![""]);
    assert_eq!(lines("a\r\nb"), vec!["a\r", "b"]);
}

#[test]
fn split_lines_agrees_with_splitting_at_line_feeds() {
    // Texts over a small alphabet, all of them up to five characters long.
    let alphabet = ['a', '=', '\n', '#', ' '];
    let mut texts: Vec<String> = vec![String::new()];
    let mut from = 0;
    for _ in 0..5 {
        let upto = texts.len();
        for i in from..upto {
            for c in alphabet {
                let mut longer = texts[i].clone();
                longer.push(c);
                texts.push(longer);
            }
        }
        from = upto;
    }
    assert_eq!(texts.len(), 3906);
    for text in &texts {
        let expected: Vec<String> =
            text.split_terminator('\n').map(|line| line.to_string()).collect();
        let got: Vec<String> =
            split_lines_chars(&chars_of(text)).iter().map(string_of).collect();
        assert_eq!(got, expected, "{:?}", text);
        let settings: Vec<(String, String)> = expected
            .iter()
            .filter(|line| !line.starts_with('#') && line.contains('='))
            .map(|line| {
                let (key, value) = line.split_once('=').unwrap();
                (key.trim().to_string(), value.trim().to_string())
            })
            .collect();
        assert_eq!(parse_conf(text), settings, "{:?}", text);
    }
}

#[test]
fn names_are_ordered_as_strings_are() {
    let names = ["", "a", "A", "ab", "b", "vm1", "vm10", "vm2", "é", "z", "vm"];
    for a in names {
        for b in names {
            assert_eq!(str_lt(a, b), a < b, "{:?} {:?}", a, b);
            assert_eq!(str_eq(a, b), a == b, "{:?} {:?}", a, b);
        }
    }
}

#[test]
fn parse_conf_skips_comments_and_lines_without_a_setting() {
    let conf = parse_conf("# a comment\nimg=a.img\nno setting here\n\nkernel=a.kernel\n#cores=2\n");
    assert_eq!(
        conf,
        vec![
            ("img".to_string(), "a.img".to_string()),
            ("kernel".to_string(), "a.kernel".to_string()),
        ]
    );
}

#[test]
fn parse_conf_trims_keys_and_values() {
    let conf = parse_conf("  img = a.img  \r\nextra=-x a=b \r\n=\n mem=\n");
    assert_eq!(
        conf,
        vec![
            ("img".to_string(), "a.img".to_string()),
            ("extra".to_string(), "-x a=b".to_string()),
            ("".to_string(), "".to_string()),
            ("mem".to_string(), "".to_string()),
        ]
    );
}

#[test]
fn parse_conf_takes_a_comment_only_at_the_start_of_a_line() {
    let conf = parse_conf(" #k=v\nk=#v");
    assert_eq!(
        conf,
        vec![("#k".to_string(), "v".to_string()), ("k".to_string(), "#v".to_string())]
    );
}

#[test]
fn vm_new_reads_every_setting() {
    let vm = Vm::new(
        vec![
            ("img", "disk.img"),
            ("kernel", "netbsd"),
            ("mem", "256m"),
            ("cores", "4"),
            ("hostfwd", "::2222-:22"),
            ("editprotect", "yes"),
            ("rmprotect", "\"True\""),
            ("qmp_port", "4444"),
            ("bridgenet", "br0"),
            ("share", "/tmp/share"),
            ("sharerw", "y"),
            ("extra", "-nographic"),
            ("unknown", "ignored"),
        ],
        "/base/etc/web.conf",
    );
    assert_eq!(
        vm,
        Vm {
            name: "web".to_string(),
            img: Some("disk.img".to_string()),
            kernel: Some("netbsd".to_string()),
            mem: Some("256m".to_string()),
            cores: Some(4),
            hostfwd: Some("::2222-:22".to_string()),
            editprotect: true,
            rmprotect: true,
            qmp_port: Some(4444),
            bridgenet: Some("br0".to_string()),
            share: Some("/tmp/share".to_string()),
            sharerw: true,
            extra: Some("-nographic".to_string()),
            state: VmState::Stopped,
            cpu_usage: 0,
        }
    );
}

#[test]
fn vm_new_accepts_a_file_without_settings() {
    let vm = Vm::new(Vec::new(), "empty.conf");
    assert_eq!(vm.name, "empty");
    assert_eq!(vm.img, None);
    assert_eq!(vm.kernel, None);
    assert_eq!(vm.state, VmState::Stopped);
}

#[test]
fn vm_new_takes_the_name_from_the_file_name() {
    assert_eq!(Vm::new(Vec::new(), "vm1.conf").name, "vm1");
    assert_eq!(Vm::new(Vec::new(), "/a/b.c/etc/my.vm.conf").name, "my.vm");
    assert_eq!(Vm::new(Vec::new(), "etc/.conf").name, "");
    assert_eq!(Vm::new(Vec::new(), "/x/y.conf.conf").name, "y.conf");
}

#[test]
fn vm_new_stops_at_a_bad_cores_value() {
    let vm = Vm::new(
        vec![("img", "a.img"), ("kernel", "a.kernel"), ("cores", "bad"), ("mem", "1g")],
        "/base/etc/vm1.conf",
    );
    assert_eq!(vm.name, "vm1");
    assert_eq!(
        vm.state,
        VmState::InvalidConfiguration {
            cause: "Failed to convert 'cores' parameter (bad) to a u8: invalid digit found in string"
                .to_string()
        }
    );
    assert_eq!(vm.img, Some("a.img".to_string()));
    assert_eq!(vm.kernel, Some("a.kernel".to_string()));
    assert_eq!(vm.cores, None);
    assert_eq!(vm.mem, None);
}

#[test]
fn vm_new_reports_each_kind_of_bad_cores_value() {
    let cause = |value: &str| -> VmState { Vm::new(vec![("cores", value)], "v.conf").state };
    assert_eq!(
        cause(""),
        VmState::InvalidConfiguration {
            cause: "Failed to convert 'cores' parameter () to a u8: cannot parse integer from empty string"
                .to_string()
        }
    );
    assert_eq!(
        cause("256"),
        VmState::InvalidConfiguration {
            cause: "Failed to convert 'cores' parameter (256) to a u8: number too large to fit in target type"
                .to_string()
        }
    );
}

#[test]
fn vm_new_stops_at_a_bad_switch() {
    for key in ["editprotect", "rmprotect", "sharerw"] {
        let vm = Vm::new(vec![("img", "a"), (key, "perhaps"), ("kernel", "k")], "v.conf");
        assert_eq!(
            vm.state,
            VmState::InvalidConfiguration {
                cause: format!(
                    "Failed to parse '{}' parameter (perhaps) to a boolean: cannot convert 'perhaps' into a boolean",
                    key
                )
            }
        );
        assert_eq!(vm.img, Some("a".to_string()));
        assert_eq!(vm.kernel, None);
        assert!(!vm.editprotect && !vm.rmprotect && !vm.sharerw);
    }
}

#[test]
fn vm_new_takes_zero_for_a_bad_port() {
    let vm = Vm::new(vec![("qmp_port", "none"), ("mem", "1g")], "v.conf");
    assert_eq!(vm.qmp_port, Some(0));
    assert_eq!(vm.mem, Some("1g".to_string()));
    assert_eq!(vm.state, VmState::Stopped);
    assert_eq!(Vm::new(vec![("qmp_port", "65536")], "v.conf").qmp_port, Some(0));
    assert_eq!(Vm::new(vec![("qmp_port", "65535")], "v.conf").qmp_port, Some(65535));
}

#[test]
fn vm_new_keeps_the_last_of_repeated_settings() {
    let vm = Vm::new(vec![("mem", "1g"), ("mem", "2g")], "v.conf");
    assert_eq!(vm.mem, Some("2g".to_string()));
}

#[test]
fn scenario_bad_cores_in_a_configuration_file() {
    let file = conf_file("/base/etc/vm1.conf", "img=a.img\nkernel=a.kernel\ncores=bad\n", None);
    let vm = vm_from_conf(&file).unwrap();
    assert_eq!(vm.name, "vm1");
    assert!(matches!(vm.state, VmState::InvalidConfiguration { .. }));
    assert_eq!(vm.img, Some("a.img".to_string()));
    assert_eq!(vm.cores, None);
}

#[test]
fn a_bad_configuration_is_not_made_good_by_a_process_id_file() {
    let file = conf_file("/base/etc/vm1.conf", "cores=bad\n", Some("42\n"));
    let vm = vm_from_conf(&file).unwrap();
    assert!(matches!(vm.state, VmState::InvalidConfiguration { .. }));
}

#[test]
fn vm_from_conf_takes_the_state_from_the_process_id_file() {
    let data = "img=a.img\n";
    let state = |pid_file: Option<&str>| -> VmState {
        vm_from_conf(&conf_file("/base/etc/vm.conf", data, pid_file)).unwrap().state
    };
    assert_eq!(state(None), VmState::Stopped);
    assert_eq!(state(Some("1234")), VmState::Running { pid: 1234 });
    assert_eq!(state(Some(" 1234\n")), VmState::Running { pid: 1234 });
    assert_eq!(state(Some("0")), VmState::Running { pid: 0 });
    assert_eq!(state(Some("4294967295")), VmState::Running { pid: 4294967295 });
    assert_eq!(state(Some("4294967296")), VmState::Stopped);
    assert_eq!(state(Some("")), VmState::Stopped);
    assert_eq!(state(Some("12 34")), VmState::Stopped);
    assert_eq!(state(Some("-5")), VmState::Stopped);
    assert_eq!(state(Some("pid")), VmState::Stopped);
}

#[test]
fn vm_from_conf_hands_on_why_the_file_could_not_be_read() {
    let file = ConfFile {
        conf_file: "/base/etc/vm.conf".to_string(),
        data: Err("permission denied".to_string()),
        pid_file: Some("1".to_string()),
    };
    assert_eq!(vm_from_conf(&file), Err("permission denied".to_string()));
}

#[test]
fn get_vms_builds_the_machines_of_the_conf_files() {
    let files = vec![
        conf_file("/base/etc/b.conf", "img=b.img", Some("7")),
        conf_file("/base/etc/notes.txt", "img=x", None),
        conf_file("/base/etc/a.conf", "cores=2", None),
        conf_file("/base/etc/conf", "cores=3", None),
    ];
    let vms = get_vms(&files).unwrap();
    assert_eq!(vms.len(), 2);
    assert_eq!(vms[0].name, "b");
    assert_eq!(vms[0].state, VmState::Running { pid: 7 });
    assert_eq!(vms[1].name, "a");
    assert_eq!(vms[1].cores, Some(2));
    assert_eq!(vms[1].state, VmState::Stopped);
    assert_eq!(get_vms(&Vec::new()), Ok(Vec::new()));
}

#[test]
fn get_vms_fails_with_the_first_file_that_could_not_be_read() {
    let unreadable = |path: &str, why: &str| -> ConfFile {
        ConfFile { conf_file: path.to_string(), data: Err(why.to_string()), pid_file: None }
    };
    let files = vec![
        conf_file("/base/etc/a.conf", "", None),
        unreadable("/base/etc/skipped.txt", "not looked at"),
        unreadable("/base/etc/b.conf", "first"),
        unreadable("/base/etc/c.conf", "second"),
    ];
    assert_eq!(get_vms(&files), Err("first".to_string()));
}

#[test]
fn has_conf_name_looks_at_the_file_name() {
    assert!(has_conf_name("a.conf"));
    assert!(has_conf_name("/x/y/.conf"));
    assert!(!has_conf_name("a.conf/"));
    assert!(!has_conf_name("a.conf/b"));
    assert!(!has_conf_name("a.CONF"));
    assert!(!has_conf_name("conf"));
    assert!(!has_conf_name(""));
}

#[test]
fn vm_name_wants_a_file_right_in_etc() {
    assert_eq!(vm_name("/base/", "/base/etc/vm1.conf"), Some("vm1".to_string()));
    assert_eq!(vm_name("/base/", "/base/etc/.conf"), Some("".to_string()));
    assert_eq!(vm_name("/base/", "/base/etc/sub/vm1.conf"), None);
    assert_eq!(vm_name("/base/", "/base/etc/vm1.txt"), None);
    assert_eq!(vm_name("/base/", "/base/vm1.conf"), None);
    assert_eq!(vm_name("/base/", "/other/etc/vm1.conf"), None);
    assert_eq!(vm_name("/base/", "etc/vm1.conf"), None);
    assert_eq!(vm_name("/base/", "/base//etc/vm1.conf"), None);
}

#[test]
fn vm_name_takes_the_base_directory_with_or_without_a_slash() {
    assert_eq!(vm_name("/base", "/base/etc/vm1.conf"), Some("vm1".to_string()));
    assert_eq!(vm_name("/base/", "/base/etc/vm1.conf"), Some("vm1".to_string()));
    assert_eq!(vm_name("/b", "/b/etc/n.conf"), Some("n".to_string()));
    assert_eq!(vm_name("/base", "/basement/etc/vm1.conf"), None);
    assert_eq!(vm_name("/base", "/baseetc/vm1.conf"), None);
    assert_eq!(vm_name("/base", "/base/etc/sub/vm1.conf"), None);
    assert_eq!(vm_name("/base", "/base"), None);
    assert_eq!(vm_name("", "/etc/vm1.conf"), Some("vm1".to_string()));
    assert_eq!(vm_name("/", "/etc/vm1.conf"), Some("vm1".to_string()));
}

#[test]
fn paths_are_built_below_the_base_directory() {
    assert_eq!(pid_file_path("/base/", "vm1"), "/base/qemu-vm1.pid");
    assert_eq!(conf_file_path("/base/", "vm1"), "/base/etc/vm1.conf");
    assert_eq!(vm_name("/base/", &conf_file_path("/base/", "vm1")), Some("vm1".to_string()));
}

#[test]
fn paths_are_built_with_a_slash_after_the_base_directory() {
    assert_eq!(pid_file_path("/base", "vm1"), "/base/qemu-vm1.pid");
    assert_eq!(conf_file_path("/base", "vm1"), "/base/etc/vm1.conf");
    assert_eq!(pid_file_path("/b", "n"), "/b/qemu-n.pid");
    assert_eq!(conf_file_path("/b", "n"), "/b/etc/n.conf");
    assert_eq!(conf_file_path("", "n"), "/etc/n.conf");
    assert_eq!(conf_file_path("/", "n"), "/etc/n.conf");
    assert_eq!(vm_name("/base", &conf_file_path("/base", "vm1")), Some("vm1".to_string()));
    assert_eq!(dir_with_slash("/base"), "/base/");
    assert_eq!(dir_with_slash("/base/"), "/base/");
    assert_eq!(dir_with_slash("rel/dir"), "rel/dir/");
    assert_eq!(dir_with_slash(""), "/");
    let below = |dir: &str, path: &str| -> Option<String> {
        path_below_chars(dir, path).map(|rest| string_of(&rest))
    };
    assert_eq!(below("/b", "/b/etc/x"), Some("etc/x".to_string()));
    assert_eq!(below("/b/", "/b/etc/x"), Some("etc/x".to_string()));
    assert_eq!(below("/b", "/b/"), Some(String::new()));
    assert_eq!(below("/b", "/b"), None);
    assert_eq!(below("/b", "/bc/etc/x"), None);
    assert_eq!(below("/b", "/a/etc/x"), None);
}

#[test]
fn update_state_follows_the_process_id_file() {
    let with_state = |state: VmState| -> Vm {
        let mut vm = Vm::new(Vec::new(), "v.conf");
        vm.state = state;
        vm
    };
    for state in [VmState::Starting, VmState::Running { pid: 1 }, VmState::Stopped, VmState::Stopping] {
        let mut vm = with_state(state.clone());
        vm.update_state(Some("99\n"));
        assert_eq!(vm.state, VmState::Running { pid: 99 }, "{:?}", state);
        let mut vm = with_state(state.clone());
        vm.update_state(None);
        assert_eq!(vm.state, VmState::Stopped, "{:?}", state);
        let mut vm = with_state(state.clone());
        vm.set_pid(Some("junk"));
        assert_eq!(vm.state, VmState::Stopped, "{:?}", state);
    }
    for state in [
        VmState::InvalidConfiguration { cause: "why".to_string() },
        VmState::StoppingToDelete,
    ] {
        let mut vm = with_state(state.clone());
        vm.update_state(Some("99"));
        assert_eq!(vm.state, state);
        vm.update_state(None);
        assert_eq!(vm.state, state);
        vm.set_pid(Some("5"));
        assert_eq!(vm.state, state);
    }
}

#[test]
fn kill_records_the_outcome_of_the_signal() {
    let mut vm = Vm::new(Vec::new(), "v.conf");
    vm.state = VmState::Running { pid: 4321 };
    assert_eq!(
        vm.kill(-1, "No such process"),
        Err("Failed to kill PID 4321: No such process".to_string())
    );
    assert_eq!(vm.state, VmState::Running { pid: 4321 });
    assert_eq!(vm.kill(0, "Success"), Ok(()));
    assert_eq!(vm.state, VmState::Stopping);
    assert_eq!(vm.kill(-1, "late"), Ok(()));
    assert_eq!(vm.state, VmState::Stopping);
    vm.state = VmState::Stopped;
    assert_eq!(vm.kill(0, ""), Ok(()));
    assert_eq!(vm.state, VmState::Stopped);
}

#[test]
fn is_running_is_true_of_running_alone() {
    let mut vm = Vm::new(Vec::new(), "v.conf");
    assert!(!vm.is_running());
    vm.state = VmState::Running { pid: 1 };
    assert!(vm.is_running());
    for state in [
        VmState::Starting,
        VmState::Stopping,
        VmState::StoppingToDelete,
        VmState::InvalidConfiguration { cause: String::new() },
    ] {
        vm.state = state;
        assert!(!vm.is_running());
    }
}

#[test]
fn state_is_shown_in_words_and_colour() {
    let mut vm = Vm::new(Vec::new(), "v.conf");
    assert_eq!(vm.state(), ("Stopped".to_string(), Color::Indexed(202)));
    vm.state = VmState::Starting;
    assert_eq!(vm.state(), ("Starting...".to_string(), Color::LightGreen));
    vm.state = VmState::Running { pid: 3 };
    assert_eq!(vm.state(), ("Running".to_string(), Color::Indexed(74)));
    vm.state = VmState::Stopping;
    assert_eq!(vm.state(), ("Stopping".to_string(), Color::Magenta));
    vm.state = VmState::StoppingToDelete;
    assert_eq!(vm.state(), ("Stopping".to_string(), Color::Magenta));
    vm.state = VmState::InvalidConfiguration { cause: "x".to_string() };
    assert_eq!(vm.state(), ("Invalid configuration".to_string(), Color::Red));
}
