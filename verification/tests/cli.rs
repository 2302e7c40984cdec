use cmux_beads::cli::{help_text, parse_args, Command};

fn args(parts: &[&str]) -> Vec<String> {
    parts.iter().map(|part| (*part).to_string()).collect()
}

#[test]
fn empty_args_are_tui() {
    match parse_args(Vec::new()).unwrap() {
        Command::Tui {
            cwd: None,
            selftest: false,
        } => {}
        other => panic!("{other:?}"),
    }
}

#[test]
fn sync_flags() {
    let Command::Sync(opts) = parse_args(args(&["sync", "--workspace", "ws-1", "--dry-run", "--json"])).unwrap()
    else {
        panic!("expected sync");
    };
    assert_eq!(opts.workspace.as_deref(), Some("ws-1"));
    assert!(opts.dry_run);
    assert!(opts.json);
}

#[test]
fn update_requires_write() {
    assert!(parse_args(args(&["update", "lab-1"])).is_err());
    let Command::Update {
        id, status, claim, ..
    } = parse_args(args(&["update", "lab-1", "--status", "in_progress"])).unwrap()
    else {
        panic!("expected update");
    };
    assert_eq!(id, "lab-1");
    assert_eq!(status.as_deref(), Some("in_progress"));
    assert!(!claim);
}

#[test]
fn help_leads_with_the_right_sidebar_tab() {
    let help = help_text();
    assert!(help.contains("cmux right-sidebar set beads"));
    assert!(help.contains("cmux sidebar plugin install"));
    assert!(help.contains("cmux sidebar plugin use cmux-beads"));
    assert!(help.contains("cmux-beads watch"));
    assert!(help.contains("Keyboard-only fallback"));
}

#[test]
fn help_marks_pane_and_left_list_commands_as_not_the_product() {
    let help = help_text();
    let (_, disclaimed) = help
        .split_once("Not the product:")
        .expect("help lists non-product commands");
    for command in [
        "cmux sidebar open beads",
        "cmux sidebar select beads",
        "cmux right-sidebar set custom beads",
    ] {
        assert_eq!(
            help.matches(command).count(),
            1,
            "{command} must appear only under 'Not the product:'"
        );
        assert!(
            disclaimed.contains(command),
            "{command} must be listed under 'Not the product:'"
        );
    }
}

#[test]
fn interval_is_at_least_one_second() {
    let Command::Watch(opts) = parse_args(args(&["watch", "--interval", "0"])).unwrap() else {
        panic!("expected watch");
    };
    assert_eq!(opts.interval, 1);
    let Command::Watch(opts) = parse_args(args(&["watch", "--interval", "+7"])).unwrap() else {
        panic!("expected watch");
    };
    assert_eq!(opts.interval, 7);
    let Command::Status(opts) = parse_args(args(&["status"])).unwrap() else {
        panic!("expected status");
    };
    assert_eq!(opts.interval, 3);
    let err = parse_args(args(&["watch", "--interval", "soon"])).unwrap_err();
    assert_eq!(err.code, 2);
    assert_eq!(err.message, "--interval needs a number of seconds");
}

#[test]
fn refusals_carry_exit_codes_and_messages() {
    let err = parse_args(args(&["frobnicate"])).unwrap_err();
    assert_eq!((err.code, err.message.as_str(), err.help), (2, "unknown command: frobnicate", true));
    let err = parse_args(args(&["install", "now"])).unwrap_err();
    assert_eq!(err.message, "install takes no arguments");
    let err = parse_args(args(&["sync", "--help"])).unwrap_err();
    assert_eq!((err.code, err.message.as_str(), err.help), (0, "", true));
    let err = parse_args(args(&["sync", "--workspace"])).unwrap_err();
    assert_eq!(err.message, "--workspace needs a value");
    let err = parse_args(args(&["update", "a", "b", "--claim"])).unwrap_err();
    assert_eq!(err.message, "unexpected argument: b");
    let err = parse_args(args(&["update", "--claim"])).unwrap_err();
    assert_eq!(err.message, "update needs a bead id");
    let err = parse_args(args(&["--bogus"])).unwrap_err();
    assert_eq!((err.message.as_str(), err.help), ("unknown argument: --bogus", true));
}

#[test]
fn other_commands_parse() {
    assert!(matches!(parse_args(args(&["help"])).unwrap(), Command::Help));
    assert!(matches!(parse_args(args(&["install"])).unwrap(), Command::Install));
    assert!(matches!(parse_args(args(&["--selftest", "--help"])).unwrap(), Command::Help));
    match parse_args(args(&["--cwd", "/tmp/p", "--selftest"])).unwrap() {
        Command::Tui { cwd, selftest } => {
            assert_eq!(cwd.as_deref(), Some("/tmp/p"));
            assert!(selftest);
        }
        other => panic!("{other:?}"),
    }
    match parse_args(args(&["clear", "--workspace", "w", "--dry-run"])).unwrap() {
        Command::Clear { workspace, dry_run, json } => {
            assert_eq!(workspace.as_deref(), Some("w"));
            assert!(dry_run);
            assert!(!json);
        }
        other => panic!("{other:?}"),
    }
    match parse_args(args(&["update", "lab-2", "-s", "done", "--claim", "--cwd", "/r"])).unwrap() {
        Command::Update { id, status, claim, cwd, workspace } => {
            assert_eq!(id, "lab-2");
            assert_eq!(status.as_deref(), Some("done"));
            assert!(claim);
            assert_eq!(cwd.as_deref(), Some("/r"));
            assert!(workspace.is_none());
        }
        other => panic!("{other:?}"),
    }
}
