use cmux_beads::bd::types::Bead;
use cmux_beads::project::{
    clear_status_argv, count_for, count_statuses, is_safe_id, list_status_argv,
    parse_identify_workspace, parse_status_keys, pill_value, pills_from_beads, plan_sync,
    progress_fraction, resolve_workspace, set_status_argv, stale_keys, status_key, style_for,
    StatusPill, MAX_PILLS,
};

fn item(id: &str, title: &str, status: &str, assignee: Option<&str>, description: &str) -> Bead {
    Bead {
        id: id.to_string(),
        title: title.to_string(),
        status: status.to_string(),
        assignee: assignee.map(str::to_string),
        description: description.to_string(),
        priority: 2,
        issue_type: "task".to_string(),
        ..Bead::default()
    }
}

fn lab() -> Vec<Bead> {
    vec![
        item("lab-1", "Ship onboarding", "open", Some("dev@example.com"), "see /Users/dev/notes.md"),
        item("lab-2", "Fix login timeout", "in_progress", Some("cmux:1/12"), ""),
        item("lab-3", "Write release notes", "open", None, ""),
        item("lab-4", "Unblock CI runner", "blocked", Some("ops@example.com"), ""),
        item("lab-5", "Migrate config", "deferred", None, ""),
        item("lab-6", "Old cleanup", "closed", None, ""),
    ]
}

#[test]
fn status_key_accepts_safe_ids() {
    assert_eq!(status_key("lab-1").as_deref(), Some("bead:lab-1"));
    assert_eq!(status_key("bd.2_x").as_deref(), Some("bead:bd.2_x"));
    assert!(status_key("").is_none());
    assert!(status_key("-bad").is_none());
    assert!(status_key("has space").is_none());
    assert!(status_key("bead:nested").is_none());
    assert!(status_key("rm;id").is_none());
}

#[test]
fn style_for_known_statuses() {
    assert_eq!(style_for("in_progress").icon, "hammer");
    assert_eq!(style_for("blocked").color, "#ff3b30");
    assert_eq!(style_for("open").icon, "circle");
    assert!(style_for("blocked").priority > style_for("open").priority);
}

#[test]
fn pill_value_is_status_and_title_without_pii() {
    let beads = lab();
    let ship = beads.iter().find(|bead| bead.id == "lab-1").unwrap();
    assert_eq!(pill_value(ship), "open · Ship onboarding");
    let login = beads.iter().find(|bead| bead.id == "lab-2").unwrap();
    assert_eq!(pill_value(login), "in_progress · Fix login timeout");
    for bead in &beads {
        let value = pill_value(bead);
        assert!(!value.contains('@'), "pills must not carry emails");
        assert!(!value.contains("/Users/"), "pills must not carry home paths");
        assert!(!value.contains("cmux:"), "assignee stays off the pill");
    }
}

#[test]
fn pills_cap_and_skip_closed() {
    let mut beads = lab();
    beads.push(Bead {
        id: "lab-closed".into(),
        title: "Done item".into(),
        status: "closed".into(),
        ..Bead::default()
    });
    let open = pills_from_beads(&beads, false);
    assert!(open.iter().all(|pill| !pill.key.ends_with("lab-closed")));
    let with_closed = pills_from_beads(&beads, true);
    assert!(with_closed.iter().any(|pill| pill.key == "bead:lab-closed"));

    let many: Vec<Bead> = (0..40)
        .map(|i| Bead {
            id: format!("n{i}"),
            title: format!("Item {i}"),
            status: "open".into(),
            ..Bead::default()
        })
        .collect();
    assert_eq!(pills_from_beads(&many, false).len(), MAX_PILLS);
}

#[test]
fn set_status_argv_keeps_value_one_element() {
    let pill = StatusPill {
        key: "bead:lab-2".into(),
        value: "in_progress · Fix login timeout".into(),
        icon: "hammer".into(),
        color: "#ff9500".into(),
        priority: 80,
    };
    let args = set_status_argv(&pill);
    assert_eq!(
        args,
        [
            "set-status",
            "bead:lab-2",
            "in_progress · Fix login timeout",
            "--icon",
            "hammer",
            "--color",
            "#ff9500",
            "--priority",
            "80"
        ]
    );
    assert_eq!(clear_status_argv("bead:lab-2"), ["clear-status", "bead:lab-2"]);
}

#[test]
fn parse_status_keys_keeps_bead_prefix_only() {
    let raw = "\
bead:lab-1=open · Ship onboarding
herdr:p1=working
bead:lab-2=in_progress · Fix login timeout
not-a-key
bead:bad id=no
";
    assert_eq!(parse_status_keys(raw), ["bead:lab-1", "bead:lab-2"]);
}

#[test]
fn stale_keys_drop_missing_beads_only() {
    let stale = stale_keys(
        &["bead:lab-1".into(), "bead:gone".into(), "herdr:x".into()],
        &["bead:lab-1".into()],
    );
    assert_eq!(stale, ["bead:gone"]);
}

#[test]
fn plan_sync_matches_lab_fixture() {
    let beads = lab();
    let plan = plan_sync(&beads, &["bead:old".into()], false);
    assert_eq!(plan.apply.len(), 5);
    assert_eq!(plan.stale, ["bead:old"]);
    assert_eq!(count_for(&plan.counts, "open"), Some(2));
    assert_eq!(count_for(&plan.counts, "in_progress"), Some(1));
    let (in_progress, active, label) = progress_fraction(&plan.counts).unwrap();
    let value = f64::from(in_progress) / f64::from(active);
    assert!((value - 0.2).abs() < f64::EPSILON);
    assert!(label.contains("1/5"));
}

#[test]
fn resolve_workspace_does_not_guess() {
    assert_eq!(resolve_workspace(Some("ws-1"), Some("env")), Some("ws-1".into()));
    assert_eq!(resolve_workspace(None, Some("env-ws")), Some("env-ws".into()));
    assert_eq!(resolve_workspace(None, None), None);
    assert_eq!(resolve_workspace(Some("  "), Some("")), None);
}

#[test]
fn parse_identify_workspace_reads_caller() {
    let raw = r#"{"caller":{"workspace_id":"ws-a"},"focused":{"workspace_ref":"ws-b"}}"#;
    assert_eq!(parse_identify_workspace(raw).as_deref(), Some("ws-a"));
    assert_eq!(
        parse_identify_workspace(r#"{"workspace_ref":"ws-c"}"#).as_deref(),
        Some("ws-c")
    );
    assert!(parse_identify_workspace("not-json").is_none());
}

#[test]
fn counts_are_sorted_and_progress_needs_active_pills() {
    let pills = pills_from_beads(&lab(), true);
    let counts = count_statuses(&pills);
    let names: Vec<&str> = counts.iter().map(|(s, _)| s.as_str()).collect();
    assert_eq!(names, ["blocked", "closed", "deferred", "in_progress", "open"]);
    assert_eq!(count_for(&counts, "closed"), Some(1));
    assert_eq!(count_for(&counts, "pinned"), None);
    let (n, d, label) = progress_fraction(&counts).unwrap();
    assert_eq!((n, d), (1, 5));
    assert_eq!(label, "beads 1/5 in progress");
    assert!(progress_fraction(&Vec::new()).is_none());
    assert_eq!(list_status_argv(), ["list-status"]);
}

#[test]
fn long_pill_values_are_cut() {
    let long = item("x-1", &"t".repeat(80), "open", None, "");
    let value = pill_value(&long);
    assert_eq!(value.chars().count(), 48);
    assert!(value.ends_with('…'));
    assert!(is_safe_id("a.b_c-1"));
    assert!(!is_safe_id("_x"));
}
