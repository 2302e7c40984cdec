use cmux_beads::app::{jump_index, App, Effect, Health, Overlay, MAX_RECONNECT_MS};
use cmux_beads::bd::types::{Bead, Dependency};
use cmux_beads::bd::{BridgeError, ListMode, Scope};
use cmux_beads::board::BoardView;
use cmux_beads::json::JsonValue;
use cmux_beads::sessions::{LivePane, LiveWorkspace};

fn fixture() -> Vec<Bead> {
    vec![
        Bead {
            id: "demo-1".to_string(),
            title: "Add dark-mode toggle".to_string(),
            description: "Users want a night theme.".to_string(),
            status: "open".to_string(),
            priority: 2,
            issue_type: "feature".to_string(),
            assignee: Some("user@example.com".to_string()),
            labels: JsonValue::Array(vec![JsonValue::String("ui".to_string())]),
            dependencies: vec![Dependency {
                issue_id: Some("demo-1".to_string()),
                depends_on_id: Some("demo-2".to_string()),
                dep_type: Some("blocks".to_string()),
                ..Dependency::default()
            }],
            ..Bead::default()
        },
        Bead {
            id: "demo-2".to_string(),
            title: "Design token pipeline".to_string(),
            status: "in_progress".to_string(),
            priority: 1,
            issue_type: "task".to_string(),
            ..Bead::default()
        },
        Bead {
            id: "demo-3".to_string(),
            title: "Fix flaky login test".to_string(),
            status: "blocked".to_string(),
            priority: 0,
            issue_type: "bug".to_string(),
            ..Bead::default()
        },
    ]
}

fn seeded() -> App {
    let mut app = App::new("/tmp".to_string(), true);
    app.beads = fixture();
    app.selected = Some("demo-1".into());
    app.health = Health::Standalone;
    app.view = BoardView::List;
    app
}

#[test]
fn nav_wraps_inside_visible_rows() {
    let mut app = seeded();
    app.nav_vert(1);
    assert_eq!(app.selected.as_deref(), Some("demo-2"));
    app.nav_vert(i32::MAX / 2);
    assert_eq!(app.selected.as_deref(), Some("demo-3"));
    app.nav_vert(i32::MIN / 2);
    assert_eq!(app.selected.as_deref(), Some("demo-1"));
}

#[test]
fn escape_clears_filter_and_never_quits() {
    let mut app = seeded();
    app.filter = "dark".into();
    app.escape();
    assert!(app.filter.is_empty());
    assert!(!app.should_quit);
    app.overlay = Overlay::Help;
    app.escape();
    assert_eq!(app.overlay, Overlay::Nothing);
    assert!(!app.should_quit);
}

#[test]
fn filter_overlay_narrows_visible() {
    let mut app = seeded();
    app.overlay = Overlay::Filter;
    app.prompt = "flaky".into();
    let rows = app.visible();
    assert_eq!(rows.len(), 1);
    assert_eq!(rows[0].id, "demo-3");
}

#[test]
fn selftest_text_groups_fixture_statuses() {
    let app = seeded();
    let text = app.selftest_text();
    assert!(text.contains("[open]"));
    assert!(text.contains("demo-1"));
    assert!(text.contains("[in_progress]"));
    assert!(text.contains("view List"));
}

#[test]
fn kanban_h_moves_selection_across_columns() {
    let mut app = seeded();
    app.view = BoardView::Kanban;
    app.selected = Some("demo-1".into());
    app.nav_horiz(1);
    assert_eq!(app.selected.as_deref(), Some("demo-2"));
}

#[test]
fn cycle_view_is_in_process() {
    let mut app = seeded();
    app.cycle_view(false);
    assert_eq!(app.view, BoardView::Table);
    app.cycle_view(false);
    assert_eq!(app.view, BoardView::Kanban);
    app.cycle_view(true);
    assert_eq!(app.view, BoardView::Table);
}

#[test]
fn live_summary_is_empty_until_the_socket_tree_arrives() {
    let mut app = seeded();
    assert!(app.live_summary().is_empty());
    app.live_workspaces = vec![LiveWorkspace {
        id: 1,
        name: "alpha".into(),
        active: true,
        pane_count: 2,
    }];
    app.live_panes = vec![LivePane {
        workspace_id: 1,
        workspace_name: "alpha".into(),
        screen_id: 10,
        screen_name: "editor".into(),
        pane_id: 12,
        pane_title: "agent".into(),
        active: true,
    }];
    assert_eq!(app.live_summary(), "1ws 1pn");
    let text = app.selftest_text();
    assert!(text.contains("live workspaces"));
    assert!(text.contains("#1 alpha"));
    assert!(text.contains("cmux:1/12"));
}

#[test]
fn selftest_text_is_exact() {
    let app = seeded();
    assert_eq!(
        app.selftest_text(),
        "cwd /tmp (process)\nscope repo\nview List\nmode list\n\n[open]\n  P2 demo-1 Add dark-mode toggle\n\n[in_progress]\n  P1 demo-2 Design token pipeline\n\n[blocked]\n  P0 demo-3 Fix flaky login test\n"
    );
    let mut missing = seeded();
    missing.health = Health::BdMissing;
    assert!(missing.selftest_text().ends_with("mode list\nbd missing\n"));
    let mut empty = App::new("/w".to_string(), false);
    empty.view = BoardView::Kanban;
    assert!(empty.selftest_text().contains("\n[open]\n\n[in_progress]\n"));
    assert!(empty.selftest_text().ends_with("(empty)\n"));
}

#[test]
fn reload_keeps_selection_by_id() {
    let mut app = seeded();
    app.selected = Some("demo-2".into());
    assert!(app.loaded(Ok(fixture())));
    assert_eq!(app.selected.as_deref(), Some("demo-2"));
    assert_eq!(app.status_msg, "3 issues from bd list --json");
    let mut gone = seeded();
    gone.selected = Some("vanished".into());
    gone.loaded(Ok(fixture()));
    assert_eq!(gone.selected.as_deref(), Some("demo-1"));
    let mut none = seeded();
    assert!(!none.loaded(Err(BridgeError::Missing)));
    assert_eq!(none.health, Health::BdMissing);
    assert!(none.beads.is_empty());
    assert!(none.reload_needs_probe());
    assert!(none.probed(Ok(())));
    assert_eq!(none.health, Health::Standalone);
    assert_eq!(none.status_msg, "bd found");
    let mut failing = seeded();
    failing.loaded(Err(BridgeError::Parse("eof".into())));
    assert_eq!(failing.status_msg, "bd json: eof · cwd /tmp");
    failing.ready_only = true;
    assert_eq!(failing.list_mode(), ListMode::Ready);
}

#[test]
fn claim_and_close_become_bd_writes() {
    let mut app = seeded();
    match app.claim_selected() {
        Effect::Write { label, args } => {
            assert_eq!(label, "claim demo-1");
            assert_eq!(args, ["update", "demo-1", "--claim"]);
        }
        other => panic!("{other:?}"),
    }
    app.open_close_reason();
    assert_eq!(app.overlay, Overlay::CloseReason);
    app.prompt = "   ".into();
    assert!(matches!(app.submit_prompt(), Effect::Idle));
    assert_eq!(app.status_msg, "close needs a reason");
    app.prompt = "  shipped; rm -rf / ".into();
    match app.submit_prompt() {
        Effect::Write { label, args } => {
            assert_eq!(label, "close demo-1");
            assert_eq!(args, ["close", "demo-1", "-r", "shipped; rm -rf /"]);
        }
        other => panic!("{other:?}"),
    }
    assert_eq!(app.overlay, Overlay::Nothing);
    assert!(matches!(app.wrote("close demo-1", Ok(())), Effect::Reload));
    assert_eq!(app.status_msg, "close demo-1 · cwd /tmp");
    assert!(matches!(app.wrote("x", Err(BridgeError::Parse("bad".into()))), Effect::Idle));
    assert_eq!(app.status_msg, "x failed: bd json: bad · cwd /tmp");
}

#[test]
fn form_creates_and_edits_through_bd() {
    let mut app = seeded();
    app.open_create();
    assert_eq!(app.overlay, Overlay::Create);
    assert!(matches!(app.submit_form(), Effect::Idle));
    assert_eq!(app.status_msg, "title is required");
    for ch in " New thing ".chars() {
        app.prompt_push(ch);
    }
    match app.submit_form() {
        Effect::Create { title, args, deferred } => {
            assert_eq!(title, "New thing");
            assert_eq!(args, ["create", "New thing", "-t", "task", "-p", "2"]);
            assert!(!deferred);
        }
        other => panic!("{other:?}"),
    }
    assert!(matches!(app.created("New thing", Ok("bd-9\nextra".into())), Effect::Reload));
    assert_eq!(app.selected.as_deref(), Some("bd-9"));
    app.selected = Some("demo-1".into());
    app.open_edit();
    assert_eq!(app.form.edit_id.as_deref(), Some("demo-1"));
    assert_eq!(app.form.title, "Add dark-mode toggle");
    assert_eq!(app.form.assignee, "user@example.com");
    assert_eq!(app.form.labels, "ui");
    assert_eq!(app.form.type_index, 2);
    match app.submit_form() {
        Effect::Update { id, args, .. } => {
            assert_eq!(id, "demo-1");
            assert_eq!(&args[..4], ["update", "demo-1", "--title", "Add dark-mode toggle"]);
        }
        other => panic!("{other:?}"),
    }
    assert!(matches!(app.updated("demo-1", Ok(())), Effect::Reload));
    assert_eq!(app.status_msg, "updated demo-1");
}

#[test]
fn assign_picks_the_active_live_pane() {
    let mut app = seeded();
    assert!(matches!(app.open_assign(), Effect::RefreshPanes));
    app.assign_ready();
    assert_eq!(app.status_msg, "no live cmux panes. Launch from cmux or set CMUX_TUI_SOCKET.");
    let pane = |id: u64, active: bool| LivePane {
        workspace_id: 1,
        workspace_name: "alpha".into(),
        screen_id: 10,
        screen_name: "editor".into(),
        pane_id: id,
        pane_title: "agent".into(),
        active,
    };
    app.live_panes = vec![pane(11, false), pane(12, true)];
    app.assign_ready();
    assert_eq!(app.overlay, Overlay::Assign);
    assert_eq!(app.assign_index, 1);
    app.nav_vert(1);
    assert_eq!(app.assign_index, 1);
    match app.confirm_assign() {
        Effect::Write { label, args } => {
            assert_eq!(label, "assign demo-1 -> alpha > editor > agent (cmux:1/12)");
            assert_eq!(args, ["update", "demo-1", "-a", "cmux:1/12"]);
        }
        other => panic!("{other:?}"),
    }
}

#[test]
fn scope_switch_rolls_back_on_failure() {
    let mut app = seeded();
    assert!(matches!(app.toggle_scope(), Effect::LoadScope));
    assert_eq!(app.scope, Scope::Global);
    assert!(!app.scope_loaded(Err(BridgeError::Parse("x".into()))));
    assert_eq!(app.scope, Scope::Repo);
    assert_eq!(app.status_msg, "scope global failed (bd json: x); staying on repo");
    app.toggle_scope();
    assert!(app.scope_loaded(Ok(Vec::new())));
    assert_eq!(app.status_msg, "scope: global");
    assert!(app.beads.is_empty());
}

#[test]
fn socket_backoff_doubles_up_to_the_cap() {
    let mut app = seeded();
    app.attached(Err("no surface".into()));
    assert!(app.connected);
    assert_eq!(app.health, Health::Ready);
    assert_eq!(app.status_msg, "cwd unresolved (no surface); using process cwd");
    let mut waits = Vec::new();
    for _ in 0..6 {
        waits.push(app.socket_dropped("eof"));
    }
    assert_eq!(waits, [500, 1000, 2000, 4000, 8000, 8000]);
    assert_eq!(app.reconnect_delay_ms, MAX_RECONNECT_MS);
    assert_eq!(app.health, Health::Reconnecting { message: "cmux socket dropped: eof".into() });
    app.attached(Ok("/work".into()));
    assert_eq!(app.cwd, "/work");
    assert_eq!(app.cwd_source, "pane");
    assert_eq!(app.reconnect_delay_ms, 500);
    assert_eq!(app.cwd_resolved(Ok("/work".into())), None);
    assert_eq!(app.cwd_resolved(Ok("/other".into())), None);
    assert_eq!(app.status_msg, "cwd /other");
    app.standalone();
    assert_eq!(app.cwd_source, "flag");
    assert_eq!(app.tick_plan(true, true, true), (false, true));
    app.connected = false;
    assert_eq!(app.tick_plan(true, true, true), (true, true));
    assert_eq!(app.tick_plan(false, true, false), (false, false));
    app.overlay = Overlay::Note;
    assert_eq!(app.tick_plan(true, true, true), (true, false));
}

#[test]
fn jumps_stay_on_the_board() {
    assert_eq!(jump_index(0, 0, 5), 0);
    assert_eq!(jump_index(1, 3, -8), 0);
    assert_eq!(jump_index(1, 3, 8), 2);
    assert_eq!(jump_index(2, 3, i32::MIN / 2), 0);
    assert_eq!(jump_index(0, 3, i32::MAX / 2), 2);
    assert_eq!(jump_index(9, 3, 0), 2);
}

#[test]
fn detail_toggles_fetch_the_selection() {
    let mut app = seeded();
    match app.toggle_detail_pane() {
        Effect::Show { id, modal } => {
            assert_eq!(id, "demo-1");
            assert!(!modal);
        }
        other => panic!("{other:?}"),
    }
    assert_eq!(app.status_msg, "detail pane on");
    app.shown("demo-1", true, Ok(None));
    assert_eq!(app.status_msg, "demo-1: bd show returned empty");
    app.shown("demo-1", true, Ok(Some(fixture().remove(1))));
    assert_eq!(app.overlay, Overlay::Detail);
    assert_eq!(app.detail.as_ref().map(|b| b.id.as_str()), Some("demo-2"));
    assert!(matches!(app.toggle_detail_pane(), Effect::Idle));
    assert_eq!(app.status_msg, "detail pane off");
}
