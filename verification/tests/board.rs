use cmux_beads::bd::types::{Bead, Dependency};
use cmux_beads::board::{
    adjacent_status, index_of, kanban_columns, matches_filter, status_choices, status_rank,
    visible_beads, BoardView, SortKey,
};
use cmux_beads::json::JsonValue;

fn fixture() -> Vec<Bead> {
    vec![
        Bead {
            id: "demo-1".to_string(),
            title: "Add dark-mode toggle".to_string(),
            description: "Users want a night theme.".to_string(),
            status: "open".to_string(),
            priority: 2,
            issue_type: "feature".to_string(),
            assignee: Some("user@example.com".to_string()),
            labels: JsonValue::Array(vec![JsonValue::String("ui".to_string())]),
            dependencies: vec![Dependency {
                issue_id: Some("demo-1".to_string()),
                depends_on_id: Some("demo-2".to_string()),
                dep_type: Some("blocks".to_string()),
                ..Dependency::default()
            }],
            ..Bead::default()
        },
        Bead {
            id: "demo-2".to_string(),
            title: "Design token pipeline".to_string(),
            status: "in_progress".to_string(),
            priority: 1,
            issue_type: "task".to_string(),
            ..Bead::default()
        },
        Bead {
            id: "demo-3".to_string(),
            title: "Fix flaky login test".to_string(),
            status: "blocked".to_string(),
            priority: 0,
            issue_type: "bug".to_string(),
            ..Bead::default()
        },
    ]
}

#[test]
fn empty_filter_keeps_all_in_status_order() {
    let beads = fixture();
    let rows = visible_beads(&beads, "", SortKey::Status);
    assert_eq!(
        rows.iter().map(|bead| bead.id.as_str()).collect::<Vec<_>>(),
        ["demo-1", "demo-2", "demo-3"]
    );
}

#[test]
fn filter_is_case_insensitive_over_id_and_title() {
    let beads = fixture();
    let rows = visible_beads(&beads, "DARK", SortKey::Status);
    assert_eq!(rows.len(), 1);
    assert_eq!(rows[0].id, "demo-1");
    assert!(visible_beads(&beads, "demo-3", SortKey::Status).len() == 1);
    assert!(visible_beads(&beads, "no-such-bead", SortKey::Status).is_empty());
}

#[test]
fn index_of_tracks_id_across_filter() {
    let beads = fixture();
    let rows = visible_beads(&beads, "", SortKey::Status);
    assert_eq!(index_of(&rows, "demo-2"), Some(1));
    assert_eq!(index_of(&rows, "missing"), None);
}

#[test]
fn status_choices_include_known_and_custom() {
    let mut beads = fixture();
    beads.push(Bead {
        id: "x".to_string(),
        status: "triage".to_string(),
        ..Bead::default()
    });
    let choices = status_choices(&beads);
    assert!(choices.contains(&"open".to_string()));
    assert!(choices.contains(&"triage".to_string()));
    assert_eq!(choices[0], "open");
}

#[test]
fn kanban_columns_are_statuses() {
    let beads = fixture();
    let columns = kanban_columns(&beads, "", false);
    let open = columns.iter().find(|(status, _)| status == "open").unwrap();
    assert_eq!(open.1[0].id, "demo-1");
    let next = adjacent_status(&columns, "open", 1).unwrap();
    assert_eq!(next, "in_progress");
}

#[test]
fn view_cycle_is_closed() {
    assert_eq!(BoardView::List.next(), BoardView::Table);
    assert_eq!(BoardView::Table.next(), BoardView::Kanban);
    assert_eq!(BoardView::Kanban.next(), BoardView::List);
    assert_eq!(BoardView::List.prev(), BoardView::Kanban);
}

#[test]
fn view_cycle_round_trips() {
    for view in [BoardView::List, BoardView::Table, BoardView::Kanban] {
        assert_eq!(view.next().prev(), view);
        assert_eq!(view.next().next().next(), view);
    }
    assert_eq!(BoardView::Table.title(), "Table");
}

#[test]
fn sorts_by_priority_and_status_rank() {
    let beads = fixture();
    let rows = visible_beads(&beads, "", SortKey::Priority);
    assert_eq!(
        rows.iter().map(|bead| bead.id.as_str()).collect::<Vec<_>>(),
        ["demo-3", "demo-2", "demo-1"]
    );
    assert_eq!(status_rank("open"), (0, String::new()));
    assert_eq!(status_rank("closed"), (6, String::new()));
    assert_eq!(status_rank("triage"), (7, "triage".to_string()));
    assert_eq!(SortKey::Status.next(), SortKey::Priority);
    assert_eq!(SortKey::Changed.label(), "changed");
}

#[test]
fn filter_matches_labels_and_blank_queries() {
    let beads = fixture();
    assert!(matches_filter(&beads[0], "  "));
    assert!(matches_filter(&beads[0], "UI"));
    assert!(matches_filter(&beads[0], " user "));
    assert!(!matches_filter(&beads[1], "ui"));
}

#[test]
fn kanban_hides_closed_unless_asked_and_clamps_moves() {
    let mut beads = fixture();
    beads.push(Bead {
        id: "demo-4".to_string(),
        status: "closed".to_string(),
        ..Bead::default()
    });
    let hidden = kanban_columns(&beads, "", false);
    assert!(hidden.iter().all(|(status, _)| status != "closed"));
    let shown = kanban_columns(&beads, "", true);
    let closed = shown.iter().find(|(status, _)| status == "closed").unwrap();
    assert_eq!(closed.1.len(), 1);
    assert_eq!(adjacent_status(&hidden, "open", -3).unwrap(), "open");
    assert_eq!(adjacent_status(&hidden, "hooked", 9).unwrap(), "hooked");
    assert!(adjacent_status(&hidden, "nope", 1).is_none());
}

#[test]
fn status_choices_put_custom_statuses_in_name_order_once() {
    let status = |id: &str, s: &str| Bead {
        id: id.to_string(),
        status: s.to_string(),
        ..Bead::default()
    };
    let beads = vec![
        status("a", "zeta"),
        status("b", "alpha"),
        status("c", "zeta"),
        status("d", ""),
        status("e", "open"),
    ];
    let choices = status_choices(&beads);
    assert_eq!(choices.len(), 9);
    assert_eq!(choices[0], "open");
    assert_eq!(choices[7..], ["alpha", "zeta"]);
}
