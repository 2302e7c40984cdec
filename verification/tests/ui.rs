use cmux_beads::app::{App, Health};
use cmux_beads::bd::types::{Bead, Dependency};
use cmux_beads::board::BoardView;
use cmux_beads::form::BeadForm;
use cmux_beads::json::JsonValue;
use cmux_beads::sessions::LivePane;
use cmux_beads::ui::{
    bead_row, detail_lines, empty_message, footer_view, form_lines, form_title, header_view,
    kanban_view, list_entries, pad_right, spaced_status, status_tone, truncate_middle,
    KanbanView, ListEntry, Tone,
};

fn bead(id: &str, title: &str, status: &str, priority: u8) -> Bead {
    Bead {
        id: id.to_string(),
        title: title.to_string(),
        status: status.to_string(),
        priority,
        ..Bead::default()
    }
}

fn board() -> App {
    let mut app = App::new("/home/dev/project".to_string(), false);
    app.beads = vec![
        bead("demo-1", "Add dark-mode toggle", "open", 2),
        bead("demo-2", "Design token pipeline", "in_progress", 1),
        bead("demo-4", "Second open", "open", 3),
    ];
    app.selected = Some("demo-1".to_string());
    app
}

#[test]
fn truncate_middle_keeps_short_strings() {
    assert_eq!(truncate_middle("abc", 8), "abc");
    assert_eq!(truncate_middle("abcdefghij", 7).chars().count(), 7);
    assert!(truncate_middle("abcdefghij", 7).contains('…'));
}

#[test]
fn truncate_middle_keeps_both_ends() {
    assert_eq!(truncate_middle("abcdefghij", 7), "abc…hij");
    assert_eq!(truncate_middle("abcdefghij", 1), "…");
    assert_eq!(truncate_middle("abcdefghij", 0), "");
}

#[test]
fn detail_lists_fields_and_sections() {
    let mut app = board();
    app.beads[0].description = "line one\r\nline two\n".to_string();
    app.beads[0].assignee = Some("cmux:1/12".to_string());
    app.beads[0].parent = Some("e-1".to_string());
    app.beads[0].notes = JsonValue::String("needs review".to_string());
    app.beads[0].dependencies = vec![Dependency {
        depends_on_id: Some("demo-2".to_string()),
        ..Dependency::default()
    }];
    app.live_panes = vec![LivePane {
        workspace_id: 1,
        workspace_name: "alpha".into(),
        screen_id: 10,
        screen_name: "editor".into(),
        pane_id: 12,
        pane_title: "agent".into(),
        active: true,
    }];
    let lines = detail_lines(&app);
    let texts: Vec<&str> = lines.iter().map(|l| l.text.as_str()).collect();
    assert_eq!(
        texts,
        [
            "demo-1",
            "Add dark-mode toggle",
            "",
            "open  P2  task",
            "assignee cmux:1/12",
            "pane alpha > editor > agent",
            "parent e-1",
            "",
            "line one",
            "line two",
            "",
            "dependencies",
            "demo-2",
            "",
            "notes",
            "needs review"
        ]
    );
    assert_eq!(lines[0].tone, Tone::Accent);
    assert!(lines[0].bold);
    assert_eq!(lines[5].tone, Tone::Good);
    app.selected = None;
    let nothing = detail_lines(&app);
    assert_eq!(nothing.len(), 1);
    assert_eq!(nothing[0].text, "nothing selected");
}

#[test]
fn form_lines_mark_the_cursor() {
    let mut form = BeadForm::new(Vec::new());
    form.title = "T".to_string();
    let lines = form_lines(&form);
    assert_eq!(lines.len(), 11);
    assert_eq!(lines[0].text, "  type     task  ← →");
    assert_eq!(lines[2].text, "> title    T█");
    assert_eq!(lines[7].text, "  backlog  no  (space)");
    assert_eq!(lines[9].text, "types: task bug feature epic chore spike story decision");
    assert_eq!(form_title(&form), " bd create ");
    form.edit_id = Some("x".to_string());
    assert_eq!(form_title(&form), " bd update ");
}

#[test]
fn kanban_is_wide_or_narrow_by_width() {
    let mut app = board();
    app.view = BoardView::Kanban;
    match kanban_view(&app, 80) {
        KanbanView::Wide(columns) => {
            assert_eq!(columns[0].title, " open (2) ");
            assert!(columns[0].focused);
            assert_eq!(columns[1].title, " in progress (1) ");
            assert!(!columns[1].focused);
        }
        other => panic!("{other:?}"),
    }
    match kanban_view(&app, 40) {
        KanbanView::Narrow { header, status, cards } => {
            assert_eq!(header, "← open →  2 cards");
            assert_eq!(status, "open");
            assert_eq!(cards, [0, 2]);
        }
        other => panic!("{other:?}"),
    }
    app.beads.clear();
    assert!(matches!(kanban_view(&app, 80), KanbanView::Blank));
}

#[test]
fn rows_and_entries_follow_the_board() {
    let app = board();
    let row = bead_row(&app, &app.beads[0], 20);
    assert!(row.selected);
    assert_eq!(row.lead, "▸P2");
    assert_eq!(row.id, " demo-1");
    assert_eq!(row.flag, " ");
    assert_eq!(row.title, " Add…le");
    let entries = list_entries(&app);
    assert_eq!(
        entries,
        [
            ListEntry::Heading(0),
            ListEntry::Row(0),
            ListEntry::Row(2),
            ListEntry::Heading(1),
            ListEntry::Row(1)
        ]
    );
}

#[test]
fn header_footer_and_empty_message() {
    let mut app = board();
    app.filter = "dark".to_string();
    let header = header_view(&app, 20);
    assert_eq!(header.badge, "solo");
    assert_eq!(header.badge_tone, Tone::Warn);
    assert_eq!(header.mode, " List repo all /dark");
    assert_eq!(header.cwd_line, "process /home/…oject");
    let (text, alert) = footer_view(&app, 40);
    assert_eq!(text, "1/3  K views  A assign  ? help");
    assert!(!alert);
    app.status_msg = "claim failed: nope".to_string();
    assert!(footer_view(&app, 40).1);
    assert_eq!(empty_message(&app), "no issues match filter");
    app.filter.clear();
    app.ready_only = true;
    assert_eq!(empty_message(&app), "nothing ready. R for all, a to create.");
    app.health = Health::BdMissing;
    assert_eq!(header_view(&app, 20).badge, "no bd");
}

#[test]
fn statuses_read_as_words() {
    assert_eq!(spaced_status("in_progress"), "in progress");
    assert_eq!(status_tone("blocked"), Tone::Alert);
    assert_eq!(status_tone("hooked"), Tone::Hooked);
    assert_eq!(status_tone("triage"), Tone::Text);
    assert_eq!(pad_right("j k", 5), "j k  ");
    assert_eq!(pad_right("longer", 3), "longer");
}
