use cmux_beads::app::{App, Effect, Overlay};
use cmux_beads::board::BoardView;
use cmux_beads::keys::{handle_key, help_lines, KeyCode, KeyPress, Modifiers};

fn press(app: &mut App, code: KeyCode) -> bool {
    matches!(handle_key(app, KeyPress::new(code, Modifiers::none())), Effect::Quit)
}

fn ctrl(app: &mut App, ch: char) -> bool {
    matches!(handle_key(app, KeyPress::new(KeyCode::Char(ch), Modifiers::control())), Effect::Quit)
}

fn fresh() -> App {
    App::new("/tmp".to_string(), true)
}

#[test]
fn ctrl_c_quits_instead_of_claiming() {
    let mut app = fresh();
    app.selected = Some("demo-1".into());
    assert!(ctrl(&mut app, 'c'));
    assert!(app.should_quit);
}

#[test]
fn plain_c_does_not_quit() {
    let mut app = fresh();
    assert!(!press(&mut app, KeyCode::Char('c')));
    assert!(!app.should_quit);
}

#[test]
fn esc_never_quits() {
    let mut app = fresh();
    app.filter = "x".into();
    assert!(!press(&mut app, KeyCode::Esc));
    assert!(!app.should_quit);
    assert!(app.filter.is_empty());
}

#[test]
fn g_then_x_does_not_open_close() {
    let mut app = fresh();
    press(&mut app, KeyCode::Char('g'));
    assert!(app.g_pending);
    press(&mut app, KeyCode::Char('x'));
    assert!(!app.g_pending);
    assert_eq!(app.overlay, Overlay::Nothing);
}

#[test]
fn tab_cycles_views() {
    let mut app = fresh();
    press(&mut app, KeyCode::Tab);
    assert_eq!(app.view, BoardView::Table);
    press(&mut app, KeyCode::Tab);
    assert_eq!(app.view, BoardView::Kanban);
}

#[test]
fn q_quits_only_from_the_bare_board() {
    let mut app = fresh();
    app.overlay = Overlay::Filter;
    assert!(!press(&mut app, KeyCode::Char('q')));
    assert_eq!(app.prompt, "q");
    assert!(!press(&mut app, KeyCode::Esc));
    assert_eq!(app.overlay, Overlay::Nothing);
    assert!(press(&mut app, KeyCode::Char('q')));
    assert!(app.should_quit);
}

#[test]
fn prompt_keys_edit_and_submit_the_filter() {
    let mut app = fresh();
    press(&mut app, KeyCode::Char('/'));
    assert_eq!(app.overlay, Overlay::Filter);
    press(&mut app, KeyCode::Char('a'));
    press(&mut app, KeyCode::Char('b'));
    press(&mut app, KeyCode::Backspace);
    let ctrl_a = KeyPress::new(KeyCode::Char('z'), Modifiers::control());
    assert!(matches!(handle_key(&mut app, ctrl_a), Effect::Idle));
    assert_eq!(app.prompt, "a");
    press(&mut app, KeyCode::Enter);
    assert_eq!(app.filter, "a");
    assert_eq!(app.overlay, Overlay::Nothing);
}

#[test]
fn status_picker_writes_through_bd() {
    let mut app = fresh();
    app.selected = Some("bd-1".into());
    press(&mut app, KeyCode::Char('s'));
    assert_eq!(app.overlay, Overlay::StatusPick);
    match handle_key(&mut app, KeyPress::new(KeyCode::Char('2'), Modifiers::none())) {
        Effect::Write { label, args } => {
            assert_eq!(label, "status bd-1 -> in_progress");
            assert_eq!(args, ["update", "bd-1", "-s", "in_progress"]);
        }
        other => panic!("{other:?}"),
    }
    assert_eq!(app.overlay, Overlay::Nothing);
    press(&mut app, KeyCode::Char('p'));
    match handle_key(&mut app, KeyPress::new(KeyCode::Char('0'), Modifiers::none())) {
        Effect::Write { args, .. } => assert_eq!(args, ["update", "bd-1", "-p", "0"]),
        other => panic!("{other:?}"),
    }
}

#[test]
fn refresh_key_clears_the_status_line() {
    let mut app = fresh();
    app.status_msg = "old".into();
    assert!(matches!(handle_key(&mut app, KeyPress::new(KeyCode::Char('r'), Modifiers::none())), Effect::Reload));
    assert!(app.status_msg.is_empty());
}

#[test]
fn help_lists_every_binding() {
    let rows = help_lines();
    assert_eq!(rows.len(), 26);
    assert_eq!(rows[0], ("K / Tab", "cycle view (List / Table / Kanban)"));
    assert_eq!(rows[25], ("Esc", "back out a layer (never quits)"));
}
