//! Key dispatch of the keyboard-only TUI. Sidebar plugins receive PTY
//! bytes; cmux owns the prefix chord. `Esc` never quits. `Ctrl-C` and `q`
//! exit cleanly.

use vstd::prelude::*;

use crate::app::{
    assign_confirmed, assign_opened, backspaced, claimed, closed_toggled, create_opened, cycle_step,
    detail_opened, detail_pane_toggled, edit_opened, escape_spec, filter_opened, help_opened,
    move_toggled, nav_horiz_spec, picker_opened, priority_picked, prompt_opened, pushed,
    ready_toggled, scope_toggled, sort_cycled, status_picked, submit_form_spec,
    submit_prompt_spec, vert_step, App, Effect, Overlay,
};
use crate::form::BeadForm;

verus! {

/// A key, as the terminal reports it.
#[derive(Debug, Clone, Copy, PartialEq, Eq, Structural)]
pub enum KeyCode {
    Char(char),
    Esc,
    Enter,
    Tab,
    BackTab,
    Backspace,
    Up,
    Down,
    Left,
    Right,
    Home,
    End,
    /// Any other key (function keys, Insert, Delete, ...).
    Other,
}

/// The modifiers held with a key. `other` stands for super, hyper and meta.
#[derive(Debug, Clone, Copy, PartialEq, Eq, Structural)]
pub struct Modifiers {
    pub shift: bool,
    pub control: bool,
    pub alt: bool,
    pub other: bool,
}

impl Modifiers {
    /// No modifier held.
    pub fn none() -> (r: Modifiers)
        ensures
            !r.shift && !r.control && !r.alt && !r.other,
    {
        Modifiers { shift: false, control: false, alt: false, other: false }
    }

    /// Control held alone.
    pub fn control() -> (r: Modifiers)
        ensures
            !r.shift && r.control && !r.alt && !r.other,
    {
        Modifiers { shift: false, control: true, alt: false, other: false }
    }

    /// No modifier, or Shift alone: what a typed character may carry.
    pub open spec fn plain_or_shift(self) -> bool {
        !self.control && !self.alt && !self.other
    }
}

/// One key press.
#[derive(Debug, Clone, Copy, PartialEq, Eq, Structural)]
pub struct KeyPress {
    pub code: KeyCode,
    pub modifiers: Modifiers,
}

impl KeyPress {
    pub fn new(code: KeyCode, modifiers: Modifiers) -> (r: KeyPress)
        ensures
            r.code == code && r.modifiers == modifiers,
    {
        KeyPress { code, modifiers }
    }
}

/// Whether `key` is the character `c`.
pub open spec fn is_char(key: KeyPress, c: char) -> bool {
    key.code == KeyCode::Char(c)
}

/// `Ctrl-C`: it quits from anywhere.
pub open spec fn ctrl_c(key: KeyPress) -> bool {
    key.modifiers.control && is_char(key, 'c')
}

/// Whether the open layer takes typed text.
pub open spec fn in_prompt(a: App) -> bool {
    a.overlay == Overlay::Filter || a.overlay == Overlay::CloseReason || a.overlay == Overlay::Note
        || a.overlay == Overlay::Comment || a.overlay == Overlay::Create
}

/// The form with its cursor on the field `field`.
pub open spec fn form_at(a: App, field: int) -> App {
    App { form: BeadForm { field: field as u8, ..a.form }, ..a }
}

/// A key while a prompt or the form is open.
pub open spec fn prompt_key(a: App, key: KeyPress, b: App, r: Effect) -> bool {
    let create = a.overlay == Overlay::Create;
    if key.code == KeyCode::Esc {
        escape_spec(a, b) && r is Idle
    } else if key.code == KeyCode::Enter {
        if create {
            submit_form_spec(a, b, r)
        } else {
            submit_prompt_spec(a, b, r)
        }
    } else if key.code == KeyCode::Backspace {
        backspaced(a, b) && r is Idle
    } else if create && (key.code == KeyCode::Tab || key.code == KeyCode::Down) {
        b == form_at(a, (a.form.field + 1) % 8) && r is Idle
    } else if create && (key.code == KeyCode::BackTab || key.code == KeyCode::Up) {
        b == form_at(a, (a.form.field + 7) % 8) && r is Idle
    } else if create && key.code == KeyCode::Left {
        b == (App { form: a.form.nudged(-1i32), ..a }) && r is Idle
    } else if create && key.code == KeyCode::Right {
        b == (App { form: a.form.nudged(1i32), ..a }) && r is Idle
    } else if key.code is Char && key.modifiers.plain_or_shift() {
        pushed(a, b, key.code->Char_0) && r is Idle
    } else {
        b == a && r is Idle
    }
}

/// A key while the assign picker is open.
pub open spec fn assign_key(a: App, key: KeyPress, b: App, r: Effect) -> bool {
    if key.code == KeyCode::Esc {
        escape_spec(a, b) && r is Idle
    } else if key.code == KeyCode::Enter {
        assign_confirmed(a, b, r)
    } else if is_char(key, 'j') || key.code == KeyCode::Down {
        vert_step(a, b, 1) && r is Idle
    } else if is_char(key, 'k') || key.code == KeyCode::Up {
        vert_step(a, b, -1) && r is Idle
    } else {
        b == a && r is Idle
    }
}

/// A key on the bare board (no control, no pending `g`).
pub open spec fn board_key(a: App, key: KeyPress, b: App, r: Effect) -> bool {
    let idle = r is Idle;
    if is_char(key, 'q') {
        b == (App { should_quit: true, ..a }) && r is Quit
    } else if key.code == KeyCode::Esc {
        escape_spec(a, b) && idle
    } else if is_char(key, '?') {
        help_opened(a, b) && idle
    } else if is_char(key, 'K') || key.code == KeyCode::Tab {
        cycle_step(a, b, false) && idle
    } else if key.code == KeyCode::BackTab {
        cycle_step(a, b, true) && idle
    } else if is_char(key, 'j') || key.code == KeyCode::Down {
        vert_step(a, b, 1) && idle
    } else if is_char(key, 'k') || key.code == KeyCode::Up {
        vert_step(a, b, -1) && idle
    } else if is_char(key, 'h') || key.code == KeyCode::Left {
        nav_horiz_spec(a, b, -1, r)
    } else if is_char(key, 'l') || key.code == KeyCode::Right {
        nav_horiz_spec(a, b, 1, r)
    } else if is_char(key, 'G') || key.code == KeyCode::End {
        vert_step(a, b, 1073741823) && idle
    } else if key.code == KeyCode::Home {
        vert_step(a, b, -1073741824) && idle
    } else if is_char(key, 'g') {
        b == (App { g_pending: true, ..a }) && idle
    } else if key.code == KeyCode::Enter {
        detail_opened(a, b, r)
    } else if is_char(key, 'd') {
        detail_pane_toggled(a, b, r)
    } else if is_char(key, 'c') {
        claimed(a, b, r)
    } else if is_char(key, 'x') {
        prompt_opened(a, b, Overlay::CloseReason) && idle
    } else if is_char(key, 's') {
        picker_opened(a, b, Overlay::StatusPick) && idle
    } else if is_char(key, 'p') {
        picker_opened(a, b, Overlay::PriorityPick) && idle
    } else if is_char(key, 'a') {
        create_opened(a, b) && idle
    } else if is_char(key, 'e') {
        edit_opened(a, b) && idle
    } else if is_char(key, 'n') {
        prompt_opened(a, b, Overlay::Note) && idle
    } else if is_char(key, 'm') {
        prompt_opened(a, b, Overlay::Comment) && idle
    } else if is_char(key, 'A') {
        assign_opened(a, b, r)
    } else if is_char(key, 'v') {
        move_toggled(a, b) && idle
    } else if is_char(key, '/') {
        filter_opened(a, b) && idle
    } else if is_char(key, 'R') {
        ready_toggled(a, b, r)
    } else if is_char(key, 'C') {
        closed_toggled(a, b, r)
    } else if is_char(key, 'S') {
        scope_toggled(a, b, r)
    } else if is_char(key, 'o') {
        sort_cycled(a, b) && idle
    } else if is_char(key, 'r') {
        b == (App { status_msg: b.status_msg, ..a }) && b.status_msg@.len() == 0 && r is Reload
    } else {
        b == a && idle
    }
}

/// What one key does to the board `a`, leaving `b` and the work `r`.
pub open spec fn key_spec(a: App, key: KeyPress, b: App, r: Effect) -> bool {
    let unpended = App { g_pending: false, ..a };
    if ctrl_c(key) {
        b == (App { should_quit: true, ..a }) && r is Quit
    } else if in_prompt(a) {
        prompt_key(a, key, b, r)
    } else if a.overlay == Overlay::Assign {
        assign_key(a, key, b, r)
    } else if a.overlay == Overlay::Help || a.overlay == Overlay::Detail {
        escape_spec(a, b) && r is Idle
    } else if a.overlay == Overlay::StatusPick {
        if key.code is Char && '1' <= key.code->Char_0 <= '9' {
            status_picked(a, b, (key.code->Char_0 as int - '1' as int) as usize, r)
        } else {
            escape_spec(a, b) && r is Idle
        }
    } else if a.overlay == Overlay::PriorityPick {
        if key.code is Char && '0' <= key.code->Char_0 <= '4' {
            priority_picked(a, b, (key.code->Char_0 as int - '0' as int) as u8, r)
        } else {
            escape_spec(a, b) && r is Idle
        }
    } else if key.modifiers.control {
        r is Idle && if is_char(key, 'd') {
            vert_step(unpended, b, 8)
        } else if is_char(key, 'u') {
            vert_step(unpended, b, -8)
        } else if is_char(key, 'f') {
            vert_step(unpended, b, 16)
        } else if is_char(key, 'b') {
            vert_step(unpended, b, -16)
        } else {
            b == unpended
        }
    } else if a.g_pending {
        r is Idle && if is_char(key, 'g') {
            vert_step(unpended, b, -1073741824)
        } else {
            b == unpended
        }
    } else {
        board_key(a, key, b, r)
    }
}

/// What a key needs: in the create form, the field arithmetic of Tab /
/// Down, Shift-Tab / Up, Left and Right stays in range. Every other key, and
/// every key outside the form, is always accepted.
pub open spec fn key_ok(a: App, key: KeyPress) -> bool {
    a.overlay == Overlay::Create && !ctrl_c(key) ==> {
        &&& (key.code == KeyCode::Tab || key.code == KeyCode::Down) ==> a.form.field < 255
        &&& (key.code == KeyCode::BackTab || key.code == KeyCode::Up) ==> a.form.field <= 247
        &&& key.code == KeyCode::Left ==> a.form.nudge_ok(-1i32)
        &&& key.code == KeyCode::Right ==> a.form.nudge_ok(1i32)
    }
}

/// Whether `handle_key` can take `key` in the state `app`.
pub fn accepts_key(app: &App, key: &KeyPress) -> (r: bool)
    ensures
        r == key_ok(*app, *key),
{
    if app.overlay != Overlay::Create || (key.modifiers.control && key.code == KeyCode::Char('c')) {
        return true;
    }
    let code = key.code;
    if code == KeyCode::Tab || code == KeyCode::Down {
        app.form.field < 255
    } else if code == KeyCode::BackTab || code == KeyCode::Up {
        app.form.field <= 247
    } else if code == KeyCode::Left {
        app.form.can_nudge(-1)
    } else if code == KeyCode::Right {
        app.form.can_nudge(1)
    } else {
        true
    }
}

/// The help rows, by their characters.
pub open spec fn help_rows() -> Seq<(Seq<char>, Seq<char>)> {
    seq![
        ("K / Tab"@, "cycle view (List / Table / Kanban)"@),
        ("Shift+Tab"@, "cycle view backwards"@),
        ("j k ↑ ↓"@, "move selection"@),
        ("h l ← →"@, "kanban: column (or retag in move mode)"@),
        ("gg / G"@, "first / last"@),
        ("v"@, "move mode: h/l writes bd update -s"@),
        ("Enter"@, "detail modal (bd show)"@),
        ("d"@, "toggle inline detail pane"@),
        ("c"@, "claim (bd update --claim)"@),
        ("x"@, "close (bd close -r, prompts)"@),
        ("s"@, "set status, then 1-9"@),
        ("p"@, "set priority, then 0-4"@),
        ("a"@, "create bead"@),
        ("e"@, "edit selected bead"@),
        ("n"@, "add note (bd note)"@),
        ("m"@, "add comment (bd comment)"@),
        ("A"@, "assign to a live cmux pane"@),
        ("/"@, "filter. Esc clears"@),
        ("R"@, "toggle ready (bd ready --json)"@),
        ("C"@, "show or hide closed"@),
        ("S"@, "scope: repo ↔ global"@),
        ("o"@, "table: cycle sort"@),
        ("r"@, "refresh from bd"@),
        ("?"@, "this help"@),
        ("q / Ctrl+C"@, "quit"@),
        ("Esc"@, "back out a layer (never quits)"@),
    ]
}

/// Help rows shown on `?`.
pub fn help_lines() -> (r: Vec<(&'static str, &'static str)>)
    ensures
        r@.map_values(|row: (&'static str, &'static str)| (row.0@, row.1@)) == help_rows(),
{
    let r = vec![
        ("K / Tab", "cycle view (List / Table / Kanban)"),
        ("Shift+Tab", "cycle view backwards"),
        ("j k ↑ ↓", "move selection"),
        ("h l ← →", "kanban: column (or retag in move mode)"),
        ("gg / G", "first / last"),
        ("v", "move mode: h/l writes bd update -s"),
        ("Enter", "detail modal (bd show)"),
        ("d", "toggle inline detail pane"),
        ("c", "claim (bd update --claim)"),
        ("x", "close (bd close -r, prompts)"),
        ("s", "set status, then 1-9"),
        ("p", "set priority, then 0-4"),
        ("a", "create bead"),
        ("e", "edit selected bead"),
        ("n", "add note (bd note)"),
        ("m", "add comment (bd comment)"),
        ("A", "assign to a live cmux pane"),
        ("/", "filter. Esc clears"),
        ("R", "toggle ready (bd ready --json)"),
        ("C", "show or hide closed"),
        ("S", "scope: repo ↔ global"),
        ("o", "table: cycle sort"),
        ("r", "refresh from bd"),
        ("?", "this help"),
        ("q / Ctrl+C", "quit"),
        ("Esc", "back out a layer (never quits)"),
    ];
    assert(r@.map_values(|row: (&'static str, &'static str)| (row.0@, row.1@)) =~= help_rows());
    r
}


/// Handle one key. `Effect::Quit` asks the event loop to exit.
pub fn handle_key(app: &mut App, key: KeyPress) -> (r: Effect)
    requires
        key_ok(*old(app), key),
    ensures
        key_spec(*old(app), key, *final(app), r),
{
    if key.modifiers.control && key.code == KeyCode::Char('c') {
        app.should_quit = true;
        return Effect::Quit;
    }
    match app.overlay {
        Overlay::Filter | Overlay::CloseReason | Overlay::Note | Overlay::Comment | Overlay::Create => {
            return handle_prompt(app, key);
        },
        Overlay::Assign => {
            return handle_assign(app, key);
        },
        Overlay::Help | Overlay::Detail => {
            app.escape();
            return Effect::Idle;
        },
        Overlay::StatusPick => {
            match key.code {
                KeyCode::Char(d) => {
                    if '1' <= d && d <= '9' {
                        return app.pick_status((d as u32 - '1' as u32) as usize);
                    }
                },
                _ => {},
            }
            app.escape();
            return Effect::Idle;
        },
        Overlay::PriorityPick => {
            match key.code {
                KeyCode::Char(d) => {
                    if '0' <= d && d <= '4' {
                        return app.pick_priority((d as u32 - '0' as u32) as u8);
                    }
                },
                _ => {},
            }
            app.escape();
            return Effect::Idle;
        },
        Overlay::Nothing => {},
    }
    if key.modifiers.control {
        app.g_pending = false;
        match key.code {
            KeyCode::Char('d') => app.nav_vert(8),
            KeyCode::Char('u') => app.nav_vert(-8),
            KeyCode::Char('f') => app.nav_vert(16),
            KeyCode::Char('b') => app.nav_vert(-16),
            _ => {},
        }
        return Effect::Idle;
    }
    if app.g_pending {
        app.g_pending = false;
        if key.code == KeyCode::Char('g') {
            app.nav_vert(-1073741824);
        }
        return Effect::Idle;
    }
    board_key_step(app, key)
}

fn board_key_step(app: &mut App, key: KeyPress) -> (r: Effect)
    ensures
        board_key(*old(app), key, *final(app), r),
{
    match key.code {
        KeyCode::Char('q') => {
            app.should_quit = true;
            Effect::Quit
        },
        KeyCode::Esc => {
            app.escape();
            Effect::Idle
        },
        KeyCode::Char('?') => {
            app.open_help();
            Effect::Idle
        },
        KeyCode::Char('K') | KeyCode::Tab => {
            app.cycle_view(false);
            Effect::Idle
        },
        KeyCode::BackTab => {
            app.cycle_view(true);
            Effect::Idle
        },
        KeyCode::Char('j') | KeyCode::Down => {
            app.nav_vert(1);
            Effect::Idle
        },
        KeyCode::Char('k') | KeyCode::Up => {
            app.nav_vert(-1);
            Effect::Idle
        },
        KeyCode::Char('h') | KeyCode::Left => app.nav_horiz(-1),
        KeyCode::Char('l') | KeyCode::Right => app.nav_horiz(1),
        KeyCode::Char('G') | KeyCode::End => {
            app.nav_vert(1073741823);
            Effect::Idle
        },
        KeyCode::Home => {
            app.nav_vert(-1073741824);
            Effect::Idle
        },
        KeyCode::Char('g') => {
            app.g_pending = true;
            Effect::Idle
        },
        KeyCode::Enter => app.open_detail(),
        KeyCode::Char('d') => app.toggle_detail_pane(),
        KeyCode::Char('c') => app.claim_selected(),
        KeyCode::Char('x') => {
            app.open_close_reason();
            Effect::Idle
        },
        KeyCode::Char('s') => {
            app.open_status_pick();
            Effect::Idle
        },
        KeyCode::Char('p') => {
            app.open_priority_pick();
            Effect::Idle
        },
        KeyCode::Char('a') => {
            app.open_create();
            Effect::Idle
        },
        KeyCode::Char('e') => {
            app.open_edit();
            Effect::Idle
        },
        KeyCode::Char('n') => {
            app.open_note();
            Effect::Idle
        },
        KeyCode::Char('m') => {
            app.open_comment();
            Effect::Idle
        },
        KeyCode::Char('A') => app.open_assign(),
        KeyCode::Char('v') => {
            app.toggle_move_mode();
            Effect::Idle
        },
        KeyCode::Char('/') => {
            app.open_filter();
            Effect::Idle
        },
        KeyCode::Char('R') => app.toggle_ready(),
        KeyCode::Char('C') => app.toggle_closed(),
        KeyCode::Char('S') => app.toggle_scope(),
        KeyCode::Char('o') => {
            app.cycle_sort();
            Effect::Idle
        },
        KeyCode::Char('r') => {
            app.status_msg = String::new();
            Effect::Reload
        },
        _ => Effect::Idle,
    }
}

fn handle_assign(app: &mut App, key: KeyPress) -> (r: Effect)
    requires
        old(app).overlay == Overlay::Assign,
    ensures
        assign_key(*old(app), key, *final(app), r),
{
    match key.code {
        KeyCode::Esc => {
            app.escape();
            Effect::Idle
        },
        KeyCode::Enter => app.confirm_assign(),
        KeyCode::Char('j') | KeyCode::Down => {
            app.nav_vert(1);
            Effect::Idle
        },
        KeyCode::Char('k') | KeyCode::Up => {
            app.nav_vert(-1);
            Effect::Idle
        },
        _ => Effect::Idle,
    }
}

fn handle_prompt(app: &mut App, key: KeyPress) -> (r: Effect)
    requires
        in_prompt(*old(app)),
        key_ok(*old(app), key),
    ensures
        prompt_key(*old(app), key, *final(app), r),
{
    let create = app.overlay == Overlay::Create;
    let code = key.code;
    if code == KeyCode::Esc {
        app.escape();
        Effect::Idle
    } else if code == KeyCode::Enter {
        if create {
            app.submit_form()
        } else {
            app.submit_prompt()
        }
    } else if code == KeyCode::Backspace {
        app.prompt_backspace();
        Effect::Idle
    } else if create && (code == KeyCode::Tab || code == KeyCode::Down) {
        app.form.next_field();
        Effect::Idle
    } else if create && (code == KeyCode::BackTab || code == KeyCode::Up) {
        app.form.prev_field();
        Effect::Idle
    } else if create && code == KeyCode::Left {
        app.form.nudge(-1);
        Effect::Idle
    } else if create && code == KeyCode::Right {
        app.form.nudge(1);
        Effect::Idle
    } else {
        match code {
            KeyCode::Char(ch) => {
                if !(key.modifiers.control || key.modifiers.alt || key.modifiers.other) {
                    app.prompt_push(ch);
                }
                Effect::Idle
            },
            _ => Effect::Idle,
        }
    }
}

/// `Ctrl-C` quits from every layer.
pub proof fn law_ctrl_c_quits(a: App, key: KeyPress, b: App, r: Effect)
    requires
        key_spec(a, key, b, r),
        ctrl_c(key),
    ensures
        r is Quit,
        b.should_quit,
{
}

/// `Esc` never quits: it backs out one layer at most.
pub proof fn law_esc_never_quits(a: App, key: KeyPress, b: App, r: Effect)
    requires
        key_spec(a, key, b, r),
        key.code == KeyCode::Esc,
    ensures
        !(r is Quit),
        b.should_quit == a.should_quit,
{
}

/// `Esc` and `Ctrl-C` are taken in every state.
pub proof fn law_esc_and_ctrl_c_always_taken(a: App, key: KeyPress)
    requires
        key.code == KeyCode::Esc || ctrl_c(key),
    ensures
        key_ok(a, key),
{
}

/// Only `Ctrl-C` (anywhere) and a plain `q` on the bare board quit, and a
/// key quits exactly when it asks the loop to exit.
pub proof fn law_quit_keys(a: App, key: KeyPress, b: App, r: Effect)
    requires
        key_spec(a, key, b, r),
    ensures
        r is Quit <==> (ctrl_c(key) || (a.overlay == Overlay::Nothing && !key.modifiers.control
            && !a.g_pending && is_char(key, 'q'))),
        b.should_quit == (a.should_quit || r is Quit),
{
}

/// On the bare board, a plain `n` opens the note prompt and a plain `m` the
/// comment prompt on the selected bead, with empty text.
pub proof fn law_note_and_comment_keys(a: App, key: KeyPress, b: App, r: Effect)
    requires
        key_spec(a, key, b, r),
        a.overlay == Overlay::Nothing,
        !a.g_pending,
        !key.modifiers.control,
        a.selected is Some,
        is_char(key, 'n') || is_char(key, 'm'),
    ensures
        r is Idle,
        is_char(key, 'n') ==> b.overlay == Overlay::Note,
        is_char(key, 'm') ==> b.overlay == Overlay::Comment,
        b.selected == a.selected,
        b.prompt@.len() == 0,
{
}

} // verus!
