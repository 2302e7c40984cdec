//! Application state of the board. All writes go through the `bd` argv
//! bridge; the board never invents its own store.
//!
//! The state here is pure: a step that needs `bd` or the cmux socket hands
//! back an [`Effect`], the shell performs it, and the outcome comes back
//! through one of the `*_done` / `loaded` / `shown` methods.

use vstd::prelude::*;

use crate::bd::types::Bead;
use crate::bd::{create_argv, has_bead, update_argv, BeadFields, BridgeError, ListMode, NewBead, Scope};
use crate::board::{
    adjacent_spec, adjacent_status, matches_spec, column_positions, column_statuses, kanban_positions, status_choices, status_choices_spec,
    visible_indices, visible_positions, BoardView, SortKey,
};
use crate::form::{erased, issue_types, typed, BeadForm};
use crate::sessions::{assignee_spec, LivePane, LiveWorkspace};
use crate::text::{
    before_first, decimal, first_index, join, join_strings, lemma_first_index, str_eq, trim_str,
    trimmed, u64_text, views,
};

verus! {

/// Milliseconds between two background refreshes.
pub const REFRESH_EVERY_MS: u64 = 2000;

/// First wait before reconnecting to the cmux socket.
pub const INITIAL_RECONNECT_MS: u64 = 500;

/// Longest wait before reconnecting to the cmux socket.
pub const MAX_RECONNECT_MS: u64 = 8000;

/// Modal / prompt layer. `Esc` backs out one layer and never quits.
#[derive(Debug, Clone, Copy, PartialEq, Eq, Structural)]
pub enum Overlay {
    Nothing,
    Help,
    Detail,
    Filter,
    CloseReason,
    Note,
    Comment,
    StatusPick,
    PriorityPick,
    Create,
    Assign,
}

/// Connection / data health shown in the header.
#[derive(Debug, Clone, PartialEq, Eq)]
pub enum Health {
    Ready,
    Standalone,
    Reconnecting { message: String },
    BdMissing,
}

/// Work for the shell: what the board needs from `bd` or cmux next.
#[derive(Debug)]
pub enum Effect {
    /// Nothing to do.
    Idle,
    /// Leave the event loop.
    Quit,
    /// Reload the board from `bd` (see [`App::reload_needs_probe`],
    /// [`App::probed`] and [`App::loaded`]).
    Reload,
    /// Run `bd` with `args`, then report through [`App::wrote`] with `label`.
    Write { label: String, args: Vec<String> },
    /// `bd show <id> --json`, then [`App::shown`]; `modal` opens the detail
    /// overlay, otherwise the inline pane is filled.
    Show { id: String, modal: bool },
    /// `bd create` with `args` (then `bd update <id> -s deferred` when
    /// `deferred` and an id came back), then [`App::created`].
    Create { title: String, args: Vec<String>, deferred: bool },
    /// `bd update` with `args` (then `-s deferred` when `deferred`), then
    /// [`App::updated`].
    Update { id: String, args: Vec<String>, deferred: bool },
    /// Load the board in the (already toggled) scope, then
    /// [`App::scope_loaded`].
    LoadScope,
    /// Refresh the live panes from the socket, then [`App::assign_ready`].
    RefreshPanes,
}

/// Sidebar application. `bd` is the store; this struct is only UI state.
pub struct App {
    /// The directory `bd` runs in, as shown.
    pub cwd: String,
    /// Where `cwd` came from: `process`, `flag` or `pane`.
    pub cwd_source: String,
    pub beads: Vec<Bead>,
    pub selected: Option<String>,
    pub detail: Option<Bead>,
    pub overlay: Overlay,
    pub prompt: String,
    pub filter: String,
    pub form: BeadForm,
    pub view: BoardView,
    pub sort: SortKey,
    pub scope: Scope,
    pub ready_only: bool,
    pub include_closed: bool,
    pub show_detail_pane: bool,
    pub move_mode: bool,
    pub live_workspaces: Vec<LiveWorkspace>,
    pub live_panes: Vec<LivePane>,
    pub assign_index: usize,
    pub status_msg: String,
    pub health: Health,
    pub should_quit: bool,
    pub g_pending: bool,
    /// Whether a cmux socket client is attached.
    pub connected: bool,
    /// Whether `cwd` was forced by `--cwd` (pane resolution is off).
    pub forced_cwd: bool,
    /// The wait before the next reconnect attempt.
    pub reconnect_delay_ms: u64,
}

/// The text the board is filtered by: the prompt while `/` is open,
/// otherwise the committed filter.
pub open spec fn query_spec(a: App) -> Seq<char> {
    if a.overlay == Overlay::Filter {
        a.prompt@
    } else {
        a.filter@
    }
}

/// Whether the bead at a position is shown at all: closed issues only when
/// asked for.
pub open spec fn shown_at(beads: Seq<Bead>, include_closed: bool) -> spec_fn(usize) -> bool {
    |i: usize| include_closed || beads[i as int].status@ != "closed"@
}

/// Whether a bead has `id`.
pub open spec fn has_id(id: Seq<char>) -> spec_fn(Bead) -> bool {
    |b: Bead| b.id@ == id
}

/// Whether the bead at a position in `beads` has `id`.
pub open spec fn id_at(beads: Seq<Bead>, id: Seq<char>) -> spec_fn(usize) -> bool {
    |i: usize| beads[i as int].id@ == id
}

/// `rows` is the visible rows of a board (positions into `beads`): the rows
/// that `query` keeps, in `sort` order, without the hidden closed ones.
pub open spec fn board_rows(
    beads: Seq<Bead>,
    query: Seq<char>,
    sort: SortKey,
    include_closed: bool,
    rows: Seq<usize>,
) -> bool {
    exists|idx: Seq<usize>|
        visible_positions(beads, query, sort, idx) && rows == idx.filter(
            shown_at(beads, include_closed),
        )
}

/// `rows` is the visible rows of `a`.
pub open spec fn rows_spec(a: App, rows: Seq<usize>) -> bool {
    board_rows(a.beads@, query_spec(a), a.sort, a.include_closed, rows)
}

/// `selected` is the first visible row of a board (nothing when no row is
/// visible).
pub open spec fn first_row(
    beads: Seq<Bead>,
    query: Seq<char>,
    sort: SortKey,
    include_closed: bool,
    selected: Option<String>,
) -> bool {
    exists|rows: Seq<usize>|
        board_rows(beads, query, sort, include_closed, rows) && if rows.len() == 0 {
            selected is None
        } else {
            selected is Some && selected->0@ == beads[rows[0] as int].id@
        }
}

/// `b` selects its first visible row.
pub open spec fn first_row_selected(b: App) -> bool {
    first_row(b.beads@, query_spec(b), b.sort, b.include_closed, b.selected)
}

/// Position of the selected bead on the board (the first with its id).
pub open spec fn selected_pos(a: App) -> Option<int> {
    match a.selected {
        Some(id) => first_index(a.beads@, has_id(id@)),
        None => None,
    }
}

/// `(id, title)` of each epic on the board, in board order: the parent
/// choices of the create form.
pub open spec fn epics_spec(beads: Seq<Bead>) -> Seq<(Seq<char>, Seq<char>)> {
    beads.filter(|b: Bead| b.issue_type@ == "epic"@).map_values(|b: Bead| (b.id@, b.title@))
}

/// The header's live-tree summary: `{workspaces}ws {panes}pn`, or nothing
/// before the socket tree arrived.
pub open spec fn live_summary_spec(workspaces: nat, panes: nat) -> Seq<char> {
    if workspaces == 0 && panes == 0 {
        Seq::empty()
    } else {
        decimal(workspaces) + "ws "@ + decimal(panes) + "pn"@
    }
}

/// Row of the selected bead among `rows` (the first with its id), else 0.
pub open spec fn row_pos(a: App, rows: Seq<usize>) -> int {
    match a.selected {
        Some(id) => match first_index(rows, id_at(a.beads@, id@)) {
            Some(k) => k,
            None => 0,
        },
        None => 0,
    }
}

/// `b` is `a` after moving `delta` rows in the list / table: the selection
/// goes to the row the jump lands on, or nowhere when no row is visible.
pub open spec fn list_step(a: App, b: App, delta: int) -> bool {
    &&& b == App { selected: b.selected, ..a }
    &&& exists|rows: Seq<usize>|
        rows_spec(a, rows) && if rows.len() == 0 {
            b.selected is None
        } else {
            b.selected is Some && b.selected->0@ == a.beads@[rows[jump_spec(
                row_pos(a, rows),
                rows.len() as int,
                delta,
            )] as int].id@
        }
}

/// `b` is `a` after moving `delta` rows in the assign picker.
pub open spec fn assign_step(a: App, b: App, delta: int) -> bool {
    b == App {
        assign_index: if a.live_panes@.len() == 0 {
            0
        } else {
            jump_spec(a.assign_index as int, a.live_panes@.len() as int, delta) as usize
        },
        ..a
    }
}

/// `b` is `a` with the next (or, `reverse`, the previous) view, named on
/// the status line.
pub open spec fn cycle_step(a: App, b: App, reverse: bool) -> bool {
    &&& b == App {
        view: if reverse {
            a.view.prev_spec()
        } else {
            a.view.next_spec()
        },
        status_msg: b.status_msg,
        ..a
    }
    &&& b.status_msg@ == "view: "@ + b.view.title_spec()
}

/// Whether the kanban column of status `s` has a card.
pub open spec fn has_cards(a: App, s: Seq<char>) -> bool {
    exists|i: int|
        0 <= i < a.beads@.len() && #[trigger] a.beads@[i].status@ == s && matches_spec(
            a.beads@[i],
            query_spec(a),
        )
}

/// Whether a kanban status has a card.
pub open spec fn with_cards(a: App) -> spec_fn(Seq<char>) -> bool {
    |s: Seq<char>| has_cards(a, s)
}

/// Index among `cards` of the first card with `id`, else 0.
pub open spec fn card_pos(a: App, cards: Seq<usize>, id: Seq<char>) -> int {
    match first_index(cards, id_at(a.beads@, id)) {
        Some(k) => k,
        None => 0,
    }
}

/// `b` selects the first card of the column of status `s`.
pub open spec fn first_card_selected(a: App, b: App, s: Seq<char>) -> bool {
    exists|cards: Seq<usize>|
        column_positions(a.beads@, query_spec(a), s, cards) && cards.len() > 0 && b.selected is Some
            && b.selected->0@ == a.beads@[cards[0] as int].id@
}

/// `b` selects the card `delta` cards away from the bead at `p` inside the
/// column of its status (nothing changes for an empty column).
pub open spec fn card_moved(a: App, b: App, p: int, delta: int) -> bool {
    let bead = a.beads@[p];
    exists|cards: Seq<usize>|
        column_positions(a.beads@, query_spec(a), bead.status@, cards) && if cards.len() == 0 {
            b == a
        } else {
            b.selected is Some && b.selected->0@ == a.beads@[cards[jump_spec(
                card_pos(a, cards, bead.id@),
                cards.len() as int,
                delta,
            )] as int].id@
        }
}

/// `b` is `a` after moving `delta` cards inside the kanban column of the
/// selection (or, with no selection, onto the first card of the first
/// column that has one).
pub open spec fn kanban_step(a: App, b: App, delta: int) -> bool {
    let st = column_statuses(a.beads@, a.include_closed);
    &&& b == App { selected: b.selected, ..a }
    &&& match selected_pos(a) {
        None => match first_index(st, with_cards(a)) {
            None => b == a,
            Some(c) => first_card_selected(a, b, st[c]),
        },
        Some(p) => if st.contains(a.beads@[p].status@) {
            card_moved(a, b, p, delta)
        } else {
            b == a
        },
    }
}

/// `b` is `a` after `j` / `k` (and the paging keys): the assign picker
/// moves when it is open, the kanban column in the kanban view, the list
/// otherwise.
pub open spec fn vert_step(a: App, b: App, delta: int) -> bool {
    if a.overlay == Overlay::Assign {
        assign_step(a, b, delta)
    } else if a.view == BoardView::Kanban {
        kanban_step(a, b, delta)
    } else {
        list_step(a, b, delta)
    }
}

/// `r` asks the shell to run `bd` with `args`, reported as `label`.
pub open spec fn is_write(r: Effect, label: Seq<char>, args: Seq<Seq<char>>) -> bool {
    (r matches Effect::Write { label: l, args: v } && l@ == label && views(v@) == args)
}

/// What `v` in kanban does with `h` / `l`: `bd update <id> -s <status>`
/// for the column `delta` steps from the selection's.
pub open spec fn retag_spec(a: App, b: App, delta: int, r: Effect) -> bool {
    let st = column_statuses(a.beads@, a.include_closed);
    &&& b == a
    &&& match selected_pos(a) {
        None => r is Idle,
        Some(p) => {
            let bead = a.beads@[p];
            match adjacent_spec(st, bead.status@, delta) {
                None => r is Idle,
                Some(next) => is_write(
                    r,
                    "status "@ + bead.id@ + " -> "@ + next,
                    seq!["update"@, bead.id@, "-s"@, next],
                ),
            }
        },
    }
}

/// `b` is `a` after `h` / `l` in kanban: the selection moves to the card
/// at the same height (or the last card) of the column `delta` steps away.
pub open spec fn horiz_step(a: App, b: App, delta: int) -> bool {
    let st = column_statuses(a.beads@, a.include_closed);
    let q = query_spec(a);
    &&& b == App { selected: b.selected, ..a }
    &&& match selected_pos(a) {
        None => b == a,
        Some(p) => {
            let bead = a.beads@[p];
            match adjacent_spec(st, bead.status@, delta) {
                None => b == a,
                Some(next) => exists|cur: Seq<usize>, cards: Seq<usize>|
                    column_positions(a.beads@, q, bead.status@, cur) && column_positions(
                        a.beads@,
                        q,
                        next,
                        cards,
                    ) && if cards.len() == 0 {
                        b == a
                    } else {
                        let k = card_pos(a, cur, bead.id@);
                        let target = if k < cards.len() {
                            cards[k]
                        } else {
                            cards[cards.len() - 1]
                        };
                        b.selected is Some && b.selected->0@ == a.beads@[target as int].id@
                    },
            }
        },
    }
}

/// What `h` / `l` does: nothing outside kanban, a retag in move mode, a
/// move across columns otherwise.
pub open spec fn nav_horiz_spec(a: App, b: App, delta: int, r: Effect) -> bool {
    if a.view != BoardView::Kanban {
        b == a && r is Idle
    } else if a.move_mode {
        retag_spec(a, b, delta, r)
    } else {
        horiz_step(a, b, delta) && r is Idle
    }
}

/// `b` is `a` with `text` on the status line.
pub open spec fn says(a: App, b: App, text: Seq<char>) -> bool {
    only_message(a, b) && b.status_msg@ == text
}

/// The other scope.
pub open spec fn flip(s: Scope) -> Scope {
    match s {
        Scope::Repo => Scope::Global,
        Scope::Global => Scope::Repo,
    }
}

/// The header label of a scope.
pub open spec fn scope_name(s: Scope) -> Seq<char> {
    match s {
        Scope::Repo => "repo"@,
        Scope::Global => "global"@,
    }
}

/// `Esc`: back out one layer. On the bare board it ends move mode, else
/// clears the committed filter. It never quits.
pub open spec fn escape_spec(a: App, b: App) -> bool {
    match a.overlay {
        Overlay::Nothing => if a.move_mode {
            b == App { move_mode: false, status_msg: b.status_msg, ..a } && b.status_msg@
                == "move mode off"@
        } else if a.filter@.len() > 0 {
            b == App { filter: b.filter, status_msg: b.status_msg, ..a } && b.filter@.len() == 0
                && b.status_msg@ == "filter cleared"@
        } else {
            b == a
        },
        Overlay::Help | Overlay::Detail => b == App { overlay: Overlay::Nothing, ..a },
        _ => b == App { overlay: Overlay::Nothing, prompt: b.prompt, ..a } && b.prompt@.len() == 0,
    }
}

/// Opening a text prompt `o` (close reason, note, comment) for the
/// selection: an empty prompt, or a complaint when nothing is selected.
pub open spec fn prompt_opened(a: App, b: App, o: Overlay) -> bool {
    if a.selected is None {
        says(a, b, "nothing selected"@)
    } else {
        b == App { overlay: o, prompt: b.prompt, ..a } && b.prompt@.len() == 0
    }
}

/// Opening a picker `o` (status, priority) for the selection.
pub open spec fn picker_opened(a: App, b: App, o: Overlay) -> bool {
    if a.selected is None {
        says(a, b, "nothing selected"@)
    } else {
        b == App { overlay: o, ..a }
    }
}

/// A flipped switch, named on the status line (`on` when it is now set).
pub open spec fn switched(b: App, now: bool, on: Seq<char>, off: Seq<char>) -> bool {
    b.status_msg@ == if now {
        on
    } else {
        off
    }
}

/// Whether a live pane is the active one.
pub open spec fn is_active_pane() -> spec_fn(LivePane) -> bool {
    |p: LivePane| p.active
}

/// The breadcrumb of a live pane.
pub open spec fn pane_label(p: LivePane) -> Seq<char> {
    p.workspace_name@ + " > "@ + p.screen_name@ + " > "@ + p.pane_title@
}

/// The label of a prompt write for `kind` on `id`.
pub open spec fn prompt_label(kind: Overlay, id: Seq<char>) -> Seq<char> {
    match kind {
        Overlay::CloseReason => "close "@ + id,
        Overlay::Note => "note "@ + id,
        _ => "comment "@ + id,
    }
}

/// The argv of a prompt write for `kind` on `id` with `text`: the text is
/// one element.
pub open spec fn prompt_argv(kind: Overlay, id: Seq<char>, text: Seq<char>) -> Seq<Seq<char>> {
    match kind {
        Overlay::CloseReason => seq!["close"@, id, "-r"@, text],
        Overlay::Note => seq!["note"@, id, text],
        _ => seq!["comment"@, id, text],
    }
}

/// `Enter` in the close-reason / note / comment prompt: the trimmed text
/// goes to `bd` as one argv element; an empty one is refused with
/// `complaint`.
pub open spec fn prompt_written(a: App, b: App, r: Effect, complaint: Seq<char>) -> bool {
    let text = trimmed(a.prompt@);
    if text.len() == 0 {
        says(a, b, complaint) && r is Idle
    } else {
        match a.selected {
            None => b == a && r is Idle,
            Some(id) => b == App { overlay: Overlay::Nothing, prompt: b.prompt, ..a } && b.prompt@.len()
                == 0 && is_write(r, prompt_label(a.overlay, id@), prompt_argv(a.overlay, id@, text)),
        }
    }
}

/// `Enter` in a prompt.
pub open spec fn submit_prompt_spec(a: App, b: App, r: Effect) -> bool {
    match a.overlay {
        Overlay::Filter => b == App {
            filter: b.filter,
            overlay: Overlay::Nothing,
            prompt: b.prompt,
            selected: b.selected,
            ..a
        } && b.filter@ == a.prompt@ && b.prompt@.len() == 0 && first_row_selected(b) && r is Idle,
        Overlay::CloseReason => prompt_written(a, b, r, "close needs a reason"@),
        Overlay::Note => prompt_written(a, b, r, "note is empty"@),
        Overlay::Comment => prompt_written(a, b, r, "comment is empty"@),
        _ => b == a && r is Idle,
    }
}

/// The epics of a form, by their characters.
pub open spec fn epic_views(epics: Seq<(String, String)>) -> Seq<(Seq<char>, Seq<char>)> {
    epics.map_values(|e: (String, String)| (e.0@, e.1@))
}

/// A fresh create form over the board's epics.
pub open spec fn fresh_form(f: BeadForm, beads: Seq<Bead>) -> bool {
    &&& f.title@.len() == 0 && f.description@.len() == 0 && f.assignee@.len() == 0 && f.labels@.len() == 0
    &&& f.type_index == 0 && f.priority == 2 && f.epic_idx == 0 && !f.deferred
    &&& f.field == crate::form::F_TITLE
    &&& f.edit_id is None
    &&& epic_views(f.epics@) == epics_spec(beads)
}

/// Whether a text is `t`.
pub open spec fn is_text(t: Seq<char>) -> spec_fn(Seq<char>) -> bool {
    |s: Seq<char>| s == t
}

/// Whether an epic choice has id `id`.
pub open spec fn epic_is(id: Seq<char>) -> spec_fn((Seq<char>, Seq<char>)) -> bool {
    |e: (Seq<char>, Seq<char>)| e.0 == id
}

/// The edit form for the bead at `p`: its fields, its type's position
/// (else the first type), its parent among the epics (else none).
pub open spec fn edit_form(f: BeadForm, beads: Seq<Bead>, p: int) -> bool {
    let bead = beads[p];
    let ep = epics_spec(beads);
    &&& epic_views(f.epics@) == ep
    &&& f.edit_id is Some && f.edit_id->0@ == bead.id@
    &&& f.title@ == bead.title@ && f.description@ == bead.description@
    &&& f.assignee@ == match bead.assignee_raw_spec() {
        Some(x) => x,
        None => Seq::empty(),
    }
    &&& f.labels@ == join(bead.label_texts(), ","@)
    &&& f.priority == bead.priority
    &&& f.type_index == match first_index(issue_types(), is_text(bead.issue_type@)) {
        Some(i) => i as usize,
        None => 0,
    }
    &&& f.epic_idx == match bead.parent {
        Some(par) => match first_index(ep, epic_is(par@)) {
            Some(i) => (i + 1) as usize,
            None => 0,
        },
        None => 0,
    }
    &&& !f.deferred
    &&& f.field == crate::form::F_TITLE
}

/// The fields that a form sends, with its trimmed title.
pub open spec fn form_fields(f: BeadForm, title: Seq<char>) -> BeadFields {
    BeadFields {
        title,
        issue_type: issue_types()[f.type_position()],
        priority: f.priority,
        description: f.description@,
        assignee: f.assignee@,
        parent: f.parent_spec(),
        labels: f.labels@,
        deferred: f.deferred,
    }
}

/// `Enter` in the create / edit form: `bd update` for an edit, `bd create`
/// otherwise; a blank title is refused.
pub open spec fn submit_form_spec(a: App, b: App, r: Effect) -> bool {
    let f = a.form;
    let title = trimmed(f.title@);
    if title.len() == 0 {
        says(a, b, "title is required"@) && r is Idle
    } else {
        &&& b == App { overlay: Overlay::Nothing, ..a }
        &&& match f.edit_id {
            Some(id) => (r matches Effect::Update { id: i, args, deferred } && i@ == id@ && views(args@)
                == update_argv(id@, form_fields(f, title)) && deferred == f.deferred),
            None => (r matches Effect::Create { title: t, args, deferred } && t@ == title && views(
                args@,
            ) == create_argv(form_fields(f, title)) && deferred == f.deferred),
        }
    }
}

/// The header health after a successful step: `Ready` with a socket,
/// `Standalone` without, and `BdMissing` stays until `bd` is found.
pub open spec fn healthy(a: App, connected: bool) -> Health {
    if a.health == Health::BdMissing {
        Health::BdMissing
    } else if connected {
        Health::Ready
    } else {
        Health::Standalone
    }
}

/// The status line after a reload that kept an earlier message.
pub open spec fn loaded_message(a: App, n: nat) -> Seq<char> {
    if a.status_msg@.len() == 0 {
        decimal(n) + " issues from bd "@ + (if a.ready_only {
            "ready"@
        } else {
            "list"@
        }) + " --json"@
    } else {
        a.status_msg@
    }
}

/// The selection of `b`, whose board was just replaced, given the earlier
/// one: kept by id while that bead is still on the board, else the first
/// visible row.
pub open spec fn reselected(before: Option<String>, b: App) -> bool {
    match before {
        Some(id) => if has_bead(b.beads@, id@) {
            b.selected == before
        } else {
            first_row_selected(b)
        },
        None => first_row_selected(b),
    }
}

/// `b` is `a` after a reload that returned `beads`: the selection is kept
/// by id while that bead is still on the board, else the first visible row
/// is selected.
pub open spec fn reloaded(a: App, b: App, beads: Seq<Bead>) -> bool {
    &&& b == App { beads: b.beads, selected: b.selected, status_msg: b.status_msg, ..a }
    &&& b.beads@ == beads
    &&& b.status_msg@ == loaded_message(a, beads.len())
    &&& reselected(a.selected, b)
}

/// The wait after the next failed connection: double, at most the cap.
pub open spec fn backoff(delay: u64) -> u64 {
    if 2 * delay > MAX_RECONNECT_MS {
        MAX_RECONNECT_MS
    } else {
        (2 * delay) as u64
    }
}

/// `b` is `a` after losing the socket with `message`; the shell waits the
/// earlier delay before the next attempt.
pub open spec fn disconnected(a: App, b: App, message: Seq<char>) -> bool {
    &&& b == App {
        connected: false,
        health: b.health,
        status_msg: b.status_msg,
        reconnect_delay_ms: backoff(a.reconnect_delay_ms),
        ..a
    }
    &&& b.status_msg@ == message
    &&& if a.health == Health::BdMissing {
        b.health == Health::BdMissing
    } else {
        b.health matches Health::Reconnecting { message: m } && m@ == message
    }
}

/// `b` is `a` after the step that opens the help.
pub open spec fn help_opened(a: App, b: App) -> bool {
    &&& (b == (App { overlay: Overlay::Help, ..a }))
}

/// `b` is `a` after the step that opens the `/` prompt on the committed filter.
pub open spec fn filter_opened(a: App, b: App) -> bool {
    &&& (b == (App { overlay: Overlay::Filter, prompt: b.prompt, ..a }))
    &&& (b.prompt@ == a.filter@)
}

/// `b` is `a` after the step that flips move mode.
pub open spec fn move_toggled(a: App, b: App) -> bool {
    &&& (b == (App {
        move_mode: !a.move_mode,
        status_msg: b.status_msg,
        ..a
    }))
    &&& (switched(b, b.move_mode, "move mode: h/l retags status"@, "move mode off"@))
}

/// `b` is `a` after the step that cycles the table sort.
pub open spec fn sort_cycled(a: App, b: App) -> bool {
    &&& (a.view != BoardView::Table ==> b == a)
    &&& (a.view == BoardView::Table ==> b == (App {
        sort: a.sort.next_spec(),
        status_msg: b.status_msg,
        ..a
    }) && b.status_msg@ == "sort: "@ + b.sort.label_spec())
}

/// `b` is `a` after the step that flips ready mode and reloads.
pub open spec fn ready_toggled(a: App, b: App, r: Effect) -> bool {
    &&& (b == (App {
        ready_only: !a.ready_only,
        status_msg: b.status_msg,
        ..a
    }))
    &&& (switched(b, b.ready_only, "filter: ready"@, "filter: all"@))
    &&& (r is Reload)
}

/// `b` is `a` after the step that shows or hides closed issues and reloads.
pub open spec fn closed_toggled(a: App, b: App, r: Effect) -> bool {
    &&& (b == (App {
        include_closed: !a.include_closed,
        status_msg: b.status_msg,
        ..a
    }))
    &&& (switched(b, b.include_closed, "showing closed"@, "hiding closed"@))
    &&& (r is Reload)
}

/// `b` is `a` after the step that switches the scope and loads it.
pub open spec fn scope_toggled(a: App, b: App, r: Effect) -> bool {
    &&& (b == (App { scope: flip(a.scope), ..a }))
    &&& (r is LoadScope)
}

/// `b` is `a` after the step that asks for the detail overlay.
pub open spec fn detail_opened(a: App, b: App, r: Effect) -> bool {
    &&& (match a.selected {
        None => says(a, b, "nothing selected"@) && r is Idle,
        Some(id) => b == a && (r matches Effect::Show { id: i, modal } && i@
            == id@ && modal),
    })
}

/// `b` is `a` after the step that flips the inline detail pane.
pub open spec fn detail_pane_toggled(a: App, b: App, r: Effect) -> bool {
    &&& (b == (App {
        show_detail_pane: !a.show_detail_pane,
        status_msg: b.status_msg,
        ..a
    }))
    &&& (switched(b, b.show_detail_pane, "detail pane on"@, "detail pane off"@))
    &&& (match a.selected {
        Some(id) => if b.show_detail_pane {
            (r matches Effect::Show { id: i, modal } && i@ == id@ && !modal)
        } else {
            r is Idle
        },
        None => r is Idle,
    })
}

/// `b` is `a` after the step that claims the selection.
pub open spec fn claimed(a: App, b: App, r: Effect) -> bool {
    &&& (match selected_pos(a) {
        None => says(a, b, "nothing selected"@) && r is Idle,
        Some(p) => b == a && is_write(
            r,
            "claim "@ + a.beads@[p].id@,
            seq!["update"@, a.beads@[p].id@, "--claim"@],
        ),
    })
}

/// `b` is `a` after the step that picks the status at `index`.
pub open spec fn status_picked(a: App, b: App, index: usize, r: Effect) -> bool {
    &&& (({
        let a = App { overlay: Overlay::Nothing, ..a };
        let choices = status_choices_spec(a.beads@);
        if index >= choices.len() {
            says(a, b, "no such status"@) && r is Idle
        } else {
            b == a && match a.selected {
                None => r is Idle,
                Some(id) => is_write(
                    r,
                    "status "@ + id@ + " -> "@ + choices[index as int],
                    seq!["update"@, id@, "-s"@, choices[index as int]],
                ),
            }
        }
    }))
}

/// `b` is `a` after the step that picks `priority`.
pub open spec fn priority_picked(a: App, b: App, priority: u8, r: Effect) -> bool {
    &&& (({
        let a = App { overlay: Overlay::Nothing, ..a };
        if priority > 4 {
            says(a, b, "priority must be 0-4"@) && r is Idle
        } else {
            b == a && match a.selected {
                None => r is Idle,
                Some(id) => is_write(
                    r,
                    "priority "@ + id@ + " -> "@ + decimal(priority as nat),
                    seq!["update"@, id@, "-p"@, decimal(priority as nat)],
                ),
            }
        }
    }))
}

/// `b` is `a` after the step that asks for the live panes to assign to.
pub open spec fn assign_opened(a: App, b: App, r: Effect) -> bool {
    &&& (match a.selected {
        None => says(a, b, "nothing selected"@) && r is Idle,
        Some(_) => b == a && r is RefreshPanes,
    })
}

/// `b` is `a` after the step that assigns the selection to the picked pane.
pub open spec fn assign_confirmed(a: App, b: App, r: Effect) -> bool {
    &&& (({
        let a = a;
        if a.assign_index >= a.live_panes@.len() {
            says(a, b, "no live pane"@) && r is Idle
        } else {
            let pane = a.live_panes@[a.assign_index as int];
            let who = assignee_spec(pane.workspace_id, pane.pane_id);
            match a.selected {
                None => b == a && r is Idle,
                Some(id) => b == (App { overlay: Overlay::Nothing, ..a })
                    && is_write(
                    r,
                    "assign "@ + id@ + " -> "@ + pane_label(pane) + " ("@ + who + ")"@,
                    seq!["update"@, id@, "-a"@, who],
                ),
            }
        }
    }))
}

/// `b` is `a` after the step that types `ch`.
pub open spec fn pushed(a: App, b: App, ch: char) -> bool {
    &&& (a.overlay == Overlay::Create ==> b == (App {
        form: b.form,
        ..a
    }) && typed(a.form, b.form, ch))
    &&& (a.overlay != Overlay::Create ==> b == (App {
        prompt: b.prompt,
        ..a
    }) && b.prompt@ == a.prompt@.push(ch))
}

/// `b` is `a` after the step that erases one character.
pub open spec fn backspaced(a: App, b: App) -> bool {
    &&& (a.overlay == Overlay::Create ==> b == (App {
        form: b.form,
        ..a
    }) && erased(a.form, b.form))
    &&& (a.overlay != Overlay::Create ==> b == (App {
        prompt: b.prompt,
        ..a
    }) && b.prompt@ == if a.prompt@.len() > 0 {
        a.prompt@.drop_last()
    } else {
        a.prompt@
    })
}

/// `b` is `a` after the step that opens an empty create form.
pub open spec fn create_opened(a: App, b: App) -> bool {
    &&& (b == (App { form: b.form, overlay: Overlay::Create, ..a }))
    &&& (fresh_form(b.form, a.beads@))
}

/// `b` is `a` after the step that opens the edit form of the selection.
pub open spec fn edit_opened(a: App, b: App) -> bool {
    &&& (match selected_pos(a) {
        None => says(a, b, "nothing selected"@),
        Some(p) => b == (App {
            form: b.form,
            overlay: Overlay::Create,
            ..a
        }) && edit_form(b.form, a.beads@, p),
    })
}

/// One card of the self-test board: `  P{priority} {id} {title}`.
pub open spec fn card_line(b: Bead) -> Seq<char> {
    "  P"@ + decimal(b.priority as nat) + " "@ + b.id@ + " "@ + b.title@ + "\n"@
}

/// The status a list section starts with after the rows `rows`: the last
/// row's, or nothing before the first row.
pub open spec fn last_status(beads: Seq<Bead>, rows: Seq<usize>) -> Seq<char> {
    if rows.len() == 0 {
        Seq::empty()
    } else {
        beads[rows.last() as int].status@
    }
}

/// The self-test list: the rows in order, a `[status]` heading whenever
/// the status changes.
pub open spec fn list_text(beads: Seq<Bead>, rows: Seq<usize>) -> Seq<char>
    decreases rows.len(),
{
    if rows.len() == 0 {
        Seq::empty()
    } else {
        let b = beads[rows.last() as int];
        list_text(beads, rows.drop_last()) + (if b.status@ != last_status(beads, rows.drop_last()) {
            "\n["@ + b.status@ + "]\n"@
        } else {
            Seq::empty()
        }) + card_line(b)
    }
}

/// The cards of one kanban column.
pub open spec fn cards_text(beads: Seq<Bead>, cards: Seq<usize>) -> Seq<char>
    decreases cards.len(),
{
    if cards.len() == 0 {
        Seq::empty()
    } else {
        cards_text(beads, cards.drop_last()) + card_line(beads[cards.last() as int])
    }
}

/// The self-test kanban: each column's `[status]` heading and its cards.
pub open spec fn kanban_text(beads: Seq<Bead>, columns: Seq<(Seq<char>, Seq<usize>)>) -> Seq<char>
    decreases columns.len(),
{
    if columns.len() == 0 {
        Seq::empty()
    } else {
        let c = columns.last();
        kanban_text(beads, columns.drop_last()) + "\n["@ + c.0 + "]\n"@ + cards_text(beads, c.1)
    }
}

/// `columns` is the kanban of `a`, column by column.
pub open spec fn kanban_of(a: App, columns: Seq<(Seq<char>, Seq<usize>)>) -> bool {
    let st = column_statuses(a.beads@, a.include_closed);
    &&& columns.len() == st.len()
    &&& forall|c: int|
        0 <= c < columns.len() ==> (#[trigger] columns[c]).0 == st[c] && column_positions(
            a.beads@,
            query_spec(a),
            columns[c].0,
            columns[c].1,
        )
}

/// The self-test lines of the live workspaces.
pub open spec fn workspaces_text(ws: Seq<LiveWorkspace>) -> Seq<char>
    decreases ws.len(),
{
    if ws.len() == 0 {
        Seq::empty()
    } else {
        let w = ws.last();
        workspaces_text(ws.drop_last()) + (if w.active {
            "*"@
        } else {
            " "@
        }) + " #"@ + decimal(w.id as nat) + " "@ + w.name@ + " ("@ + decimal(w.pane_count as nat)
            + " panes)\n"@
    }
}

/// The self-test lines of the live panes: assignee, then breadcrumb.
pub open spec fn panes_text(ps: Seq<LivePane>) -> Seq<char>
    decreases ps.len(),
{
    if ps.len() == 0 {
        Seq::empty()
    } else {
        let p = ps.last();
        panes_text(ps.drop_last()) + "  "@ + assignee_spec(p.workspace_id, p.pane_id) + " = "@
            + pane_label(p) + "\n"@
    }
}

/// The first lines of the self-test text.
pub open spec fn selftest_head(a: App) -> Seq<char> {
    "cwd "@ + a.cwd@ + " ("@ + a.cwd_source@ + ")\nscope "@ + scope_name(a.scope) + "\nview "@
        + a.view.title_spec() + "\nmode "@ + (if a.ready_only {
        "ready"@
    } else {
        "list"@
    }) + "\n"@
}

/// The last lines of the self-test text: `(empty)` for an empty board,
/// then the live workspaces and panes when there are any.
pub open spec fn selftest_tail(a: App) -> Seq<char> {
    (if a.beads@.len() == 0 {
        "(empty)\n"@
    } else {
        Seq::empty()
    }) + (if a.live_workspaces@.len() > 0 {
        "\nlive workspaces\n"@ + workspaces_text(a.live_workspaces@)
    } else {
        Seq::empty()
    }) + (if a.live_panes@.len() > 0 {
        "\nlive panes\n"@ + panes_text(a.live_panes@)
    } else {
        Seq::empty()
    })
}

/// `text` is the board part of the self-test text of `a`.
pub open spec fn board_text(a: App, text: Seq<char>) -> bool {
    if a.view == BoardView::Kanban {
        exists|columns: Seq<(Seq<char>, Seq<usize>)>|
            kanban_of(a, columns) && text == kanban_text(a.beads@, columns)
    } else {
        exists|rows: Seq<usize>| rows_spec(a, rows) && text == list_text(a.beads@, rows)
    }
}

/// The columns as views.
pub open spec fn column_views(columns: Seq<(String, Vec<usize>)>) -> Seq<(Seq<char>, Seq<usize>)> {
    columns.map_values(|c: (String, Vec<usize>)| (c.0@, c.1@))
}

/// `a` and `b` agree on every field but the status line.
pub open spec fn only_message(a: App, b: App) -> bool {
    b == App { status_msg: b.status_msg, ..a }
}

/// Where a jump of `delta` rows from `current` lands among `len` rows:
/// `i32::MIN / 2` is the first row, `i32::MAX / 2` the last, anything else
/// moves and stops at either end.
pub open spec fn jump_spec(current: int, len: int, delta: int) -> int {
    if len <= 0 {
        0
    } else if delta == -1073741824 {
        0
    } else if delta == 1073741823 {
        len - 1
    } else {
        let moved = if current + delta < 0 {
            0
        } else {
            current + delta
        };
        if moved > len - 1 {
            len - 1
        } else {
            moved
        }
    }
}

/// Where a jump of `delta` rows from `current` lands among `len` rows.
pub fn jump_index(current: usize, len: usize, delta: i32) -> (r: usize)
    ensures
        r == jump_spec(current as int, len as int, delta as int),
        len > 0 ==> r < len,
{
    if len == 0 {
        return 0;
    }
    if delta == -1073741824 {
        0
    } else if delta == 1073741823 {
        len - 1
    } else {
        let moved: usize = if delta < 0 {
            let back = (0 - (delta as i64)) as usize;
            if back > current {
                0
            } else {
                current - back
            }
        } else {
            let fwd = delta as usize;
            if fwd > usize::MAX - current {
                usize::MAX
            } else {
                current + fwd
            }
        };
        if moved > len - 1 {
            len - 1
        } else {
            moved
        }
    }
}

impl App {
    /// A board in `cwd` with nothing loaded yet. `forced_cwd` is set when
    /// the directory came from `--cwd`.
    pub fn new(cwd: String, forced_cwd: bool) -> (r: App)
        ensures
            r.cwd == cwd,
            r.cwd_source@ == "process"@,
            r.beads@.len() == 0,
            r.selected is None,
            r.detail is None,
            r.overlay == Overlay::Nothing,
            r.prompt@.len() == 0,
            r.filter@.len() == 0,
            r.form.title@.len() == 0 && r.form.epics@.len() == 0 && r.form.edit_id is None,
            r.view == BoardView::List,
            r.sort == SortKey::Status,
            r.scope == Scope::Repo,
            !r.ready_only && !r.include_closed && !r.show_detail_pane && !r.move_mode,
            r.live_workspaces@.len() == 0 && r.live_panes@.len() == 0,
            r.assign_index == 0,
            r.status_msg@.len() == 0,
            r.health == Health::Standalone,
            !r.should_quit && !r.g_pending && !r.connected,
            r.forced_cwd == forced_cwd,
            r.reconnect_delay_ms == INITIAL_RECONNECT_MS,
    {
        App {
            cwd,
            cwd_source: String::from_str("process"),
            beads: Vec::new(),
            selected: None,
            detail: None,
            overlay: Overlay::Nothing,
            prompt: String::new(),
            filter: String::new(),
            form: BeadForm::new(Vec::new()),
            view: BoardView::List,
            sort: SortKey::Status,
            scope: Scope::Repo,
            ready_only: false,
            include_closed: false,
            show_detail_pane: false,
            move_mode: false,
            live_workspaces: Vec::new(),
            live_panes: Vec::new(),
            assign_index: 0,
            status_msg: String::new(),
            health: Health::Standalone,
            should_quit: false,
            g_pending: false,
            connected: false,
            forced_cwd,
            reconnect_delay_ms: INITIAL_RECONNECT_MS,
        }
    }

    /// The active `/` query.
    pub fn query(&self) -> (r: &str)
        ensures
            r@ == query_spec(*self),
    {
        if self.overlay == Overlay::Filter {
            self.prompt.as_str()
        } else {
            self.filter.as_str()
        }
    }

    /// Visible rows as positions into `beads`.
    pub fn visible_rows(&self) -> (r: Vec<usize>)
        ensures
            rows_spec(*self, r@),
            forall|k: int| 0 <= k < r@.len() ==> (r@[k] as int) < self.beads@.len(),
    {
        let idx = visible_indices(self.beads.as_slice(), self.query(), self.sort);
        let ghost pred = shown_at(self.beads@, self.include_closed);
        let mut out: Vec<usize> = Vec::new();
        let mut k: usize = 0;
        assert(idx@.subrange(0, 0).filter(pred) =~= Seq::<usize>::empty()) by {
            reveal(Seq::filter);
        }
        while k < idx.len()
            invariant
                k <= idx@.len(),
                visible_positions(self.beads@, query_spec(*self), self.sort, idx@),
                pred == shown_at(self.beads@, self.include_closed),
                out@ == idx@.subrange(0, k as int).filter(pred),
                forall|t: int| 0 <= t < out@.len() ==> (out@[t] as int) < self.beads@.len(),
            decreases idx@.len() - k,
        {
            let i = idx[k];
            proof {
                idx@.subrange(0, k as int).lemma_filter_push(i, pred);
                assert(idx@.subrange(0, k + 1) =~= idx@.subrange(0, k as int).push(i));
                assert((idx@[k as int] as int) < self.beads@.len());
            }
            if self.include_closed || !self.beads[i].is_closed() {
                out.push(i);
            }
            k = k + 1;
        }
        assert(idx@.subrange(0, idx@.len() as int) =~= idx@);
        out
    }

    /// Visible rows for the current filter and sort.
    pub fn visible(&self) -> (r: Vec<&Bead>)
        ensures
            exists|rows: Seq<usize>|
                rows_spec(*self, rows) && rows.len() == r@.len() && forall|k: int|
                    0 <= k < rows.len() ==> *r@[k] == self.beads@[#[trigger] rows[k] as int],
    {
        let rows = self.visible_rows();
        let mut out: Vec<&Bead> = Vec::new();
        let mut k: usize = 0;
        while k < rows.len()
            invariant
                k <= rows@.len(),
                out@.len() == k,
                forall|t: int| 0 <= t < rows@.len() ==> (rows@[t] as int) < self.beads@.len(),
                forall|t: int| 0 <= t < k ==> *out@[t] == self.beads@[#[trigger] rows@[t] as int],
            decreases rows@.len() - k,
        {
            out.push(&self.beads[rows[k]]);
            k = k + 1;
        }
        assert(rows_spec(*self, rows@));
        out
    }

    /// Kanban columns of the current board, as positions into `beads`.
    pub fn kanban(&self) -> (r: Vec<(String, Vec<usize>)>)
        ensures
            r@.len() == column_statuses(self.beads@, self.include_closed).len(),
            forall|c: int|
                0 <= c < r@.len() ==> (#[trigger] r@[c]).0@ == column_statuses(
                    self.beads@,
                    self.include_closed,
                )[c] && column_positions(self.beads@, query_spec(*self), r@[c].0@, r@[c].1@),
    {
        kanban_positions(self.beads.as_slice(), self.query(), self.include_closed)
    }

    /// Position of the selected bead, if it is still on the board.
    pub fn selected_index(&self) -> (r: Option<usize>)
        ensures
            match r {
                Some(k) => selected_pos(*self) == Some(k as int) && (k as int) < self.beads@.len(),
                None => selected_pos(*self) is None,
            },
    {
        let id = match &self.selected {
            Some(id) => id.as_str(),
            None => {
                return None;
            },
        };
        let ghost p = has_id(id@);
        let mut k: usize = 0;
        while k < self.beads.len()
            invariant
                k <= self.beads@.len(),
                self.selected matches Some(s) && s@ == id@,
                p == has_id(id@),
                forall|j: int| 0 <= j < k ==> !p(#[trigger] self.beads@[j]),
            decreases self.beads@.len() - k,
        {
            if str_eq(self.beads[k].id.as_str(), id) {
                proof {
                    lemma_first_index(self.beads@, p, k as int);
                }
                return Some(k);
            }
            k = k + 1;
        }
        proof {
            lemma_first_index(self.beads@, p, k as int);
        }
        None
    }

    /// Selected bead, if it is still on the board.
    pub fn selected_bead(&self) -> (r: Option<&Bead>)
        ensures
            match selected_pos(*self) {
                Some(k) => r == Some(&self.beads@[k]),
                None => r is None,
            },
    {
        match self.selected_index() {
            Some(k) => Some(&self.beads[k]),
            None => None,
        }
    }

    /// Compact live-tree summary from `CMUX_TUI_SOCKET` (`list-workspaces`).
    /// Empty when the plugin is standalone or the socket has no tree yet.
    pub fn live_summary(&self) -> (r: String)
        ensures
            r@ == live_summary_spec(self.live_workspaces@.len(), self.live_panes@.len()),
    {
        if self.live_workspaces.len() == 0 && self.live_panes.len() == 0 {
            return String::new();
        }
        let mut out = u64_text(self.live_workspaces.len() as u64);
        out.append("ws ");
        out.append(u64_text(self.live_panes.len() as u64).as_str());
        out.append("pn");
        out
    }

    /// Status choices for the `s` picker.
    pub fn statuses(&self) -> (r: Vec<String>)
        ensures
            views(r@) == status_choices_spec(self.beads@),
    {
        status_choices(self.beads.as_slice())
    }

    /// `(id, title)` of each epic on the board.
    pub fn epics(&self) -> (r: Vec<(String, String)>)
        ensures
            r@.map_values(|e: (String, String)| (e.0@, e.1@)) == epics_spec(self.beads@),
    {
        let ghost pred = |b: Bead| b.issue_type@ == "epic"@;
        let ghost pair = |b: Bead| (b.id@, b.title@);
        let ghost show = |e: (String, String)| (e.0@, e.1@);
        let mut out: Vec<(String, String)> = Vec::new();
        let mut k: usize = 0;
        assert(self.beads@.subrange(0, 0).filter(pred) =~= Seq::<Bead>::empty()) by {
            reveal(Seq::filter);
        }
        while k < self.beads.len()
            invariant
                k <= self.beads@.len(),
                pred == (|b: Bead| b.issue_type@ == "epic"@),
                pair == (|b: Bead| (b.id@, b.title@)),
                show == (|e: (String, String)| (e.0@, e.1@)),
                out@.map_values(show) == self.beads@.subrange(0, k as int).filter(pred).map_values(pair),
            decreases self.beads@.len() - k,
        {
            let b = &self.beads[k];
            proof {
                self.beads@.subrange(0, k as int).lemma_filter_push(*b, pred);
                assert(self.beads@.subrange(0, k + 1) =~= self.beads@.subrange(0, k as int).push(*b));
            }
            let ghost before = out@;
            if b.is_epic() {
                out.push((b.id.clone(), b.title.clone()));
                assert(out@.map_values(show) =~= before.map_values(show).push(pair(*b)));
                assert(self.beads@.subrange(0, k as int).filter(pred).push(*b).map_values(pair)
                    =~= self.beads@.subrange(0, k as int).filter(pred).map_values(pair).push(pair(*b)));
            }
            k = k + 1;
        }
        assert(self.beads@.subrange(0, self.beads@.len() as int) =~= self.beads@);
        out
    }

    /// Whether the open layer takes typing or a pick, so that a background
    /// refresh must wait (it could otherwise steal the overlay).
    pub fn overlay_blocks_refresh(&self) -> (r: bool)
        ensures
            r == !(self.overlay == Overlay::Nothing || self.overlay == Overlay::Help
                || self.overlay == Overlay::Detail),
    {
        match self.overlay {
            Overlay::Filter | Overlay::CloseReason | Overlay::Note | Overlay::Comment
            | Overlay::Create | Overlay::Assign | Overlay::StatusPick | Overlay::PriorityPick => true,
            _ => false,
        }
    }

    /// Cycle List / Table / Kanban in-process.
    pub fn cycle_view(&mut self, reverse: bool)
        ensures
            cycle_step(*old(self), *final(self), reverse),
    {
        self.view = if reverse {
            self.view.prev()
        } else {
            self.view.next()
        };
        let mut msg = String::from_str("view: ");
        msg.append(self.view.title());
        self.status_msg = msg;
    }

    /// Move the assign picker by `delta` rows.
    pub fn nav_assign(&mut self, delta: i32)
        ensures
            assign_step(*old(self), *final(self), delta as int),
    {
        if self.live_panes.len() == 0 {
            self.assign_index = 0;
            return;
        }
        self.assign_index = jump_index(self.assign_index, self.live_panes.len(), delta);
    }

    /// Move the list / table selection by `delta` rows.
    pub fn nav_list(&mut self, delta: i32)
        ensures
            list_step(*old(self), *final(self), delta as int),
    {
        let rows = self.visible_rows();
        let ghost a = *self;
        if rows.len() == 0 {
            self.selected = None;
            assert(list_step(a, *self, delta as int)) by {
                assert(rows_spec(a, rows@));
            }
            return;
        }
        let current = match &self.selected {
            Some(id) => match position_with_id(self.beads.as_slice(), &rows, id.as_str()) {
                Some(k) => k,
                None => 0,
            },
            None => 0,
        };
        assert(current == row_pos(a, rows@));
        let next = jump_index(current, rows.len(), delta);
        let id = self.beads[rows[next]].id.clone();
        self.selected = Some(id);
        assert(list_step(a, *self, delta as int)) by {
            assert(rows_spec(a, rows@));
        }
    }

    /// Move the selection by `delta` rows: in the assign picker when it is
    /// open, inside the kanban column in the kanban view, in the list
    /// otherwise.
    pub fn nav_vert(&mut self, delta: i32)
        ensures
            vert_step(*old(self), *final(self), delta as int),
    {
        if self.overlay == Overlay::Assign {
            self.nav_assign(delta);
        } else if self.view == BoardView::Kanban {
            self.nav_vert_kanban(delta);
        } else {
            self.nav_list(delta);
        }
    }

    /// Move `delta` cards inside the kanban column of the selection.
    pub fn nav_vert_kanban(&mut self, delta: i32)
        ensures
            kanban_step(*old(self), *final(self), delta as int),
    {
        let ghost a = *self;
        let ghost st = column_statuses(a.beads@, a.include_closed);
        let columns = self.kanban();
        match self.selected_index() {
            None => {
                let ghost pred = with_cards(a);
                match first_column_with_cards(&columns) {
                    Some(c) => {
                        let id = self.beads[columns[c].1[0]].id.clone();
                        self.selected = Some(id);
                        proof {
                            assert forall|d: int| 0 <= d < c implies !pred(#[trigger] st[d]) by {
                                lemma_cards_nonempty(a, columns@[d].0@, columns@[d].1@);
                            }
                            lemma_cards_nonempty(a, columns@[c as int].0@, columns@[c as int].1@);
                            assert(pred(st[c as int]));
                            lemma_first_index(st, pred, c as int);
                            let cards = columns@[c as int].1@;
                            assert(column_positions(a.beads@, query_spec(a), st[c as int], cards));
                            assert(first_card_selected(a, *self, st[c as int]));
                        }
                    },
                    None => {
                        proof {
                            assert forall|d: int| 0 <= d < st.len() implies !pred(#[trigger] st[d]) by {
                                lemma_cards_nonempty(a, columns@[d].0@, columns@[d].1@);
                            }
                            lemma_first_index(st, pred, st.len() as int);
                        }
                    },
                }
            },
            Some(p) => {
                let status = self.beads[p].status.clone();
                let id = self.beads[p].id.clone();
                match column_index(&columns, status.as_str()) {
                    None => {
                        assert(!st.contains(status@)) by {
                            if st.contains(status@) {
                                let d = choose|d: int| 0 <= d < st.len() && st[d] == status@;
                                assert(columns@[d].0@ == st[d]);
                            }
                        }
                    },
                    Some(c) => {
                        let cards = &columns[c].1;
                        assert(column_positions(a.beads@, query_spec(a), status@, cards@));
                        assert(st.contains(status@)) by {
                            assert(st[c as int] == status@);
                        }
                        if cards.len() > 0 {
                            proof {
                                assert forall|k: int| 0 <= k < cards@.len() implies (cards@[k] as int) < self.beads@.len() by {
                                    assert((#[trigger] cards@[k] as int) < a.beads@.len());
                                }
                            }
                            let current = match position_with_id(self.beads.as_slice(), cards, id.as_str()) {
                                Some(k) => k,
                                None => 0,
                            };
                            let next = jump_index(current, cards.len(), delta);
                            let chosen = self.beads[cards[next]].id.clone();
                            self.selected = Some(chosen);
                        }
                    },
                }
            },
        }
    }

    /// Kanban: change column, or retag when move-mode is on.
    pub fn nav_horiz(&mut self, delta: i32) -> (r: Effect)
        ensures
            nav_horiz_spec(*old(self), *final(self), delta as int, r),
    {
        if self.view != BoardView::Kanban {
            return Effect::Idle;
        }
        if self.move_mode {
            return self.retag(delta);
        }
        let ghost a = *self;
        let ghost st = column_statuses(a.beads@, a.include_closed);
        let columns = self.kanban();
        let p = match self.selected_index() {
            Some(p) => p,
            None => {
                return Effect::Idle;
            },
        };
        let status = self.beads[p].status.clone();
        let id = self.beads[p].id.clone();
        proof {
            assert(columns@.map_values(|c: (String, Vec<usize>)| c.0@) =~= st);
        }
        let next_status = match adjacent_status(columns.as_slice(), status.as_str(), delta) {
            Some(n) => n,
            None => {
                return Effect::Idle;
            },
        };
        let cur_col = column_index(&columns, status.as_str());
        let current_idx: usize = match cur_col {
            Some(c) => {
                let cards = &columns[c].1;
                proof {
                    assert forall|k: int| 0 <= k < cards@.len() implies (cards@[k] as int) < self.beads@.len() by {
                        assert((#[trigger] cards@[k] as int) < a.beads@.len());
                    }
                }
                match position_with_id(self.beads.as_slice(), cards, id.as_str()) {
                    Some(k) => k,
                    None => 0,
                }
            },
            None => 0,
        };
        let next_col = column_index(&columns, next_status.as_str());
        proof {
            st.index_of_first_ensures(status@);
            let i = st.index_of_first(status@)->0;
            assert(cur_col is Some) by {
                assert(columns@[i].0@ == status@);
            }
            let ghost j = {
                let moved = if i + delta < 0 { 0 } else { i + delta };
                if moved > st.len() - 1 { st.len() - 1 } else { moved }
            };
            assert(next_col is Some) by {
                assert(columns@[j].0@ == next_status@);
            }
        }
        let c = match next_col {
            Some(c) => c,
            None => {
                return Effect::Idle;
            },
        };
        let cards = &columns[c].1;
        let ghost cur = columns@[cur_col->0 as int].1@;
        assert(column_positions(a.beads@, query_spec(a), status@, cur));
        assert(column_positions(a.beads@, query_spec(a), next_status@, cards@));
        if cards.len() == 0 {
            return Effect::Idle;
        }
        let target = if current_idx < cards.len() {
            cards[current_idx]
        } else {
            cards[cards.len() - 1]
        };
        let chosen = self.beads[target].id.clone();
        self.selected = Some(chosen);
        Effect::Idle
    }

    /// `bd update -s` to the adjacent kanban column.
    pub fn retag(&mut self, delta: i32) -> (r: Effect)
        ensures
            retag_spec(*old(self), *final(self), delta as int, r),
    {
        let ghost st = column_statuses(self.beads@, self.include_closed);
        let columns = self.kanban();
        let p = match self.selected_index() {
            Some(p) => p,
            None => {
                return Effect::Idle;
            },
        };
        let bead = &self.beads[p];
        proof {
            assert(columns@.map_values(|c: (String, Vec<usize>)| c.0@) =~= st);
        }
        match adjacent_status(columns.as_slice(), bead.status.as_str(), delta) {
            Some(next) => {
                let mut label = String::from_str("status ");
                label.append(bead.id.as_str());
                label.append(" -> ");
                label.append(next.as_str());
                let args = crate::bd::argv_set_status(bead.id.as_str(), next.as_str());
                Effect::Write { label, args }
            },
            None => Effect::Idle,
        }
    }

    fn say(&mut self, text: &str)
        ensures
            says(*old(self), *final(self), text@),
    {
        self.status_msg = String::from_str(text);
    }

    pub fn open_help(&mut self)
        ensures
            help_opened(*old(self), *final(self)),
    {
        self.overlay = Overlay::Help;
    }

    pub fn open_filter(&mut self)
        ensures
            filter_opened(*old(self), *final(self)),
    {
        self.prompt = self.filter.clone();
        self.overlay = Overlay::Filter;
    }

    fn open_prompt(&mut self, o: Overlay)
        ensures
            prompt_opened(*old(self), *final(self), o),
    {
        if self.selected.is_none() {
            self.say("nothing selected");
            return;
        }
        self.prompt = String::new();
        self.overlay = o;
    }

    fn open_picker(&mut self, o: Overlay)
        ensures
            picker_opened(*old(self), *final(self), o),
    {
        if self.selected.is_none() {
            self.say("nothing selected");
            return;
        }
        self.overlay = o;
    }

    pub fn open_close_reason(&mut self)
        ensures
            prompt_opened(*old(self), *final(self), Overlay::CloseReason),
    {
        self.open_prompt(Overlay::CloseReason);
    }

    pub fn open_note(&mut self)
        ensures
            prompt_opened(*old(self), *final(self), Overlay::Note),
    {
        self.open_prompt(Overlay::Note);
    }

    pub fn open_comment(&mut self)
        ensures
            prompt_opened(*old(self), *final(self), Overlay::Comment),
    {
        self.open_prompt(Overlay::Comment);
    }

    pub fn open_status_pick(&mut self)
        ensures
            picker_opened(*old(self), *final(self), Overlay::StatusPick),
    {
        self.open_picker(Overlay::StatusPick);
    }

    pub fn open_priority_pick(&mut self)
        ensures
            picker_opened(*old(self), *final(self), Overlay::PriorityPick),
    {
        self.open_picker(Overlay::PriorityPick);
    }

    /// Back out one overlay. Never quits.
    pub fn escape(&mut self)
        ensures
            escape_spec(*old(self), *final(self)),
    {
        match self.overlay {
            Overlay::Nothing => {
                if self.move_mode {
                    self.move_mode = false;
                    self.say("move mode off");
                } else if self.filter.as_str().is_empty() == false {
                    self.filter = String::new();
                    self.say("filter cleared");
                }
            },
            Overlay::Help | Overlay::Detail => {
                self.overlay = Overlay::Nothing;
            },
            _ => {
                self.overlay = Overlay::Nothing;
                self.prompt = String::new();
            },
        }
    }

    pub fn toggle_move_mode(&mut self)
        ensures
            move_toggled(*old(self), *final(self)),
    {
        self.move_mode = !self.move_mode;
        if self.move_mode {
            self.say("move mode: h/l retags status");
        } else {
            self.say("move mode off");
        }
    }

    /// Table view: the next sort key. Other views ignore it.
    pub fn cycle_sort(&mut self)
        ensures
            sort_cycled(*old(self), *final(self)),
    {
        if self.view != BoardView::Table {
            return;
        }
        self.sort = self.sort.next();
        let mut msg = String::from_str("sort: ");
        msg.append(self.sort.label());
        self.status_msg = msg;
    }

    /// `R`: ready issues only, or all; the board reloads.
    pub fn toggle_ready(&mut self) -> (r: Effect)
        ensures
            ready_toggled(*old(self), *final(self), r),
    {
        self.ready_only = !self.ready_only;
        if self.ready_only {
            self.say("filter: ready");
        } else {
            self.say("filter: all");
        }
        Effect::Reload
    }

    /// `C`: show or hide closed issues; the board reloads.
    pub fn toggle_closed(&mut self) -> (r: Effect)
        ensures
            closed_toggled(*old(self), *final(self), r),
    {
        self.include_closed = !self.include_closed;
        if self.include_closed {
            self.say("showing closed");
        } else {
            self.say("hiding closed");
        }
        Effect::Reload
    }

    /// `S`: switch repo / global; the board loads in the new scope.
    pub fn toggle_scope(&mut self) -> (r: Effect)
        ensures
            scope_toggled(*old(self), *final(self), r),
    {
        self.scope = self.scope.toggled();
        Effect::LoadScope
    }

    /// The outcome of loading the board in the scope [`App::toggle_scope`]
    /// switched to: kept, or the previous scope comes back. Returns whether
    /// the board was refreshed.
    pub fn scope_loaded(&mut self, r: Result<Vec<Bead>, BridgeError>) -> (refreshed: bool)
        ensures
            refreshed == r is Ok,
            match r {
                Ok(beads) => *final(self) == (App {
                    beads: beads,
                    status_msg: final(self).status_msg,
                    ..*old(self)
                }) && final(self).status_msg@ == "scope: "@ + scope_name(old(self).scope),
                Err(e) => *final(self) == (App {
                    scope: flip(old(self).scope),
                    status_msg: final(self).status_msg,
                    ..*old(self)
                }) && final(self).status_msg@ == "scope "@ + scope_name(old(self).scope)
                    + " failed ("@ + e.message_spec() + "); staying on "@ + scope_name(
                    flip(old(self).scope),
                ),
            },
    {
        match r {
            Ok(beads) => {
                self.beads = beads;
                let mut msg = String::from_str("scope: ");
                msg.append(self.scope.label());
                self.status_msg = msg;
                true
            },
            Err(e) => {
                let attempted = self.scope;
                self.scope = attempted.toggled();
                let mut msg = String::from_str("scope ");
                msg.append(attempted.label());
                msg.append(" failed (");
                msg.append(e.message().as_str());
                msg.append("); staying on ");
                msg.append(self.scope.label());
                self.status_msg = msg;
                false
            },
        }
    }

    /// The outcome of a `bd` write labelled `label`: on success the board
    /// reloads.
    pub fn wrote(&mut self, label: &str, r: Result<(), BridgeError>) -> (e: Effect)
        ensures
            only_message(*old(self), *final(self)),
            match r {
                Ok(()) => final(self).status_msg@ == label@ + " · cwd "@ + old(self).cwd@ && e is Reload,
                Err(err) => final(self).status_msg@ == label@ + " failed: "@ + err.message_spec()
                    + " · cwd "@ + old(self).cwd@ && e is Idle,
            },
    {
        let mut msg = String::from_str(label);
        match r {
            Ok(()) => {
                msg.append(" · cwd ");
                msg.append(self.cwd.as_str());
                self.status_msg = msg;
                Effect::Reload
            },
            Err(err) => {
                msg.append(" failed: ");
                msg.append(err.message().as_str());
                msg.append(" · cwd ");
                msg.append(self.cwd.as_str());
                self.status_msg = msg;
                Effect::Idle
            },
        }
    }

    /// `Enter`: `bd show` the selection into the detail overlay.
    pub fn open_detail(&mut self) -> (r: Effect)
        ensures
            detail_opened(*old(self), *final(self), r),
    {
        match &self.selected {
            None => {
                self.say("nothing selected");
                Effect::Idle
            },
            Some(id) => Effect::Show { id: id.clone(), modal: true },
        }
    }

    /// `d`: the inline detail pane on or off; turning it on fetches the
    /// selection.
    pub fn toggle_detail_pane(&mut self) -> (r: Effect)
        ensures
            detail_pane_toggled(*old(self), *final(self), r),
    {
        self.show_detail_pane = !self.show_detail_pane;
        let r = if self.show_detail_pane {
            match &self.selected {
                Some(id) => Effect::Show { id: id.clone(), modal: false },
                None => Effect::Idle,
            }
        } else {
            Effect::Idle
        };
        if self.show_detail_pane {
            self.say("detail pane on");
        } else {
            self.say("detail pane off");
        }
        r
    }

    /// The outcome of `bd show <id>`: into the overlay when `modal`, else
    /// into the inline pane (where failures stay silent).
    pub fn shown(&mut self, id: &str, modal: bool, r: Result<Option<Bead>, BridgeError>)
        ensures
            match r {
                Ok(Some(bead)) => if modal {
                    *final(self) == (App {
                        detail: Some(bead),
                        overlay: Overlay::Detail,
                        ..*old(self)
                    })
                } else {
                    *final(self) == (App { detail: Some(bead), ..*old(self) })
                },
                Ok(None) => if modal {
                    says(*old(self), *final(self), id@ + ": bd show returned empty"@)
                } else {
                    *final(self) == *old(self)
                },
                Err(e) => if modal {
                    says(*old(self), *final(self), "show "@ + id@ + ": "@ + e.message_spec())
                } else {
                    *final(self) == *old(self)
                },
            },
    {
        match r {
            Ok(Some(bead)) => {
                self.detail = Some(bead);
                if modal {
                    self.overlay = Overlay::Detail;
                }
            },
            Ok(None) => {
                if modal {
                    let mut msg = String::from_str(id);
                    msg.append(": bd show returned empty");
                    self.status_msg = msg;
                }
            },
            Err(e) => {
                if modal {
                    let mut msg = String::from_str("show ");
                    msg.append(id);
                    msg.append(": ");
                    msg.append(e.message().as_str());
                    self.status_msg = msg;
                }
            },
        }
    }

    /// `c`: `bd update <id> --claim` for the selected bead.
    pub fn claim_selected(&mut self) -> (r: Effect)
        ensures
            claimed(*old(self), *final(self), r),
    {
        match self.selected_index() {
            None => {
                self.say("nothing selected");
                Effect::Idle
            },
            Some(p) => {
                let id = self.beads[p].id.as_str();
                let mut label = String::from_str("claim ");
                label.append(id);
                Effect::Write { label, args: crate::bd::argv_claim(id) }
            },
        }
    }

    /// A digit in the status picker: `bd update <id> -s <status>` for the
    /// status at `index` of the choices.
    pub fn pick_status(&mut self, index: usize) -> (r: Effect)
        ensures
            status_picked(*old(self), *final(self), index, r),
    {
        self.overlay = Overlay::Nothing;
        let choices = self.statuses();
        if index >= choices.len() {
            self.say("no such status");
            return Effect::Idle;
        }
        let status = choices[index].as_str();
        assert(status@ == views(choices@)[index as int]);
        match &self.selected {
            None => Effect::Idle,
            Some(id) => {
                let mut label = String::from_str("status ");
                label.append(id.as_str());
                label.append(" -> ");
                label.append(status);
                Effect::Write { label, args: crate::bd::argv_set_status(id.as_str(), status) }
            },
        }
    }

    /// A digit in the priority picker: `bd update <id> -p <priority>`.
    pub fn pick_priority(&mut self, priority: u8) -> (r: Effect)
        ensures
            priority_picked(*old(self), *final(self), priority, r),
    {
        self.overlay = Overlay::Nothing;
        if priority > 4 {
            self.say("priority must be 0-4");
            return Effect::Idle;
        }
        match &self.selected {
            None => Effect::Idle,
            Some(id) => {
                let mut label = String::from_str("priority ");
                label.append(id.as_str());
                label.append(" -> ");
                label.append(u64_text(priority as u64).as_str());
                Effect::Write { label, args: crate::bd::argv_set_priority(id.as_str(), priority) }
            },
        }
    }

    /// `A`: assign the selection to a live pane; the panes are refreshed
    /// first.
    pub fn open_assign(&mut self) -> (r: Effect)
        ensures
            assign_opened(*old(self), *final(self), r),
    {
        if self.selected.is_none() {
            self.say("nothing selected");
            return Effect::Idle;
        }
        Effect::RefreshPanes
    }

    /// After the panes were refreshed for `A`: the picker opens on the
    /// active pane (else the first), or the user learns there is none.
    pub fn assign_ready(&mut self)
        ensures
            old(self).live_panes@.len() == 0 ==> says(
                *old(self),
                *final(self),
                "no live cmux panes. Launch from cmux or set CMUX_TUI_SOCKET."@,
            ),
            old(self).live_panes@.len() > 0 ==> *final(self) == (App {
                assign_index: match first_index(old(self).live_panes@, is_active_pane()) {
                    Some(k) => k as usize,
                    None => 0,
                },
                overlay: Overlay::Assign,
                ..*old(self)
            }),
    {
        if self.live_panes.len() == 0 {
            self.say("no live cmux panes. Launch from cmux or set CMUX_TUI_SOCKET.");
            return;
        }
        let mut k: usize = 0;
        while k < self.live_panes.len()
            invariant
                k <= self.live_panes@.len(),
                forall|j: int| 0 <= j < k ==> !is_active_pane()(#[trigger] self.live_panes@[j]),
            ensures
                k <= self.live_panes@.len(),
                forall|j: int| 0 <= j < k ==> !is_active_pane()(#[trigger] self.live_panes@[j]),
                k < self.live_panes@.len() ==> self.live_panes@[k as int].active,
            decreases self.live_panes@.len() - k,
        {
            if self.live_panes[k].active {
                break;
            }
            k = k + 1;
        }
        proof {
            lemma_first_index(self.live_panes@, is_active_pane(), k as int);
        }
        self.assign_index = if k < self.live_panes.len() {
            k
        } else {
            0
        };
        self.overlay = Overlay::Assign;
    }

    /// `Enter` in the assign picker: `bd update <id> -a cmux:<ws>/<pane>`.
    pub fn confirm_assign(&mut self) -> (r: Effect)
        ensures
            assign_confirmed(*old(self), *final(self), r),
    {
        if self.assign_index >= self.live_panes.len() {
            self.say("no live pane");
            return Effect::Idle;
        }
        let who = self.live_panes[self.assign_index].assignee();
        let where_ = self.live_panes[self.assign_index].label();
        let id = match &self.selected {
            Some(id) => id.clone(),
            None => {
                return Effect::Idle;
            },
        };
        self.overlay = Overlay::Nothing;
        let mut label = String::from_str("assign ");
        label.append(id.as_str());
        label.append(" -> ");
        label.append(where_.as_str());
        label.append(" (");
        label.append(who.as_str());
        label.append(")");
        let args = crate::bd::argv_set_assignee(id.as_str(), who.as_str());
        Effect::Write { label, args }
    }

    /// `Enter` in a prompt: commit the filter, or write the trimmed text.
    pub fn submit_prompt(&mut self) -> (r: Effect)
        ensures
            submit_prompt_spec(*old(self), *final(self), r),
    {
        match self.overlay {
            Overlay::Filter => {
                self.filter = self.prompt.clone();
                self.overlay = Overlay::Nothing;
                self.prompt = String::new();
                self.select_first_row();
                Effect::Idle
            },
            Overlay::CloseReason => self.write_prompt("close needs a reason"),
            Overlay::Note => self.write_prompt("note is empty"),
            Overlay::Comment => self.write_prompt("comment is empty"),
            _ => Effect::Idle,
        }
    }

    /// Select the first visible row (nothing when none is visible).
    fn select_first_row(&mut self)
        ensures
            *final(self) == (App { selected: final(self).selected, ..*old(self) }),
            first_row_selected(*final(self)),
    {
        let rows = self.visible_rows();
        let ghost a = *self;
        if rows.len() == 0 {
            self.selected = None;
        } else {
            let id = self.beads[rows[0]].id.clone();
            self.selected = Some(id);
        }
        assert(rows_spec(*self, rows@));
    }

    fn write_prompt(&mut self, complaint: &str) -> (r: Effect)
        requires
            old(self).overlay == Overlay::CloseReason || old(self).overlay == Overlay::Note
                || old(self).overlay == Overlay::Comment,
        ensures
            prompt_written(*old(self), *final(self), r, complaint@),
    {
        let text = String::from_str(trim_str(self.prompt.as_str()));
        if text.as_str().is_empty() {
            self.say(complaint);
            return Effect::Idle;
        }
        let id = match &self.selected {
            Some(id) => id.clone(),
            None => {
                return Effect::Idle;
            },
        };
        let kind = self.overlay;
        self.overlay = Overlay::Nothing;
        self.prompt = String::new();
        let (verb, args) = match kind {
            Overlay::CloseReason => ("close ", crate::bd::argv_close(id.as_str(), text.as_str())),
            Overlay::Note => ("note ", crate::bd::argv_note(id.as_str(), text.as_str())),
            _ => ("comment ", crate::bd::argv_comment(id.as_str(), text.as_str())),
        };
        let mut label = String::from_str(verb);
        label.append(id.as_str());
        Effect::Write { label, args }
    }

    /// A typed character: into the form while it is open, else the prompt.
    pub fn prompt_push(&mut self, ch: char)
        ensures
            pushed(*old(self), *final(self), ch),
    {
        if self.overlay == Overlay::Create {
            self.form.input_char(ch);
            return;
        }
        crate::text::push_char(&mut self.prompt, ch);
    }

    /// Backspace: in the form while it is open, else in the prompt.
    pub fn prompt_backspace(&mut self)
        ensures
            backspaced(*old(self), *final(self)),
    {
        if self.overlay == Overlay::Create {
            self.form.backspace();
            return;
        }
        crate::text::pop_char(&mut self.prompt);
    }

    /// `a`: an empty create form.
    pub fn open_create(&mut self)
        ensures
            create_opened(*old(self), *final(self)),
    {
        self.form = BeadForm::new(self.epics());
        self.overlay = Overlay::Create;
    }

    /// `e`: the form filled from the selected bead.
    pub fn open_edit(&mut self)
        ensures
            edit_opened(*old(self), *final(self)),
    {
        let p = match self.selected_index() {
            Some(p) => p,
            None => {
                self.say("nothing selected");
                return;
            },
        };
        let mut form = BeadForm::new(self.epics());
        let bead = &self.beads[p];
        form.edit_id = Some(bead.id.clone());
        form.title = bead.title.clone();
        form.description = bead.description.clone();
        form.assignee = match bead.assignee_raw() {
            Some(x) => String::from_str(x),
            None => String::new(),
        };
        let labels = bead.label_list();
        form.labels = join_strings(&labels, ",");
        form.priority = bead.priority;
        form.type_index = type_position_of(bead.issue_type.as_str());
        form.epic_idx = match &bead.parent {
            Some(parent) => match epic_position(&form.epics, parent.as_str()) {
                Some(k) => k + 1,
                None => 0,
            },
            None => 0,
        };
        self.form = form;
        self.overlay = Overlay::Create;
    }

    /// `Enter` in the form: `bd create` or `bd update` with its fields.
    pub fn submit_form(&mut self) -> (r: Effect)
        ensures
            submit_form_spec(*old(self), *final(self), r),
    {
        let title = String::from_str(trim_str(self.form.title.as_str()));
        if title.as_str().is_empty() {
            self.say("title is required");
            return Effect::Idle;
        }
        self.overlay = Overlay::Nothing;
        let nb = NewBead {
            title: title.as_str(),
            issue_type: self.form.issue_type(),
            priority: self.form.priority,
            description: self.form.description.as_str(),
            assignee: self.form.assignee.as_str(),
            parent: self.form.parent_id(),
            labels: self.form.labels.as_str(),
            deferred: self.form.deferred,
        };
        assert(nb@ == form_fields(self.form, title@));
        match &self.form.edit_id {
            Some(id) => {
                let args = crate::bd::argv_update(id.as_str(), &nb);
                Effect::Update { id: id.clone(), args, deferred: self.form.deferred }
            },
            None => {
                let args = crate::bd::argv_create(&nb);
                Effect::Create { title: title.clone(), args, deferred: self.form.deferred }
            },
        }
    }

    /// The outcome of `bd create` (its trimmed output, the new id when `bd`
    /// printed one): the new bead is selected and the board reloads.
    pub fn created(&mut self, title: &str, r: Result<String, BridgeError>) -> (e: Effect)
        ensures
            match r {
                Ok(id) => *final(self) == (App {
                    selected: final(self).selected,
                    status_msg: final(self).status_msg,
                    ..*old(self)
                }) && final(self).status_msg@ == (if id@.len() == 0 {
                    "created "@ + title@
                } else {
                    "created "@ + id@
                }) && (id@.len() == 0 ==> final(self).selected == old(self).selected) && (id@.len() > 0
                    ==> final(self).selected is Some && final(self).selected->0@ == trimmed(
                    before_first(id@, "\n"@),
                )) && e is Reload,
                Err(err) => says(*old(self), *final(self), "create failed: "@ + err.message_spec())
                    && e is Idle,
            },
    {
        match r {
            Ok(id) => {
                let mut msg = String::from_str("created ");
                if id.as_str().is_empty() {
                    msg.append(title);
                } else {
                    msg.append(id.as_str());
                    let first = crate::text::before_first_ref(id.as_str(), "\n");
                    self.selected = Some(String::from_str(trim_str(first)));
                }
                self.status_msg = msg;
                Effect::Reload
            },
            Err(err) => {
                let mut msg = String::from_str("create failed: ");
                msg.append(err.message().as_str());
                self.status_msg = msg;
                Effect::Idle
            },
        }
    }

    /// The outcome of `bd update` from the form: the bead stays selected and
    /// the board reloads.
    pub fn updated(&mut self, id: &str, r: Result<(), BridgeError>) -> (e: Effect)
        ensures
            match r {
                Ok(()) => *final(self) == (App {
                    selected: final(self).selected,
                    status_msg: final(self).status_msg,
                    ..*old(self)
                }) && final(self).status_msg@ == "updated "@ + id@ && final(self).selected is Some
                    && final(self).selected->0@ == id@ && e is Reload,
                Err(err) => says(*old(self), *final(self), "update failed: "@ + err.message_spec())
                    && e is Idle,
            },
    {
        match r {
            Ok(()) => {
                let mut msg = String::from_str("updated ");
                msg.append(id);
                self.status_msg = msg;
                self.selected = Some(String::from_str(id));
                Effect::Reload
            },
            Err(err) => {
                let mut msg = String::from_str("update failed: ");
                msg.append(err.message().as_str());
                self.status_msg = msg;
                Effect::Idle
            },
        }
    }

    /// At start: a missing `bd` is marked (the board shows how to install
    /// it).
    pub fn mark_probe(&mut self, r: Result<(), BridgeError>)
        ensures
            r == Err::<(), BridgeError>(BridgeError::Missing) ==> *final(self) == (App {
                health: Health::BdMissing,
                status_msg: final(self).status_msg,
                ..*old(self)
            }) && final(self).status_msg@
                == "bd is not on PATH. Install beads v0.60+ and press r to retry."@,
            r != Err::<(), BridgeError>(BridgeError::Missing) ==> *final(self) == *old(self),
    {
        match r {
            Err(BridgeError::Missing) => {
                self.health = Health::BdMissing;
                self.say("bd is not on PATH. Install beads v0.60+ and press r to retry.");
            },
            _ => {},
        }
    }

    /// Whether a reload must first look for `bd` again.
    pub fn reload_needs_probe(&self) -> (r: bool)
        ensures
            r == (self.health == Health::BdMissing),
    {
        match self.health {
            Health::BdMissing => true,
            _ => false,
        }
    }

    /// The outcome of looking for `bd` during a reload. Returns whether the
    /// reload goes on to load the board.
    pub fn probed(&mut self, r: Result<(), BridgeError>) -> (go: bool)
        ensures
            go == r is Ok,
            match r {
                Ok(()) => *final(self) == (App {
                    health: if old(self).connected {
                        Health::Ready
                    } else {
                        Health::Standalone
                    },
                    status_msg: final(self).status_msg,
                    ..*old(self)
                }) && final(self).status_msg@ == "bd found"@,
                Err(BridgeError::Missing) => *final(self) == (App {
                    beads: final(self).beads,
                    ..*old(self)
                }) && final(self).beads@.len() == 0,
                Err(e) => says(*old(self), *final(self), e.message_spec()),
            },
    {
        match r {
            Ok(()) => {
                self.health = if self.connected {
                    Health::Ready
                } else {
                    Health::Standalone
                };
                self.say("bd found");
                true
            },
            Err(BridgeError::Missing) => {
                self.beads = Vec::new();
                false
            },
            Err(e) => {
                self.status_msg = e.message();
                false
            },
        }
    }

    /// What a reload lists: `bd ready` in ready mode, `bd list` otherwise.
    pub fn list_mode(&self) -> (r: ListMode)
        ensures
            r == if self.ready_only {
                ListMode::Ready
            } else {
                ListMode::All
            },
    {
        if self.ready_only {
            ListMode::Ready
        } else {
            ListMode::All
        }
    }

    /// The outcome of loading the board. Selection is kept by id. Returns
    /// whether the board was refreshed.
    pub fn loaded(&mut self, r: Result<Vec<Bead>, BridgeError>) -> (refreshed: bool)
        ensures
            refreshed == r is Ok,
            match r {
                Ok(beads) => reloaded(*old(self), *final(self), beads@),
                Err(BridgeError::Missing) => *final(self) == (App {
                    health: Health::BdMissing,
                    beads: final(self).beads,
                    status_msg: final(self).status_msg,
                    ..*old(self)
                }) && final(self).beads@.len() == 0 && final(self).status_msg@
                    == BridgeError::Missing.message_spec(),
                Err(e) => says(*old(self), *final(self), e.message_spec() + " · cwd "@ + old(self).cwd@),
            },
    {
        match r {
            Ok(beads) => {
                self.take_beads(beads);
                self.note_count();
                true
            },
            Err(BridgeError::Missing) => {
                self.health = Health::BdMissing;
                self.beads = Vec::new();
                self.status_msg = BridgeError::Missing.message();
                false
            },
            Err(e) => {
                let mut msg = e.message();
                msg.append(" · cwd ");
                msg.append(self.cwd.as_str());
                self.status_msg = msg;
                false
            },
        }
    }

    /// No socket to attach to (none in the environment, or `--cwd` given):
    /// the board runs standalone.
    pub fn standalone(&mut self)
        ensures
            *final(self) == (App {
                cwd_source: final(self).cwd_source,
                health: healthy(*old(self), false),
                ..*old(self)
            }),
            final(self).cwd_source@ == if old(self).forced_cwd {
                "flag"@
            } else {
                "process"@
            },
    {
        self.cwd_source = if self.forced_cwd {
            String::from_str("flag")
        } else {
            String::from_str("process")
        };
        match self.health {
            Health::BdMissing => {},
            _ => {
                self.health = Health::Standalone;
            },
        }
    }

    /// Attached to the socket; `cwd` is the focused pane's directory, or why
    /// it could not be resolved.
    pub fn attached(&mut self, cwd: Result<String, String>)
        ensures
            match cwd {
                Ok(path) => *final(self) == (App {
                    cwd: path,
                    cwd_source: final(self).cwd_source,
                    connected: true,
                    reconnect_delay_ms: INITIAL_RECONNECT_MS,
                    health: healthy(*old(self), true),
                    ..*old(self)
                }) && final(self).cwd_source@ == "pane"@,
                Err(err) => *final(self) == (App {
                    cwd_source: final(self).cwd_source,
                    connected: true,
                    health: healthy(*old(self), true),
                    status_msg: final(self).status_msg,
                    ..*old(self)
                }) && final(self).cwd_source@ == "process"@ && final(self).status_msg@
                    == "cwd unresolved ("@ + err@ + "); using process cwd"@,
            },
    {
        match self.health {
            Health::BdMissing => {},
            _ => {
                self.health = Health::Ready;
            },
        }
        self.connected = true;
        match cwd {
            Ok(path) => {
                self.cwd = path;
                self.cwd_source = String::from_str("pane");
                self.reconnect_delay_ms = INITIAL_RECONNECT_MS;
            },
            Err(err) => {
                self.cwd_source = String::from_str("process");
                let mut msg = String::from_str("cwd unresolved (");
                msg.append(err.as_str());
                msg.append("); using process cwd");
                self.status_msg = msg;
            },
        }
    }

    /// The socket is gone (`message` says why). Returns how long to wait
    /// before the next attempt; the wait after that doubles, up to
    /// [`MAX_RECONNECT_MS`].
    pub fn disconnect(&mut self, message: String) -> (wait_ms: u64)
        ensures
            disconnected(*old(self), *final(self), message@),
            wait_ms == old(self).reconnect_delay_ms,
    {
        self.connected = false;
        match self.health {
            Health::BdMissing => {},
            _ => {
                self.health = Health::Reconnecting { message: message.clone() };
            },
        }
        self.status_msg = message;
        let wait = self.reconnect_delay_ms;
        self.reconnect_delay_ms = if wait > MAX_RECONNECT_MS / 2 {
            MAX_RECONNECT_MS
        } else {
            2 * wait
        };
        wait
    }

    /// Connecting to the socket failed with `err`.
    pub fn connect_failed(&mut self, err: &str) -> (wait_ms: u64)
        ensures
            disconnected(*old(self), *final(self), "cannot connect to cmux: "@ + err@),
            wait_ms == old(self).reconnect_delay_ms,
    {
        let mut msg = String::from_str("cannot connect to cmux: ");
        msg.append(err);
        self.disconnect(msg)
    }

    /// A socket request failed with `err`.
    pub fn socket_dropped(&mut self, err: &str) -> (wait_ms: u64)
        ensures
            disconnected(*old(self), *final(self), "cmux socket dropped: "@ + err@),
            wait_ms == old(self).reconnect_delay_ms,
    {
        let mut msg = String::from_str("cmux socket dropped: ");
        msg.append(err);
        self.disconnect(msg)
    }

    /// The focused pane's directory on a refresh: a new one is taken and
    /// named; a failed request drops the socket (and returns the wait).
    pub fn cwd_resolved(&mut self, r: Result<String, String>) -> (wait_ms: Option<u64>)
        ensures
            match r {
                Ok(path) => wait_ms is None && if path@ == old(self).cwd@ {
                    *final(self) == *old(self)
                } else {
                    *final(self) == (App {
                        cwd: path,
                        cwd_source: final(self).cwd_source,
                        status_msg: final(self).status_msg,
                        ..*old(self)
                    }) && final(self).cwd_source@ == "pane"@ && final(self).status_msg@ == "cwd "@
                        + path@
                },
                Err(err) => disconnected(*old(self), *final(self), "cmux socket dropped: "@ + err@)
                    && wait_ms == Some(old(self).reconnect_delay_ms),
            },
    {
        match r {
            Ok(path) => {
                if !str_eq(path.as_str(), self.cwd.as_str()) {
                    let mut msg = String::from_str("cwd ");
                    msg.append(path.as_str());
                    self.cwd = path;
                    self.cwd_source = String::from_str("pane");
                    self.status_msg = msg;
                }
                None
            },
            Err(err) => Some(self.socket_dropped(err.as_str())),
        }
    }

    /// The session tree from the socket: its workspaces and panes.
    pub fn apply_live_tree(&mut self, tree: &crate::sessions::Tree)
        requires
            forall|i: int|
                0 <= i < tree.workspaces@.len() ==> crate::sessions::pane_total(
                    #[trigger] tree.workspaces@[i].screens@,
                ) <= usize::MAX,
        ensures
            *final(self) == (App {
                live_workspaces: final(self).live_workspaces,
                live_panes: final(self).live_panes,
                ..*old(self)
            }),
            final(self).live_workspaces@.len() == tree.workspaces@.len(),
            forall|i: int|
                0 <= i < tree.workspaces@.len() ==> crate::sessions::live_workspace_of(
                    #[trigger] final(self).live_workspaces@[i],
                    tree.workspaces@[i],
                ),
            final(self).live_panes@.len() == crate::sessions::tree_slots(
                *tree,
                tree.workspaces@.len() as int,
            ).len(),
            forall|k: int|
                0 <= k < final(self).live_panes@.len() ==> crate::sessions::live_pane_at(
                    #[trigger] final(self).live_panes@[k],
                    *tree,
                    crate::sessions::tree_slots(*tree, tree.workspaces@.len() as int)[k],
                ),
    {
        self.live_workspaces = crate::sessions::flatten_live_workspaces(tree);
        self.live_panes = crate::sessions::flatten_live_panes(tree);
    }

    /// What a tick does: reconnect when the socket is known, not attached
    /// and due; refresh when due and no prompt or picker is open (a
    /// refresh mid-typing could steal the overlay).
    pub fn tick_plan(&self, socket_known: bool, reconnect_due: bool, refresh_due: bool) -> (r: (
        bool,
        bool,
    ))
        ensures
            r.0 == (!self.connected && socket_known && reconnect_due),
            r.1 == (refresh_due && (self.overlay == Overlay::Nothing || self.overlay == Overlay::Help
                || self.overlay == Overlay::Detail)),
    {
        (!self.connected && socket_known && reconnect_due, refresh_due && !self.overlay_blocks_refresh())
    }

    fn take_beads(&mut self, beads: Vec<Bead>)
        ensures
            *final(self) == (App {
                beads: final(self).beads,
                selected: final(self).selected,
                ..*old(self)
            }),
            final(self).beads@ == beads@,
            reselected(old(self).selected, *final(self)),
    {
        let keep = match &self.selected {
            Some(id) => crate::bd::contains_id(&beads, id.as_str()),
            None => false,
        };
        self.beads = beads;
        if !keep {
            self.select_first_row();
        }
    }

    fn note_count(&mut self)
        ensures
            *final(self) == (App { status_msg: final(self).status_msg, ..*old(self) }),
            final(self).status_msg@ == loaded_message(*old(self), old(self).beads@.len()),
    {
        if self.status_msg.as_str().is_empty() {
            let mut msg = u64_text(self.beads.len() as u64);
            msg.append(" issues from bd ");
            msg.append(
                if self.ready_only {
                    "ready"
                } else {
                    "list"
                },
            );
            msg.append(" --json");
            self.status_msg = msg;
        }
    }

    /// Plain-text board for `--selftest` (no TUI, no socket required).
    pub fn selftest_text(&self) -> (r: String)
        ensures
            self.health == Health::BdMissing ==> r@ == selftest_head(*self) + "bd missing\n"@,
            self.health != Health::BdMissing ==> exists|body: Seq<char>|
                board_text(*self, body) && r@ == selftest_head(*self) + body + selftest_tail(*self),
    {
        let mut out = String::from_str("cwd ");
        out.append(self.cwd.as_str());
        out.append(" (");
        out.append(self.cwd_source.as_str());
        out.append(")\nscope ");
        out.append(self.scope.label());
        out.append("\nview ");
        out.append(self.view.title());
        out.append("\nmode ");
        out.append(
            if self.ready_only {
                "ready"
            } else {
                "list"
            },
        );
        out.append("\n");
        assert(out@ == selftest_head(*self));
        if self.reload_needs_probe() {
            out.append("bd missing\n");
            return out;
        }
        let body = if self.view == BoardView::Kanban {
            let columns = self.kanban();
            let body = kanban_body(self.beads.as_slice(), &columns);
            proof {
                let cv = column_views(columns@);
                assert(kanban_of(*self, cv)) by {
                    assert forall|c: int| 0 <= c < cv.len() implies (#[trigger] cv[c]).0
                        == column_statuses(self.beads@, self.include_closed)[c] && column_positions(
                        self.beads@,
                        query_spec(*self),
                        cv[c].0,
                        cv[c].1,
                    ) by {
                        assert(cv[c] == (columns@[c].0@, columns@[c].1@));
                    }
                }
                assert(board_text(*self, body@));
            }
            body
        } else {
            let rows = self.visible_rows();
            let body = list_body(self.beads.as_slice(), &rows);
            assert(rows_spec(*self, rows@));
            assert(board_text(*self, body@));
            body
        };
        let ghost head = out@;
        out.append(body.as_str());
        let mut tail = String::new();
        if self.beads.len() == 0 {
            tail.append("(empty)\n");
        }
        if self.live_workspaces.len() > 0 {
            tail.append("\nlive workspaces\n");
            tail.append(workspaces_body(&self.live_workspaces).as_str());
        }
        if self.live_panes.len() > 0 {
            tail.append("\nlive panes\n");
            tail.append(panes_body(&self.live_panes).as_str());
        }
        assert(tail@ =~= selftest_tail(*self));
        out.append(tail.as_str());
        assert(out@ =~= head + body@ + selftest_tail(*self));
        out
    }
}

/// Cards are there exactly when some matching bead has the column's status.
proof fn lemma_cards_nonempty(a: App, s: Seq<char>, cards: Seq<usize>)
    requires
        column_positions(a.beads@, query_spec(a), s, cards),
    ensures
        cards.len() > 0 <==> has_cards(a, s),
{
    if cards.len() > 0 {
        let i = cards[0] as int;
        assert(a.beads@[i].status@ == s);
    }
    if has_cards(a, s) {
        let i = choose|i: int|
            0 <= i < a.beads@.len() && #[trigger] a.beads@[i].status@ == s && matches_spec(
                a.beads@[i],
                query_spec(a),
            );
        assert(cards.contains(i as usize));
    }
}

/// Position of `kind` among the issue types, else the first type.
fn type_position_of(kind: &str) -> (r: usize)
    ensures
        r == match first_index(issue_types(), is_text(kind@)) {
            Some(i) => i as usize,
            None => 0,
        },
{
    let mut i: usize = 0;
    while i < 8
        invariant
            i <= 8,
            forall|j: int| 0 <= j < i ==> !is_text(kind@)(#[trigger] issue_types()[j]),
        decreases 8 - i,
    {
        assert(crate::bd::ISSUE_TYPES@[i as int]@ == issue_types()[i as int]);
        if str_eq(crate::bd::ISSUE_TYPES[i], kind) {
            proof {
                lemma_first_index(issue_types(), is_text(kind@), i as int);
            }
            return i;
        }
        i = i + 1;
    }
    proof {
        lemma_first_index(issue_types(), is_text(kind@), 8);
    }
    0
}

/// Index of the epic with `id`.
fn epic_position(epics: &Vec<(String, String)>, id: &str) -> (r: Option<usize>)
    ensures
        match r {
            Some(k) => k < epics.len() && first_index(epic_views(epics@), epic_is(id@)) == Some(k as int),
            None => first_index(epic_views(epics@), epic_is(id@)) is None,
        },
{
    let ghost ev = epic_views(epics@);
    let mut k: usize = 0;
    while k < epics.len()
        invariant
            k <= epics@.len(),
            ev == epic_views(epics@),
            ev.len() == epics@.len(),
            forall|j: int| 0 <= j < k ==> !epic_is(id@)(#[trigger] ev[j]),
        decreases epics@.len() - k,
    {
        assert(ev[k as int] == (epics@[k as int].0@, epics@[k as int].1@));
        if str_eq(epics[k].0.as_str(), id) {
            proof {
                lemma_first_index(ev, epic_is(id@), k as int);
            }
            return Some(k);
        }
        k = k + 1;
    }
    proof {
        lemma_first_index(ev, epic_is(id@), k as int);
    }
    None
}

fn card_text(b: &Bead) -> (r: String)
    ensures
        r@ == card_line(*b),
{
    let mut out = String::from_str("  P");
    out.append(u64_text(b.priority as u64).as_str());
    out.append(" ");
    out.append(b.id.as_str());
    out.append(" ");
    out.append(b.title.as_str());
    out.append("\n");
    out
}

fn list_body(beads: &[Bead], rows: &Vec<usize>) -> (r: String)
    requires
        forall|k: int| 0 <= k < rows@.len() ==> (rows@[k] as int) < beads@.len(),
    ensures
        r@ == list_text(beads@, rows@),
{
    let mut out = String::new();
    let mut last = String::new();
    let mut k: usize = 0;
    while k < rows.len()
        invariant
            k <= rows@.len(),
            forall|t: int| 0 <= t < rows@.len() ==> (rows@[t] as int) < beads@.len(),
            out@ == list_text(beads@, rows@.subrange(0, k as int)),
            last@ == last_status(beads@, rows@.subrange(0, k as int)),
        decreases rows@.len() - k,
    {
        let b = &beads[rows[k]];
        let ghost pre = rows@.subrange(0, k as int);
        let ghost cur = rows@.subrange(0, k + 1);
        assert(cur.drop_last() =~= pre);
        assert(cur.last() == rows@[k as int]);
        if !str_eq(b.status.as_str(), last.as_str()) {
            out.append("\n[");
            out.append(b.status.as_str());
            out.append("]\n");
        }
        out.append(card_text(b).as_str());
        last = b.status.clone();
        k = k + 1;
    }
    assert(rows@.subrange(0, rows@.len() as int) =~= rows@);
    out
}

fn cards_body(beads: &[Bead], cards: &Vec<usize>) -> (r: String)
    requires
        forall|k: int| 0 <= k < cards@.len() ==> (cards@[k] as int) < beads@.len(),
    ensures
        r@ == cards_text(beads@, cards@),
{
    let mut out = String::new();
    let mut k: usize = 0;
    while k < cards.len()
        invariant
            k <= cards@.len(),
            forall|t: int| 0 <= t < cards@.len() ==> (cards@[t] as int) < beads@.len(),
            out@ == cards_text(beads@, cards@.subrange(0, k as int)),
        decreases cards@.len() - k,
    {
        let ghost cur = cards@.subrange(0, k + 1);
        assert(cur.drop_last() =~= cards@.subrange(0, k as int));
        out.append(card_text(&beads[cards[k]]).as_str());
        k = k + 1;
    }
    assert(cards@.subrange(0, cards@.len() as int) =~= cards@);
    out
}

fn kanban_body(beads: &[Bead], columns: &Vec<(String, Vec<usize>)>) -> (r: String)
    requires
        forall|c: int, k: int|
            0 <= c < columns@.len() && 0 <= k < columns@[c].1@.len() ==> (#[trigger] columns@[c].1@[k]
                as int) < beads@.len(),
    ensures
        r@ == kanban_text(beads@, column_views(columns@)),
{
    let ghost cv = column_views(columns@);
    let mut out = String::new();
    let mut c: usize = 0;
    while c < columns.len()
        invariant
            c <= columns@.len(),
            cv == column_views(columns@),
            forall|d: int, k: int|
                0 <= d < columns@.len() && 0 <= k < columns@[d].1@.len() ==> (
                #[trigger] columns@[d].1@[k] as int) < beads@.len(),
            out@ == kanban_text(beads@, cv.subrange(0, c as int)),
        decreases columns@.len() - c,
    {
        let ghost cur = cv.subrange(0, c + 1);
        assert(cur.drop_last() =~= cv.subrange(0, c as int));
        assert(cur.last() == (columns@[c as int].0@, columns@[c as int].1@));
        out.append("\n[");
        out.append(columns[c].0.as_str());
        out.append("]\n");
        let cards = &columns[c].1;
        assert forall|k: int| 0 <= k < cards@.len() implies (cards@[k] as int) < beads@.len() by {
            assert((columns@[c as int].1@[k] as int) < beads@.len());
        }
        out.append(cards_body(beads, cards).as_str());
        c = c + 1;
    }
    assert(cv.subrange(0, columns@.len() as int) =~= cv);
    out
}

fn workspaces_body(ws: &Vec<LiveWorkspace>) -> (r: String)
    ensures
        r@ == workspaces_text(ws@),
{
    let mut out = String::new();
    let mut k: usize = 0;
    while k < ws.len()
        invariant
            k <= ws@.len(),
            out@ == workspaces_text(ws@.subrange(0, k as int)),
        decreases ws@.len() - k,
    {
        let ghost cur = ws@.subrange(0, k + 1);
        assert(cur.drop_last() =~= ws@.subrange(0, k as int));
        let w = &ws[k];
        out.append(
            if w.active {
                "*"
            } else {
                " "
            },
        );
        out.append(" #");
        out.append(u64_text(w.id).as_str());
        out.append(" ");
        out.append(w.name.as_str());
        out.append(" (");
        out.append(u64_text(w.pane_count as u64).as_str());
        out.append(" panes)\n");
        k = k + 1;
    }
    assert(ws@.subrange(0, ws@.len() as int) =~= ws@);
    out
}

fn panes_body(ps: &Vec<LivePane>) -> (r: String)
    ensures
        r@ == panes_text(ps@),
{
    let mut out = String::new();
    let mut k: usize = 0;
    while k < ps.len()
        invariant
            k <= ps@.len(),
            out@ == panes_text(ps@.subrange(0, k as int)),
        decreases ps@.len() - k,
    {
        let ghost cur = ps@.subrange(0, k + 1);
        assert(cur.drop_last() =~= ps@.subrange(0, k as int));
        out.append("  ");
        out.append(ps[k].assignee().as_str());
        out.append(" = ");
        out.append(ps[k].label().as_str());
        out.append("\n");
        k = k + 1;
    }
    assert(ps@.subrange(0, ps@.len() as int) =~= ps@);
    out
}

/// The first column that has a card.
fn first_column_with_cards(columns: &Vec<(String, Vec<usize>)>) -> (r: Option<usize>)
    ensures
        match r {
            Some(c) => c < columns@.len() && columns@[c as int].1@.len() > 0 && forall|d: int|
                0 <= d < c ==> columns@[d].1@.len() == 0,
            None => forall|d: int| 0 <= d < columns@.len() ==> columns@[d].1@.len() == 0,
        },
{
    let mut c: usize = 0;
    while c < columns.len()
        invariant
            c <= columns@.len(),
            forall|d: int| 0 <= d < c ==> columns@[d].1@.len() == 0,
        decreases columns@.len() - c,
    {
        if columns[c].1.len() > 0 {
            return Some(c);
        }
        c = c + 1;
    }
    None
}

/// The first column of `status`.
fn column_index(columns: &Vec<(String, Vec<usize>)>, status: &str) -> (r: Option<usize>)
    ensures
        match r {
            Some(c) => c < columns@.len() && columns@[c as int].0@ == status@,
            None => forall|d: int| 0 <= d < columns@.len() ==> columns@[d].0@ != status@,
        },
{
    let mut c: usize = 0;
    while c < columns.len()
        invariant
            c <= columns@.len(),
            forall|d: int| 0 <= d < c ==> columns@[d].0@ != status@,
        decreases columns@.len() - c,
    {
        if str_eq(columns[c].0.as_str(), status) {
            return Some(c);
        }
        c = c + 1;
    }
    None

}

/// Index into `pos` of the first bead (by position in `beads`) with `id`.
fn position_with_id(beads: &[Bead], pos: &Vec<usize>, id: &str) -> (r: Option<usize>)
    requires
        forall|k: int| 0 <= k < pos@.len() ==> (pos@[k] as int) < beads@.len(),
    ensures
        match r {
            Some(k) => first_index(pos@, id_at(beads@, id@)) == Some(k as int),
            None => first_index(pos@, id_at(beads@, id@)) is None,
        },
{
    let ghost p = id_at(beads@, id@);
    let mut k: usize = 0;
    while k < pos.len()
        invariant
            k <= pos@.len(),
            forall|t: int| 0 <= t < pos@.len() ==> (pos@[t] as int) < beads@.len(),
            p == id_at(beads@, id@),
            forall|j: int| 0 <= j < k ==> !p(#[trigger] pos@[j]),
        decreases pos@.len() - k,
    {
        if str_eq(beads[pos[k]].id.as_str(), id) {
            proof {
                lemma_first_index(pos@, p, k as int);
            }
            return Some(k);
        }
        k = k + 1;
    }
    proof {
        lemma_first_index(pos@, p, k as int);
    }
    None
}

/// A jump lands on a row: among `len > 0` rows it always gives a valid
/// index.
pub proof fn law_jump_in_range(current: int, len: int, delta: int)
    requires
        len > 0,
    ensures
        0 <= jump_spec(current, len, delta) < len,
{
}

/// Moving in the list keeps the selection on a visible row: it is cleared
/// exactly when no row is visible, and otherwise names one of the rows.
pub proof fn law_list_nav_stays_visible(a: App, b: App, delta: int)
    requires
        list_step(a, b, delta),
    ensures
        exists|rows: Seq<usize>|
            rows_spec(a, rows) && (b.selected is None <==> rows.len() == 0) && (b.selected is Some
                ==> exists|k: int| 0 <= k < rows.len() && b.selected->0@ == a.beads@[rows[k] as int].id@),
{
    let rows = choose|rows: Seq<usize>|
        rows_spec(a, rows) && if rows.len() == 0 {
            b.selected is None
        } else {
            b.selected is Some && b.selected->0@ == a.beads@[rows[jump_spec(
                row_pos(a, rows),
                rows.len() as int,
                delta,
            )] as int].id@
        };
    if rows.len() > 0 {
        let k = jump_spec(row_pos(a, rows), rows.len() as int, delta);
        assert(0 <= k < rows.len());
    }
}

/// A reload keeps the selection while its bead is still on the board.
pub proof fn law_reload_keeps_selection(a: App, b: App, beads: Seq<Bead>)
    requires
        reloaded(a, b, beads),
        a.selected is Some,
        has_bead(beads, a.selected->0@),
    ensures
        b.selected == a.selected,
{
}

/// The reconnect wait doubles, never passes the cap, and never shrinks
/// while it is within the cap.
pub proof fn law_backoff_capped(delay: u64)
    ensures
        backoff(delay) <= MAX_RECONNECT_MS,
        2 * delay <= MAX_RECONNECT_MS ==> backoff(delay) == 2 * delay,
        delay <= MAX_RECONNECT_MS ==> delay <= backoff(delay),
{
}

/// Enter in the note prompt writes `bd note <id> <text>`, and in the comment
/// prompt `bd comment <id> <text>`, on the selected bead, the trimmed text
/// one argument.
pub proof fn law_note_and_comment_writes(a: App, b: App, r: Effect)
    requires
        submit_prompt_spec(a, b, r),
        a.overlay == Overlay::Note || a.overlay == Overlay::Comment,
        a.selected is Some,
        trimmed(a.prompt@).len() > 0,
    ensures
        r matches Effect::Write { args, .. } && views(args@) == seq![
            if a.overlay == Overlay::Note { "note"@ } else { "comment"@ },
            a.selected->0@,
            trimmed(a.prompt@),
        ],
        b.overlay == Overlay::Nothing,
{
}

} // verus!
