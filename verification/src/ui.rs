//! What the sidebar views show: their lines, rows and headers as text with
//! a palette role each. Drawing them is left to the terminal front end.

use vstd::prelude::*;

use crate::app::{
    column_views, kanban_of, pane_label, rows_spec, selected_pos, App, Health, Overlay,
};
use crate::board::BoardView;
use crate::form::{issue_types, BeadForm, F_ASSIGNEE, F_BACKLOG, F_DESC, F_EPIC, F_LABELS, F_PRIORITY, F_TITLE, F_TYPE};
use crate::bd::types::{Bead, Dependency};
use crate::json::texts;
use crate::sessions::{find_pane, parse_assignee_spec, LivePane};
use crate::text::{chars_of, decimal, join, join_strings, split_lines, str_lines, string_of, u64_text, views};

verus! {

/// The palette roles of the sidebar.
#[derive(Debug, Clone, Copy, PartialEq, Eq, Structural)]
pub enum Tone {
    /// The terminal's own colours.
    Plain,
    Accent,
    Muted,
    Text,
    Warn,
    /// Failures and blockers.
    Alert,
    /// Success, and assigned beads.
    Good,
    /// The `hooked` status.
    Hooked,
}

/// One line of text in one role.
#[derive(Debug, Clone)]
pub struct TextLine {
    pub text: String,
    pub tone: Tone,
    pub bold: bool,
}

/// A line as text, role and weight.
pub open spec fn line_view(l: TextLine) -> (Seq<char>, Tone, bool) {
    (l.text@, l.tone, l.bold)
}

/// The lines as texts, roles and weights.
pub open spec fn lines_view(ls: Seq<TextLine>) -> Seq<(Seq<char>, Tone, bool)> {
    ls.map_values(|l: TextLine| line_view(l))
}

/// A plain line.
pub open spec fn plain(t: Seq<char>) -> (Seq<char>, Tone, bool) {
    (t, Tone::Plain, false)
}

/// Plain lines of `ts`.
pub open spec fn plain_all(ts: Seq<Seq<char>>) -> Seq<(Seq<char>, Tone, bool)> {
    ts.map_values(|t: Seq<char>| plain(t))
}

/// The colour of a status.
pub open spec fn status_tone_spec(status: Seq<char>) -> Tone {
    if status == "open"@ {
        Tone::Good
    } else if status == "in_progress"@ {
        Tone::Accent
    } else if status == "blocked"@ {
        Tone::Alert
    } else if status == "deferred"@ || status == "closed"@ {
        Tone::Muted
    } else if status == "pinned"@ {
        Tone::Warn
    } else if status == "hooked"@ {
        Tone::Hooked
    } else {
        Tone::Text
    }
}

/// The colour of a status.
pub fn status_tone(status: &str) -> (r: Tone)
    ensures
        r == status_tone_spec(status@),
{
    if crate::text::str_eq(status, "open") {
        Tone::Good
    } else if crate::text::str_eq(status, "in_progress") {
        Tone::Accent
    } else if crate::text::str_eq(status, "blocked") {
        Tone::Alert
    } else if crate::text::str_eq(status, "deferred") || crate::text::str_eq(status, "closed") {
        Tone::Muted
    } else if crate::text::str_eq(status, "pinned") {
        Tone::Warn
    } else if crate::text::str_eq(status, "hooked") {
        Tone::Hooked
    } else {
        Tone::Text
    }
}

/// A status as shown: `_` becomes a space.
pub open spec fn spaced(s: Seq<char>) -> Seq<char> {
    s.map_values(|c: char| if c == '_' { ' ' } else { c })
}

/// A status as shown: `_` becomes a space.
pub fn spaced_status(s: &str) -> (r: String)
    ensures
        r@ == spaced(s@),
{
    let cs = chars_of(s);
    let mut out: Vec<char> = Vec::new();
    let mut i: usize = 0;
    while i < cs.len()
        invariant
            i <= cs@.len(),
            cs@ == s@,
            out@ == spaced(s@.subrange(0, i as int)),
        decreases cs@.len() - i,
    {
        let c = cs[i];
        out.push(if c == '_' { ' ' } else { c });
        assert(spaced(s@.subrange(0, i + 1)) =~= spaced(s@.subrange(0, i as int)).push(
            if c == '_' { ' ' } else { c },
        ));
        i = i + 1;
    }
    assert(s@.subrange(0, cs@.len() as int) =~= s@);
    string_of(&out)
}

/// The bead the detail views show: the fetched one, else the selection.
pub open spec fn detail_bead(a: App) -> Option<Bead> {
    match a.detail {
        Some(b) => Some(b),
        None => match selected_pos(a) {
            Some(p) => Some(a.beads@[p]),
            None => None,
        },
    }
}

/// The live pane a stored assignee names, if it is live.
pub open spec fn assignee_pane(raw: Seq<char>, panes: Seq<LivePane>) -> Option<LivePane> {
    match parse_assignee_spec(raw) {
        Some((w, p)) => match find_pane(panes, w, p) {
            Some(k) => Some(panes[k]),
            None => None,
        },
        None => None,
    }
}

/// A headed section: a blank line, the heading, then the items; nothing
/// for no items.
pub open spec fn section(heading: Seq<char>, items: Seq<Seq<char>>) -> Seq<(Seq<char>, Tone, bool)> {
    if items.len() == 0 {
        seq![]
    } else {
        seq![plain(Seq::empty()), (heading, Tone::Warn, false)] + plain_all(items)
    }
}

/// The detail lines of `b`: id, title, status line, assignee (and its live
/// pane), labels, parent, description, then dependencies, notes and
/// comments when there are any.
pub open spec fn bead_detail(b: Bead, panes: Seq<LivePane>) -> Seq<(Seq<char>, Tone, bool)> {
    let shown = b.assignee_display_spec();
    seq![
        (b.id@, Tone::Accent, true),
        plain(b.title@),
        plain(Seq::empty()),
        plain(b.status@ + "  P"@ + decimal(b.priority as nat) + "  "@ + (if b.issue_type@.len() == 0 {
            "task"@
        } else {
            b.issue_type@
        })),
        plain("assignee "@ + shown),
    ] + (match assignee_pane(shown, panes) {
        Some(p) => seq![("pane "@ + pane_label(p), Tone::Good, false)],
        None => seq![],
    }) + (if b.label_texts().len() > 0 {
        seq![plain("labels "@ + join(b.label_texts(), ", "@))]
    } else {
        seq![]
    }) + (match b.parent {
        Some(par) => seq![plain("parent "@ + par@)],
        None => seq![],
    }) + seq![plain(Seq::empty())] + (if b.description@.len() == 0 {
        seq![("(no description)"@, Tone::Muted, false)]
    } else {
        plain_all(str_lines(b.description@))
    }) + section("dependencies"@, b.dependencies@.map_values(|d: Dependency| d.label_spec()))
        + section("notes"@, texts(b.notes)) + section("comments"@, texts(b.comments))
}

/// The detail lines of the board `a`.
pub open spec fn detail_spec(a: App) -> Seq<(Seq<char>, Tone, bool)> {
    match detail_bead(a) {
        Some(b) => bead_detail(b, a.live_panes@),
        None => seq![("nothing selected"@, Tone::Muted, false)],
    }
}

fn push_line(out: &mut Vec<TextLine>, text: String, tone: Tone, bold: bool)
    ensures
        lines_view(final(out)@) == lines_view(old(out)@).push((text@, tone, bold)),
{
    out.push(TextLine { text, tone, bold });
    assert(lines_view(out@) =~= lines_view(old(out)@).push((text@, tone, bold)));
}

fn push_plain_all(out: &mut Vec<TextLine>, items: &Vec<String>)
    ensures
        lines_view(final(out)@) == lines_view(old(out)@) + plain_all(views(items@)),
{
    let ghost start = lines_view(out@);
    let mut k: usize = 0;
    while k < items.len()
        invariant
            k <= items@.len(),
            lines_view(out@) == start + plain_all(views(items@).subrange(0, k as int)),
        decreases items@.len() - k,
    {
        push_line(out, items[k].clone(), Tone::Plain, false);
        assert(plain_all(views(items@).subrange(0, k + 1)) =~= plain_all(
            views(items@).subrange(0, k as int),
        ).push(plain(items@[k as int]@)));
        k = k + 1;
    }
    assert(views(items@).subrange(0, items@.len() as int) =~= views(items@));
}

fn push_section(out: &mut Vec<TextLine>, heading: &str, items: &Vec<String>)
    ensures
        lines_view(final(out)@) == lines_view(old(out)@) + section(heading@, views(items@)),
{
    if items.len() == 0 {
        assert(lines_view(out@) =~= lines_view(old(out)@) + section(heading@, views(items@)));
        return;
    }
    push_line(out, String::new(), Tone::Plain, false);
    push_line(out, String::from_str(heading), Tone::Warn, false);
    push_plain_all(out, items);
    assert(lines_view(out@) =~= lines_view(old(out)@) + section(heading@, views(items@)));
}

fn dependency_labels(deps: &Vec<Dependency>) -> (r: Vec<String>)
    ensures
        views(r@) == deps@.map_values(|d: Dependency| d.label_spec()),
{
    let mut out: Vec<String> = Vec::new();
    let mut k: usize = 0;
    while k < deps.len()
        invariant
            k <= deps@.len(),
            views(out@) == deps@.subrange(0, k as int).map_values(|d: Dependency| d.label_spec()),
        decreases deps@.len() - k,
    {
        crate::bd::push_arg(&mut out, deps[k].label());
        assert(deps@.subrange(0, k + 1).map_values(|d: Dependency| d.label_spec()) =~= deps@.subrange(
            0,
            k as int,
        ).map_values(|d: Dependency| d.label_spec()).push(deps@[k as int].label_spec()));
        k = k + 1;
    }
    assert(deps@.subrange(0, deps@.len() as int) =~= deps@);
    out
}

/// The detail lines of `bead` against the live panes.
pub fn bead_lines(bead: &Bead, panes: &Vec<LivePane>) -> (r: Vec<TextLine>)
    ensures
        lines_view(r@) == bead_detail(*bead, panes@),
{
    let mut out: Vec<TextLine> = Vec::new();
    push_line(&mut out, bead.id.clone(), Tone::Accent, true);
    push_line(&mut out, bead.title.clone(), Tone::Plain, false);
    push_line(&mut out, String::new(), Tone::Plain, false);
    let mut head = bead.status.clone();
    head.append("  P");
    head.append(u64_text(bead.priority as u64).as_str());
    head.append("  ");
    head.append(if bead.issue_type.as_str().is_empty() { "task" } else { bead.issue_type.as_str() });
    push_line(&mut out, head, Tone::Plain, false);
    let shown = bead.assignee_display();
    let mut who = String::from_str("assignee ");
    who.append(shown);
    push_line(&mut out, who, Tone::Plain, false);
    let ghost first = lines_view(out@);
    match crate::sessions::resolve_assignee(shown, panes.as_slice()) {
        Some(pane) => {
            let mut line = String::from_str("pane ");
            line.append(pane.label().as_str());
            push_line(&mut out, line, Tone::Good, false);
        },
        None => {},
    }
    let ghost with_pane = lines_view(out@);
    let labels = bead.label_list();
    if labels.len() > 0 {
        let mut line = String::from_str("labels ");
        line.append(join_strings(&labels, ", ").as_str());
        push_line(&mut out, line, Tone::Plain, false);
    }
    let ghost with_labels = lines_view(out@);
    match &bead.parent {
        Some(par) => {
            let mut line = String::from_str("parent ");
            line.append(par.as_str());
            push_line(&mut out, line, Tone::Plain, false);
        },
        None => {},
    }
    push_line(&mut out, String::new(), Tone::Plain, false);
    let ghost before_text = lines_view(out@);
    if bead.description.as_str().is_empty() {
        push_line(&mut out, String::from_str("(no description)"), Tone::Muted, false);
    } else {
        let paragraphs = split_lines(bead.description.as_str());
        push_plain_all(&mut out, &paragraphs);
    }
    let ghost with_text = lines_view(out@);
    let deps = dependency_labels(&bead.dependencies);
    push_section(&mut out, "dependencies", &deps);
    let notes = bead.note_lines();
    assert(views(notes@) == texts(bead.notes));
    push_section(&mut out, "notes", &notes);
    let comments = bead.comment_lines();
    assert(views(comments@) == texts(bead.comments));
    push_section(&mut out, "comments", &comments);
    assert(lines_view(out@) =~= bead_detail(*bead, panes@));
    out
}

/// The detail pane / modal lines: the fetched bead, else the selection.
pub fn detail_lines(app: &App) -> (r: Vec<TextLine>)
    ensures
        lines_view(r@) == detail_spec(*app),
{
    match &app.detail {
        Some(b) => bead_lines(b, &app.live_panes),
        None => match app.selected_bead() {
            Some(b) => bead_lines(b, &app.live_panes),
            None => {
                let mut out: Vec<TextLine> = Vec::new();
                push_line(&mut out, String::from_str("nothing selected"), Tone::Muted, false);
                assert(lines_view(out@) =~= detail_spec(*app));
                out
            },
        },
    }
}

/// `text` cut to at most `max` characters by dropping its middle: the first
/// `max / 2` characters, `…`, and the last `max - max / 2 - 1` characters.
pub open spec fn middle_truncated(text: Seq<char>, max: nat) -> Seq<char> {
    if max == 0 {
        Seq::<char>::empty()
    } else if text.len() <= max {
        text
    } else if max <= 1 {
        seq!['…']
    } else {
        let head = max / 2;
        let tail = max - head - 1;
        text.subrange(0, head as int).push('…') + text.subrange(text.len() - tail, text.len() as int)
    }
}

/// Shorten `text` to `max` characters, keeping both ends.
pub fn truncate_middle(text: &str, max: usize) -> (r: String)
    ensures
        r@ == middle_truncated(text@, max as nat),
{
    if max == 0 {
        return String::new();
    }
    let chars = chars_of(text);
    if chars.len() <= max {
        return String::from_str(text);
    }
    if max <= 1 {
        let mut one: Vec<char> = Vec::new();
        one.push('…');
        assert(one@ =~= seq!['…']);
        return string_of(&one);
    }
    let head = max / 2;
    let tail = max - (head + 1);
    let mut out: Vec<char> = Vec::new();
    let mut i: usize = 0;
    while i < head
        invariant
            head < chars@.len(),
            i <= head,
            out@ == chars@.subrange(0, i as int),
        decreases head - i,
    {
        out.push(chars[i]);
        i = i + 1;
    }
    out.push('…');
    let start = chars.len() - tail;
    let mut j: usize = start;
    let ghost mid = out@;
    while j < chars.len()
        invariant
            start <= j <= chars@.len(),
            out@ == mid + chars@.subrange(start as int, j as int),
        decreases chars@.len() - j,
    {
        out.push(chars[j]);
        assert(chars@.subrange(start as int, j + 1) =~= chars@.subrange(start as int, j as int).push(
            chars@[j as int],
        ));
        j = j + 1;
    }
    assert(out@ =~= middle_truncated(text@, max as nat));
    string_of(&out)
}

/// The cursor mark of a form field.
pub open spec fn mark(f: BeadForm, field: u8) -> Seq<char> {
    if f.field == field {
        ">"@
    } else {
        " "@
    }
}

/// The lines of the create / edit form.
pub open spec fn form_spec(f: BeadForm) -> Seq<(Seq<char>, Tone, bool)> {
    seq![
        plain(mark(f, F_TYPE) + " type     "@ + issue_types()[f.type_position()] + "  ← →"@),
        plain(mark(f, F_PRIORITY) + " priority "@ + decimal(f.priority as nat) + "  ← →"@),
        plain(mark(f, F_TITLE) + " title    "@ + f.title@ + "█"@),
        plain(mark(f, F_DESC) + " desc     "@ + f.description@),
        plain(mark(f, F_ASSIGNEE) + " assignee "@ + f.assignee@),
        plain(mark(f, F_EPIC) + " epic     "@ + f.epic_label_spec()),
        plain(mark(f, F_LABELS) + " labels   "@ + f.labels@),
        plain(mark(f, F_BACKLOG) + " backlog  "@ + (if f.deferred {
            "yes"@
        } else {
            "no"@
        }) + "  (space)"@),
        plain(Seq::empty()),
        ("types: "@ + join(issue_types(), " "@), Tone::Muted, false),
        ("Tab field · Enter save · Esc cancel"@, Tone::Muted, false),
    ]
}

fn field_line(f: &BeadForm, field: u8, name: &str, value: &str, after: &str) -> (r: String)
    ensures
        r@ == mark(*f, field) + name@ + value@ + after@,
{
    let mut out = String::from_str(if f.field == field { ">" } else { " " });
    out.append(name);
    out.append(value);
    out.append(after);
    out
}

/// The lines of the create / edit form.
pub fn form_lines(f: &BeadForm) -> (r: Vec<TextLine>)
    ensures
        lines_view(r@) == form_spec(*f),
{
    proof {
        reveal_strlit("");
    }
    let mut out: Vec<TextLine> = Vec::new();
    push_line(&mut out, field_line(f, F_TYPE, " type     ", f.issue_type(), "  ← →"), Tone::Plain, false);
    let prio = u64_text(f.priority as u64);
    push_line(&mut out, field_line(f, F_PRIORITY, " priority ", prio.as_str(), "  ← →"), Tone::Plain, false);
    push_line(&mut out, field_line(f, F_TITLE, " title    ", f.title.as_str(), "█"), Tone::Plain, false);
    push_line(&mut out, field_line(f, F_DESC, " desc     ", f.description.as_str(), ""), Tone::Plain, false);
    push_line(&mut out, field_line(f, F_ASSIGNEE, " assignee ", f.assignee.as_str(), ""), Tone::Plain, false);
    let epic = f.epic_label();
    push_line(&mut out, field_line(f, F_EPIC, " epic     ", epic.as_str(), ""), Tone::Plain, false);
    push_line(&mut out, field_line(f, F_LABELS, " labels   ", f.labels.as_str(), ""), Tone::Plain, false);
    push_line(
        &mut out,
        field_line(f, F_BACKLOG, " backlog  ", if f.deferred { "yes" } else { "no" }, "  (space)"),
        Tone::Plain,
        false,
    );
    push_line(&mut out, String::new(), Tone::Plain, false);
    let kinds = crate::bd::owned(&crate::bd::ISSUE_TYPES);
    assert(views(kinds@) =~= issue_types());
    let mut types = String::from_str("types: ");
    types.append(join_strings(&kinds, " ").as_str());
    push_line(&mut out, types, Tone::Muted, false);
    push_line(&mut out, String::from_str("Tab field · Enter save · Esc cancel"), Tone::Muted, false);
    assert(lines_view(out@) =~= form_spec(*f));
    out
}

/// The form's frame title.
pub fn form_title(f: &BeadForm) -> (r: &'static str)
    ensures
        r@ == if f.edit_id is Some {
            " bd update "@
        } else {
            " bd create "@
        },
{
    if f.edit_id.is_some() {
        " bd update "
    } else {
        " bd create "
    }
}

/// One kanban column as drawn side by side.
#[derive(Debug, Clone)]
pub struct ColumnView {
    /// ` {status} ({cards}) `, `_` shown as spaces.
    pub title: String,
    pub status: String,
    /// The column of the selection (or of the first column).
    pub focused: bool,
    /// The cards, as positions on the board.
    pub cards: Vec<usize>,
}

/// How the kanban view is drawn.
#[derive(Debug, Clone)]
pub enum KanbanView {
    /// No card anywhere and no visible row: the empty-board message.
    Blank,
    /// Every column side by side (wide sidebars).
    Wide(Vec<ColumnView>),
    /// One column with a `← status →` header (narrow sidebars).
    Narrow { header: String, status: String, cards: Vec<usize> },
}

/// The status the kanban focuses: the selection's, else the first
/// column's, else `open`.
pub open spec fn focus_status(a: App, cols: Seq<(Seq<char>, Seq<usize>)>) -> Seq<char> {
    match selected_pos(a) {
        Some(p) => a.beads@[p].status@,
        None => if cols.len() > 0 {
            cols[0].0
        } else {
            "open"@
        },
    }
}

/// The title of a side-by-side column.
pub open spec fn column_title(status: Seq<char>, n: nat) -> Seq<char> {
    " "@ + spaced(status) + " ("@ + decimal(n) + ") "@
}

/// `r` is how the kanban of `a` is drawn `width` cells wide, given its
/// columns `cols` and its visible rows `rows`.
pub open spec fn kanban_view_spec(
    a: App,
    width: u16,
    cols: Seq<(Seq<char>, Seq<usize>)>,
    rows: Seq<usize>,
    r: KanbanView,
) -> bool {
    let focus = focus_status(a, cols);
    if (forall|c: int| 0 <= c < cols.len() ==> (#[trigger] cols[c]).1.len() == 0) && rows.len() == 0 {
        r is Blank
    } else if width >= 60 && cols.len() >= 2 {
        r matches KanbanView::Wide(v) && v@.len() == cols.len() && forall|c: int|
            0 <= c < cols.len() ==> (#[trigger] v@[c]).title@ == column_title(cols[c].0, cols[c].1.len())
                && v@[c].status@ == cols[c].0 && v@[c].focused == (cols[c].0 == focus) && v@[c].cards@
                == cols[c].1
    } else {
        match crate::text::first_index(cols, column_is(focus)) {
            Some(c) => narrow_is(r, focus, cols[c].1),
            None => if cols.len() > 0 {
                narrow_is(r, focus, cols[0].1)
            } else {
                r is Blank
            },
        }
    }
}

/// Whether a column has status `s`.
pub open spec fn column_is(s: Seq<char>) -> spec_fn((Seq<char>, Seq<usize>)) -> bool {
    |c: (Seq<char>, Seq<usize>)| c.0 == s
}

/// `r` shows one column of `cards` under the header of `status`.
pub open spec fn narrow_is(r: KanbanView, status: Seq<char>, cards: Seq<usize>) -> bool {
    r matches KanbanView::Narrow { header, status: st, cards: cs } && header@ == "← "@ + spaced(status)
        + " →  "@ + decimal(cards.len()) + " cards"@ && st@ == status && cs@ == cards
}

/// How the kanban of `app` is drawn `width` cells wide.
pub fn kanban_view(app: &App, width: u16) -> (r: KanbanView)
    ensures
        exists|cols: Seq<(Seq<char>, Seq<usize>)>, rows: Seq<usize>|
            kanban_of(*app, cols) && rows_spec(*app, rows) && kanban_view_spec(*app, width, cols, rows, r),
{
    let columns = app.kanban();
    let rows = app.visible_rows();
    let ghost cols = column_views(columns@);
    proof {
        assert(kanban_of(*app, cols)) by {
            assert forall|c: int| 0 <= c < cols.len() implies (#[trigger] cols[c]).0
                == crate::board::column_statuses(app.beads@, app.include_closed)[c]
                && crate::board::column_positions(app.beads@, crate::app::query_spec(*app), cols[c].0, cols[c].1) by {
                assert(cols[c] == (columns@[c].0@, columns@[c].1@));
            }
        }
        assert(rows_spec(*app, rows@));
    }
    let mut all_empty = true;
    let mut c: usize = 0;
    while c < columns.len()
        invariant
            c <= columns@.len(),
            cols == column_views(columns@),
            all_empty == forall|d: int| 0 <= d < c ==> (#[trigger] cols[d]).1.len() == 0,
        decreases columns@.len() - c,
    {
        if columns[c].1.len() > 0 {
            assert(cols[c as int].1.len() > 0);
            all_empty = false;
        }
        c = c + 1;
    }
    if all_empty && rows.len() == 0 {
        let r = KanbanView::Blank;
        assert(kanban_view_spec(*app, width, cols, rows@, r));
        return r;
    }
    let focus: String = match app.selected_index() {
        Some(p) => app.beads[p].status.clone(),
        None => if columns.len() > 0 {
            columns[0].0.clone()
        } else {
            String::from_str("open")
        },
    };
    assert(focus@ == focus_status(*app, cols)) by {
        reveal_strlit("open");
        if columns@.len() > 0 {
            assert(cols[0] == (columns@[0].0@, columns@[0].1@));
        }
    }
    if width >= 60 && columns.len() >= 2 {
        let mut views_out: Vec<ColumnView> = Vec::new();
        let mut c: usize = 0;
        while c < columns.len()
            invariant
                c <= columns@.len(),
                cols == column_views(columns@),
                views_out@.len() == c,
                forall|d: int|
                    0 <= d < c ==> (#[trigger] views_out@[d]).title@ == column_title(cols[d].0, cols[d].1.len())
                        && views_out@[d].status@ == cols[d].0 && views_out@[d].focused == (cols[d].0
                        == focus@) && views_out@[d].cards@ == cols[d].1,
            decreases columns@.len() - c,
        {
            let status = &columns[c].0;
            let cards = &columns[c].1;
            assert(cols[c as int] == (status@, cards@));
            let mut title = String::from_str(" ");
            title.append(spaced_status(status.as_str()).as_str());
            title.append(" (");
            title.append(u64_text(cards.len() as u64).as_str());
            title.append(") ");
            let focused = crate::text::str_eq(status.as_str(), focus.as_str());
            views_out.push(ColumnView { title, status: status.clone(), focused, cards: cards.clone() });
            c = c + 1;
        }
        let r = KanbanView::Wide(views_out);
        assert(kanban_view_spec(*app, width, cols, rows@, r));
        return r;
    }
    let mut found: Option<usize> = None;
    let mut c: usize = 0;
    while c < columns.len()
        invariant_except_break
            found is None,
        invariant
            c <= columns@.len(),
            cols == column_views(columns@),
            forall|d: int| 0 <= d < c ==> !column_is(focus@)(#[trigger] cols[d]),
        ensures
            found matches Some(k) ==> k < columns@.len() && crate::text::first_index(cols, column_is(focus@))
                == Some(k as int),
            found is None ==> c >= columns@.len(),
        decreases columns@.len() - c,
    {
        assert(cols[c as int] == (columns@[c as int].0@, columns@[c as int].1@));
        if crate::text::str_eq(columns[c].0.as_str(), focus.as_str()) {
            proof {
                crate::text::lemma_first_index(cols, column_is(focus@), c as int);
            }
            found = Some(c);
            break;
        }
        c = c + 1;
    }
    proof {
        if found is None {
            crate::text::lemma_first_index(cols, column_is(focus@), c as int);
        }
    }
    let k = match found {
        Some(k) => k,
        None => if columns.len() > 0 {
            0
        } else {
            let r = KanbanView::Blank;
            assert(kanban_view_spec(*app, width, cols, rows@, r));
            return r;
        },
    };
    assert(cols[k as int] == (columns@[k as int].0@, columns@[k as int].1@));
    let cards = columns[k].1.clone();
    let mut header = String::from_str("← ");
    header.append(spaced_status(focus.as_str()).as_str());
    header.append(" →  ");
    header.append(u64_text(cards.len() as u64).as_str());
    header.append(" cards");
    let r = KanbanView::Narrow { header, status: focus, cards };
    assert(kanban_view_spec(*app, width, cols, rows@, r));
    r
}

/// One bead row of the list, table and kanban views.
#[derive(Debug, Clone)]
pub struct RowView {
    /// Whether the row is the selection (drawn highlighted).
    pub selected: bool,
    /// Selection marker and priority: `▸P2` or ` P2`.
    pub lead: String,
    /// ` {id}`.
    pub id: String,
    /// `*` when the assignee is a cmux pane, else a space.
    pub flag: String,
    /// ` {title}`, cut in the middle to fit.
    pub title: String,
}

/// The room a row leaves for the title.
pub open spec fn title_room(width: u16, id: Seq<char>) -> nat {
    let used = ((vstd::utf8::encode_utf8(id).len() as usize) as u16) as int + 8;
    if width > used {
        (width - used) as nat
    } else {
        0
    }
}

/// `r` is the row of `b` on the board `a`, `width` cells wide.
pub open spec fn row_spec(a: App, b: Bead, width: u16, r: RowView) -> bool {
    let sel = a.selected is Some && a.selected->0@ == b.id@;
    &&& r.selected == sel
    &&& r.lead@ == (if sel {
        "▸"@
    } else {
        " "@
    }) + "P"@ + decimal(b.priority as nat)
    &&& r.id@ == " "@ + b.id@
    &&& r.flag@ == if parse_assignee_spec(b.assignee_display_spec()) is Some {
        "*"@
    } else {
        " "@
    }
    &&& r.title@ == " "@ + middle_truncated(b.title@, title_room(width, b.id@))
}

/// The row of `bead`, `width` cells wide.
pub fn bead_row(app: &App, bead: &Bead, width: u16) -> (r: RowView)
    requires
        ((vstd::utf8::encode_utf8(bead.id@).len() as usize) as u16) as int + 8 <= u16::MAX,
    ensures
        row_spec(*app, *bead, width, r),
{
    let selected = match &app.selected {
        Some(id) => crate::text::str_eq(id.as_str(), bead.id.as_str()),
        None => false,
    };
    let mut lead = String::from_str(if selected { "▸" } else { " " });
    lead.append("P");
    lead.append(u64_text(bead.priority as u64).as_str());
    let mut id = String::from_str(" ");
    id.append(bead.id.as_str());
    let assigned = crate::sessions::parse_assignee(bead.assignee_display()).is_some();
    let flag = String::from_str(if assigned { "*" } else { " " });
    let id_str = bead.id.as_str();
    let bytes: usize = id_str.len();
    assert(bytes == vstd::utf8::encode_utf8(bead.id@).len() as usize);
    let used: u16 = (#[verifier::truncate] (bytes as u16)) + 8;
    let room: u16 = if width > used { width - used } else { 0 };
    let mut title = String::from_str(" ");
    title.append(truncate_middle(bead.title.as_str(), room as usize).as_str());
    RowView { selected, lead, id, flag, title }
}

/// What a list / table view holds, row by row.
#[derive(Debug, Clone, Copy, PartialEq, Eq, Structural)]
pub enum ListEntry {
    /// A status heading (the list view starts one where the status changes).
    Heading(usize),
    /// A bead row.
    Row(usize),
}

/// The list view of `rows`: each row, after a heading (named by the row's
/// bead) wherever the status changes.
pub open spec fn list_entries_spec(beads: Seq<Bead>, rows: Seq<usize>) -> Seq<ListEntry>
    decreases rows.len(),
{
    if rows.len() == 0 {
        seq![]
    } else {
        let i = rows.last();
        list_entries_spec(beads, rows.drop_last()) + (if beads[i as int].status@
            != crate::app::last_status(beads, rows.drop_last()) {
            seq![ListEntry::Heading(i)]
        } else {
            seq![]
        }) + seq![ListEntry::Row(i)]
    }
}

/// The entries of the list view: rows grouped under status headings.
pub fn list_entries(app: &App) -> (r: Vec<ListEntry>)
    ensures
        exists|rows: Seq<usize>| rows_spec(*app, rows) && r@ == list_entries_spec(app.beads@, rows),
{
    let rows = app.visible_rows();
    let mut out: Vec<ListEntry> = Vec::new();
    let mut last = String::new();
    let mut k: usize = 0;
    while k < rows.len()
        invariant
            k <= rows@.len(),
            forall|t: int| 0 <= t < rows@.len() ==> (rows@[t] as int) < app.beads@.len(),
            out@ == list_entries_spec(app.beads@, rows@.subrange(0, k as int)),
            last@ == crate::app::last_status(app.beads@, rows@.subrange(0, k as int)),
        decreases rows@.len() - k,
    {
        let i = rows[k];
        let ghost pre = rows@.subrange(0, k as int);
        let ghost cur = rows@.subrange(0, k + 1);
        assert(cur.drop_last() =~= pre);
        assert(cur.last() == i);
        if !crate::text::str_eq(app.beads[i].status.as_str(), last.as_str()) {
            out.push(ListEntry::Heading(i));
        }
        out.push(ListEntry::Row(i));
        assert(out@ =~= list_entries_spec(app.beads@, cur));
        last = app.beads[i].status.clone();
        k = k + 1;
    }
    assert(rows@.subrange(0, rows@.len() as int) =~= rows@);
    assert(rows_spec(*app, rows@));
    out
}

/// The column header of the table view.
pub const TABLE_HEADER: &'static str = " P  id         status     title";

/// The message of an empty board: the committed filter matches nothing,
/// or nothing is ready, or there are no issues.
pub fn empty_message(app: &App) -> (r: &'static str)
    ensures
        r@ == if app.filter@.len() > 0 {
            "no issues match filter"@
        } else if app.ready_only {
            "nothing ready. R for all, a to create."@
        } else {
            "no issues. a create · r refresh"@
        },
{
    if !app.filter.as_str().is_empty() {
        "no issues match filter"
    } else if app.ready_only {
        "nothing ready. R for all, a to create."
    } else {
        "no issues. a create · r refresh"
    }
}

/// The header of the board: the health badge, the mode line, and the
/// working directory line.
#[derive(Debug, Clone)]
pub struct HeaderView {
    pub badge: String,
    pub badge_tone: Tone,
    pub mode: String,
    pub cwd_line: String,
}

/// The health badge and its colour.
pub open spec fn badge_spec(h: Health) -> (Seq<char>, Tone) {
    match h {
        Health::Ready => ("cmux"@, Tone::Good),
        Health::Standalone => ("solo"@, Tone::Warn),
        Health::Reconnecting { .. } => ("wait"@, Tone::Warn),
        Health::BdMissing => ("no bd"@, Tone::Alert),
    }
}

/// `r` is the header of `a`, `width` cells wide.
pub open spec fn header_spec(a: App, width: u16, r: HeaderView) -> bool {
    &&& (r.badge@, r.badge_tone) == badge_spec(a.health)
    &&& r.mode@ == " "@ + a.view.title_spec() + " "@ + crate::app::scope_name(a.scope) + " "@ + (if a.ready_only {
        "ready"@
    } else {
        "all"@
    }) + (if a.filter@.len() == 0 {
        Seq::empty()
    } else {
        " /"@ + a.filter@
    }) + (if a.move_mode {
        " move"@
    } else {
        Seq::empty()
    })
    &&& r.cwd_line@ == a.cwd_source@ + " "@ + middle_truncated(a.cwd@, if width > 8 {
        (width - 8) as nat
    } else {
        0
    })
}

/// The header of the board, `width` cells wide.
pub fn header_view(app: &App, width: u16) -> (r: HeaderView)
    ensures
        header_spec(*app, width, r),
{
    let (badge, badge_tone) = match &app.health {
        Health::Ready => ("cmux", Tone::Good),
        Health::Standalone => ("solo", Tone::Warn),
        Health::Reconnecting { .. } => ("wait", Tone::Warn),
        Health::BdMissing => ("no bd", Tone::Alert),
    };
    let mut mode = String::from_str(" ");
    mode.append(app.view.title());
    mode.append(" ");
    mode.append(app.scope.label());
    mode.append(" ");
    mode.append(if app.ready_only { "ready" } else { "all" });
    if !app.filter.as_str().is_empty() {
        mode.append(" /");
        mode.append(app.filter.as_str());
    }
    if app.move_mode {
        mode.append(" move");
    }
    let room: u16 = if width > 8 { width - 8 } else { 0 };
    let mut cwd_line = app.cwd_source.clone();
    cwd_line.append(" ");
    cwd_line.append(truncate_middle(app.cwd.as_str(), room as usize).as_str());
    let r = HeaderView { badge: String::from_str(badge), badge_tone, mode, cwd_line };
    assert((r.badge@, r.badge_tone) == badge_spec(app.health));
    assert(r.cwd_line@ == app.cwd_source@ + " "@ + middle_truncated(app.cwd@, if width > 8 {
        (width - 8) as nat
    } else {
        0
    }));
    assert(r.mode@ =~= " "@ + app.view.title_spec() + " "@ + crate::app::scope_name(app.scope) + " "@ + (if app.ready_only {
        "ready"@
    } else {
        "all"@
    }) + (if app.filter@.len() == 0 {
        Seq::empty()
    } else {
        " /"@ + app.filter@
    }) + (if app.move_mode {
        " move"@
    } else {
        Seq::empty()
    }));
    r
}

/// The footer: the status line (cut to fit), or the row count and key
/// hints; `alert` when the status line reports a failure.
pub open spec fn footer_spec(a: App, width: u16, shown: nat, r: (String, bool)) -> bool {
    &&& r.0@ == if a.status_msg@.len() == 0 {
        decimal(shown) + "/"@ + decimal(a.beads@.len()) + "  K views  A assign  ? help"@
    } else {
        middle_truncated(a.status_msg@, if width > 1 {
            (width - 1) as nat
        } else {
            0
        })
    }
    &&& r.1 == (crate::text::has_infix(a.status_msg@, "failed"@) || crate::text::has_infix(
        a.status_msg@,
        "not on PATH"@,
    ))
}

/// The footer text and whether it reports a failure, `width` cells wide.
pub fn footer_view(app: &App, width: u16) -> (r: (String, bool))
    ensures
        exists|rows: Seq<usize>| rows_spec(*app, rows) && footer_spec(*app, width, rows.len(), r),
{
    let rows = app.visible_rows();
    let text = if app.status_msg.as_str().is_empty() {
        let mut t = u64_text(rows.len() as u64);
        t.append("/");
        t.append(u64_text(app.beads.len() as u64).as_str());
        t.append("  K views  A assign  ? help");
        t
    } else {
        let room: u16 = if width > 1 { width - 1 } else { 0 };
        truncate_middle(app.status_msg.as_str(), room as usize)
    };
    let alert = crate::text::contains_str(app.status_msg.as_str(), "failed")
        || crate::text::contains_str(app.status_msg.as_str(), "not on PATH");
    assert(rows_spec(*app, rows@));
    (text, alert)
}

/// The lines of the assign picker: the assignee format, each live pane
/// (the picked one marked), and the key hints.
pub open spec fn assign_spec(panes: Seq<LivePane>, picked: usize) -> Seq<(Seq<char>, Tone, bool)> {
    seq![("assignee = cmux:{workspace_id}/{pane_id}"@, Tone::Muted, false)] + (if panes.len() == 0 {
        seq![plain("no live panes"@)]
    } else {
        Seq::new(
            panes.len(),
            |k: int|
                plain(
                    (if k == picked {
                        "▸"@
                    } else {
                        " "@
                    }) + " "@ + crate::sessions::assignee_spec(panes[k].workspace_id, panes[k].pane_id)
                        + "  "@ + pane_label(panes[k]),
                ),
        )
    }) + seq![plain(Seq::empty()), ("Enter assign · Esc cancel"@, Tone::Muted, false)]
}

/// The lines of the assign picker.
pub fn assign_lines(app: &App) -> (r: Vec<TextLine>)
    ensures
        lines_view(r@) == assign_spec(app.live_panes@, app.assign_index),
{
    let mut out: Vec<TextLine> = Vec::new();
    push_line(&mut out, String::from_str("assignee = cmux:{workspace_id}/{pane_id}"), Tone::Muted, false);
    let ghost head = lines_view(out@);
    if app.live_panes.len() == 0 {
        push_line(&mut out, String::from_str("no live panes"), Tone::Plain, false);
    } else {
        let ghost panes = app.live_panes@;
        let mut k: usize = 0;
        while k < app.live_panes.len()
            invariant
                k <= panes.len(),
                panes == app.live_panes@,
                lines_view(out@) == head + Seq::new(
                    k as nat,
                    |j: int|
                        plain(
                            (if j == app.assign_index {
                                "▸"@
                            } else {
                                " "@
                            }) + " "@ + crate::sessions::assignee_spec(panes[j].workspace_id, panes[j].pane_id)
                                + "  "@ + pane_label(panes[j]),
                        ),
                ),
            decreases panes.len() - k,
        {
            let pane = &app.live_panes[k];
            let mut line = String::from_str(if k == app.assign_index { "▸" } else { " " });
            line.append(" ");
            line.append(pane.assignee().as_str());
            line.append("  ");
            line.append(pane.label().as_str());
            push_line(&mut out, line, Tone::Plain, false);
            k = k + 1;
        }
    }
    push_line(&mut out, String::new(), Tone::Plain, false);
    push_line(&mut out, String::from_str("Enter assign · Esc cancel"), Tone::Muted, false);
    proof {
        reveal_strlit("");
    }
    assert(lines_view(out@) =~= assign_spec(app.live_panes@, app.assign_index));
    out
}

/// The lines of the status picker: `  {n}  {status}` from 1.
pub open spec fn status_pick_spec(statuses: Seq<Seq<char>>) -> Seq<(Seq<char>, Tone, bool)> {
    Seq::new(statuses.len(), |k: int| plain("  "@ + decimal((k + 1) as nat) + "  "@ + statuses[k]))
}

/// The lines of the status picker.
pub fn status_pick_lines(app: &App) -> (r: Vec<TextLine>)
    ensures
        lines_view(r@) == status_pick_spec(crate::board::status_choices_spec(app.beads@)),
{
    let statuses = app.statuses();
    let ghost all = views(statuses@);
    let mut out: Vec<TextLine> = Vec::new();
    let mut k: usize = 0;
    while k < statuses.len()
        invariant
            k <= statuses@.len(),
            all == views(statuses@),
            lines_view(out@) == Seq::new(k as nat, |j: int| plain("  "@ + decimal((j + 1) as nat) + "  "@ + all[j])),
        decreases statuses@.len() - k,
    {
        let mut line = String::from_str("  ");
        line.append(u64_text(k as u64 + 1).as_str());
        line.append("  ");
        line.append(statuses[k].as_str());
        push_line(&mut out, line, Tone::Plain, false);
        proof {
            assert(lines_view(out@) =~= Seq::new((k + 1) as nat, |j: int| plain("  "@ + decimal((j + 1) as nat) + "  "@ + all[j])));
        }
        k = k + 1;
    }
    assert(lines_view(out@) =~= status_pick_spec(crate::board::status_choices_spec(app.beads@)));
    out
}

/// The lines of the priority picker.
pub fn priority_pick_lines() -> (r: Vec<TextLine>)
    ensures
        lines_view(r@) == seq![
            plain("  0  highest"@),
            plain("  1"@),
            plain("  2  default"@),
            plain("  3"@),
            plain("  4  lowest"@),
        ],
{
    let mut out: Vec<TextLine> = Vec::new();
    push_line(&mut out, String::from_str("  0  highest"), Tone::Plain, false);
    push_line(&mut out, String::from_str("  1"), Tone::Plain, false);
    push_line(&mut out, String::from_str("  2  default"), Tone::Plain, false);
    push_line(&mut out, String::from_str("  3"), Tone::Plain, false);
    push_line(&mut out, String::from_str("  4  lowest"), Tone::Plain, false);
    assert(lines_view(out@) =~= seq![
        plain("  0  highest"@),
        plain("  1"@),
        plain("  2  default"@),
        plain("  3"@),
        plain("  4  lowest"@),
    ]);
    out
}

/// The full-screen notice when `bd` is missing, ending with the status
/// line.
pub open spec fn missing_bd_spec(status: Seq<char>) -> Seq<(Seq<char>, Tone, bool)> {
    seq![
        ("bd is not on PATH"@, Tone::Alert, true),
        plain(Seq::empty()),
        plain("Install beads v0.60+"@),
        ("https://github.com/steveyegge/beads"@, Tone::Accent, false),
        plain(Seq::empty()),
        plain("brew install beads"@),
        plain("or npm i -g @beads/bd"@),
        plain(Seq::empty()),
        plain("The mux stays up."@),
        plain("Press r to retry, q to quit."@),
        plain(Seq::empty()),
        (status, Tone::Muted, false),
    ]
}

/// The lines shown when `bd` is missing.
pub fn missing_bd_lines(app: &App) -> (r: Vec<TextLine>)
    ensures
        lines_view(r@) == missing_bd_spec(app.status_msg@),
{
    proof {
        reveal_strlit("");
    }
    let mut out: Vec<TextLine> = Vec::new();
    push_line(&mut out, String::from_str("bd is not on PATH"), Tone::Alert, true);
    push_line(&mut out, String::new(), Tone::Plain, false);
    push_line(&mut out, String::from_str("Install beads v0.60+"), Tone::Plain, false);
    push_line(&mut out, String::from_str("https://github.com/steveyegge/beads"), Tone::Accent, false);
    push_line(&mut out, String::new(), Tone::Plain, false);
    push_line(&mut out, String::from_str("brew install beads"), Tone::Plain, false);
    push_line(&mut out, String::from_str("or npm i -g @beads/bd"), Tone::Plain, false);
    push_line(&mut out, String::new(), Tone::Plain, false);
    push_line(&mut out, String::from_str("The mux stays up."), Tone::Plain, false);
    push_line(&mut out, String::from_str("Press r to retry, q to quit."), Tone::Plain, false);
    push_line(&mut out, String::new(), Tone::Plain, false);
    push_line(&mut out, app.status_msg.clone(), Tone::Muted, false);
    assert(lines_view(out@) =~= missing_bd_spec(app.status_msg@));
    out
}

/// The title of a text prompt's box.
pub fn prompt_title(overlay: Overlay) -> (r: Option<&'static str>)
    ensures
        r matches Some(t) ==> t@ == match overlay {
            Overlay::Filter => "filter"@,
            Overlay::CloseReason => "close reason"@,
            Overlay::Note => "note"@,
            _ => "comment"@,
        },
        r is Some <==> (overlay == Overlay::Filter || overlay == Overlay::CloseReason || overlay
            == Overlay::Note || overlay == Overlay::Comment),
{
    match overlay {
        Overlay::Filter => Some("filter"),
        Overlay::CloseReason => Some("close reason"),
        Overlay::Note => Some("note"),
        Overlay::Comment => Some("comment"),
        _ => None,
    }
}

/// `s` followed by spaces up to `width` characters (`{:<width}`).
pub open spec fn padded(s: Seq<char>, width: nat) -> Seq<char> {
    if s.len() >= width {
        s
    } else {
        s + Seq::new((width - s.len()) as nat, |i: int| ' ')
    }
}

/// `s` padded with spaces to `width` characters.
pub fn pad_right(s: &str, width: usize) -> (r: String)
    ensures
        r@ == padded(s@, width as nat),
{
    let n = s.unicode_len();
    let mut out = String::from_str(s);
    if n >= width {
        return out;
    }
    let mut k: usize = n;
    while k < width
        invariant
            n <= k <= width,
            n == s@.len(),
            out@ == s@ + Seq::new((k - n) as nat, |i: int| ' '),
        decreases width - k,
    {
        crate::text::push_char(&mut out, ' ');
        assert(out@ =~= s@ + Seq::new((k + 1 - n) as nat, |i: int| ' '));
        k = k + 1;
    }
    out
}

} // verus!
