//! The `bd` bridge: every call is an argv vector, never a shell string.
//!
//! Titles, notes, comments, and close reasons therefore cannot be
//! shell-injected. `bd list --json` (or `bd ready --json`) is the source of
//! truth for the board.

pub mod types;

use vstd::prelude::*;

pub use types::Bead;
use crate::text::{decimal, str_eq, trim_str, trimmed, u64_text, views};

verus! {

/// Well-known `bd` statuses, in board order. Custom statuses from `bd list`
/// are appended after these when they appear.
pub const KNOWN_STATUSES: [&'static str; 7] = [
    "open",
    "in_progress",
    "blocked",
    "deferred",
    "pinned",
    "hooked",
    "closed",
];

/// Issue types offered by the create / edit form.
pub const ISSUE_TYPES: [&'static str; 8] = [
    "task",
    "bug",
    "feature",
    "epic",
    "chore",
    "spike",
    "story",
    "decision",
];

/// How the board should query `bd`.
#[derive(Debug, Clone, Copy, PartialEq, Eq, Structural)]
pub enum ListMode {
    /// `bd list --json` (optionally plus closed).
    All,
    /// `bd ready --json`: issues with no open blockers.
    Ready,
}

/// Repo `.beads` vs `bd --global` (shared-server database).
#[derive(Debug, Clone, Copy, PartialEq, Eq, Structural)]
pub enum Scope {
    Repo,
    Global,
}

impl Scope {
    /// Short label for the header.
    pub fn label(self) -> (r: &'static str)
        ensures
            r@ == (match self {
                Scope::Repo => "repo"@,
                Scope::Global => "global"@,
            }),
    {
        match self {
            Scope::Repo => "repo",
            Scope::Global => "global",
        }
    }

    /// Flip repo and global.
    pub fn toggled(self) -> (r: Self)
        ensures
            r == (match self {
                Scope::Repo => Scope::Global,
                Scope::Global => Scope::Repo,
            }),
    {
        match self {
            Scope::Repo => Scope::Global,
            Scope::Global => Scope::Repo,
        }
    }
}

/// Failure from the `bd` subprocess or its JSON parser.
#[derive(Debug, Clone, PartialEq, Eq)]
pub enum BridgeError {
    /// `bd` is not on PATH and was not found in the usual install locations.
    Missing,
    /// `bd` ran but exited non-zero. `command` is the argv joined for display.
    Failed { command: String, message: String },
    /// stdout was not valid `bd --json` output.
    Parse(String),
}

impl BridgeError {
    /// The text shown for this error.
    pub open spec fn message_spec(self) -> Seq<char> {
        match self {
            BridgeError::Missing => "bd is not on PATH. Install beads v0.60+ from https://github.com/steveyegge/beads then press r to retry."@,
            BridgeError::Failed { command, message } => "bd "@ + command@ + ": "@ + message@,
            BridgeError::Parse(message) => "bd json: "@ + message@,
        }
    }

    /// The text shown for this error (what the error displays as).
    pub fn message(&self) -> (r: String)
        ensures
            r@ == self.message_spec(),
    {
        match self {
            BridgeError::Missing => String::from_str(
                "bd is not on PATH. Install beads v0.60+ from https://github.com/steveyegge/beads then press r to retry.",
            ),
            BridgeError::Failed { command, message } => {
                let mut out = String::from_str("bd ");
                out.append(command.as_str());
                out.append(": ");
                out.append(message.as_str());
                out
            },
            BridgeError::Parse(message) => {
                let mut out = String::from_str("bd json: ");
                out.append(message.as_str());
                out
            },
        }
    }
}

/// Appends one argv element.
pub fn push_arg(args: &mut Vec<String>, s: String)
    ensures
        views(final(args)@) == views(old(args)@).push(s@),
{
    args.push(s);
    assert(views(args@) =~= views(old(args)@).push(s@));
}

/// A vector of owned strings from literals and borrowed text.
pub(crate) fn owned(parts: &[&str]) -> (r: Vec<String>)
    ensures
        views(r@) == parts@.map_values(|x: &str| x@),
{
    let mut out: Vec<String> = Vec::new();
    let mut i: usize = 0;
    while i < parts.len()
        invariant
            i <= parts@.len(),
            views(out@) == parts@.subrange(0, i as int).map_values(|x: &str| x@),
        decreases parts@.len() - i,
    {
        let ghost before = out@;
        let item = String::from_str(parts[i]);
        assert(item@ == parts@[i as int]@);
        out.push(item);
        proof {
            assert(out@ == before.push(item));
            assert(views(out@) =~= views(before).push(item@));
            assert(parts@.subrange(0, i + 1).map_values(|x: &str| x@) =~= parts@.subrange(0, i as int).map_values(|x: &str| x@).push(parts@[i as int]@));
        }
        i = i + 1;
    }
    assert(parts@.subrange(0, parts@.len() as int) =~= parts@);
    out
}

/// Argv for listing the board. Never includes a shell metacharacter join.
pub fn argv_list(mode: ListMode) -> (r: Vec<String>)
    ensures
        views(r@) == (match mode {
            ListMode::All => seq!["list"@, "--json"@],
            ListMode::Ready => seq!["ready"@, "--json"@],
        }),
{
    let r = match mode {
        ListMode::All => owned(&["list", "--json"]),
        ListMode::Ready => owned(&["ready", "--json"]),
    };
    assert(views(r@) =~= (match mode {
        ListMode::All => seq!["list"@, "--json"@],
        ListMode::Ready => seq!["ready"@, "--json"@],
    }));
    r
}

/// Argv for listing closed issues (best-effort merge).
pub fn argv_list_closed() -> (r: Vec<String>)
    ensures
        views(r@) == seq!["list"@, "--status"@, "closed"@, "--json"@],
{
    let r = owned(&["list", "--status", "closed", "--json"]);
    assert(views(r@) =~= seq!["list"@, "--status"@, "closed"@, "--json"@]);
    r
}

/// Argv for `bd show <id> --json`.
pub fn argv_show(id: &str) -> (r: Vec<String>)
    ensures
        views(r@) == seq!["show"@, id@, "--json"@],
{
    let r = owned(&["show", id, "--json"]);
    assert(views(r@) =~= seq!["show"@, id@, "--json"@]);
    r
}

/// Argv for `bd update <id> --claim`.
pub fn argv_claim(id: &str) -> (r: Vec<String>)
    ensures
        views(r@) == seq!["update"@, id@, "--claim"@],
{
    let r = owned(&["update", id, "--claim"]);
    assert(views(r@) =~= seq!["update"@, id@, "--claim"@]);
    r
}

/// Argv for `bd close <id> -r <reason>`. `reason` is one argv element.
pub fn argv_close(id: &str, reason: &str) -> (r: Vec<String>)
    ensures
        views(r@) == seq!["close"@, id@, "-r"@, reason@],
{
    let r = owned(&["close", id, "-r", reason]);
    assert(views(r@) =~= seq!["close"@, id@, "-r"@, reason@]);
    r
}

/// Argv for `bd update <id> -s <status>`.
pub fn argv_set_status(id: &str, status: &str) -> (r: Vec<String>)
    ensures
        views(r@) == seq!["update"@, id@, "-s"@, status@],
{
    let r = owned(&["update", id, "-s", status]);
    assert(views(r@) =~= seq!["update"@, id@, "-s"@, status@]);
    r
}

/// Argv for `bd update <id> -p <priority>`.
pub fn argv_set_priority(id: &str, priority: u8) -> (r: Vec<String>)
    ensures
        views(r@) == seq!["update"@, id@, "-p"@, decimal(priority as nat)],
{
    let mut r = owned(&["update", id, "-p"]);
    push_arg(&mut r, u64_text(priority as u64));
    assert(views(r@) =~= seq!["update"@, id@, "-p"@, decimal(priority as nat)]);
    r
}

/// Argv for `bd update <id> -a <assignee>`.
pub fn argv_set_assignee(id: &str, assignee: &str) -> (r: Vec<String>)
    ensures
        views(r@) == seq!["update"@, id@, "-a"@, assignee@],
{
    let r = owned(&["update", id, "-a", assignee]);
    assert(views(r@) =~= seq!["update"@, id@, "-a"@, assignee@]);
    r
}

/// Argv for `bd note <id> <text>`.
pub fn argv_note(id: &str, text: &str) -> (r: Vec<String>)
    ensures
        views(r@) == seq!["note"@, id@, text@],
{
    let r = owned(&["note", id, text]);
    assert(views(r@) =~= seq!["note"@, id@, text@]);
    r
}

/// Argv for `bd comment <id> <text>`.
pub fn argv_comment(id: &str, text: &str) -> (r: Vec<String>)
    ensures
        views(r@) == seq!["comment"@, id@, text@],
{
    let r = owned(&["comment", id, text]);
    assert(views(r@) =~= seq!["comment"@, id@, text@]);
    r
}

/// Fields for `bd create` / `bd update`. Empty optionals stay out of argv.
#[derive(Debug, Clone)]
pub struct NewBead<'a> {
    pub title: &'a str,
    pub issue_type: &'a str,
    pub priority: u8,
    pub description: &'a str,
    pub assignee: &'a str,
    pub parent: &'a str,
    pub labels: &'a str,
    pub deferred: bool,
}

/// The value of a [`NewBead`], its texts as character sequences.
pub struct BeadFields {
    pub title: Seq<char>,
    pub issue_type: Seq<char>,
    pub priority: u8,
    pub description: Seq<char>,
    pub assignee: Seq<char>,
    pub parent: Seq<char>,
    pub labels: Seq<char>,
    pub deferred: bool,
}

impl View for NewBead<'_> {
    type V = BeadFields;

    open spec fn view(&self) -> BeadFields {
        BeadFields {
            title: self.title@,
            issue_type: self.issue_type@,
            priority: self.priority,
            description: self.description@,
            assignee: self.assignee@,
            parent: self.parent@,
            labels: self.labels@,
            deferred: self.deferred,
        }
    }
}

/// `flag value` when `value` is non-empty, nothing otherwise.
pub open spec fn pair_if(flag: Seq<char>, value: Seq<char>) -> Seq<Seq<char>> {
    if value.len() > 0 {
        seq![flag, value]
    } else {
        seq![]
    }
}

/// The optional fields shared by `bd create` and `bd update`, with the flag
/// that carries the labels.
pub open spec fn optional_fields(nb: BeadFields, labels_flag: Seq<char>) -> Seq<Seq<char>> {
    pair_if("--description"@, nb.description) + pair_if("-a"@, nb.assignee) + pair_if(
        "--parent"@,
        nb.parent,
    ) + pair_if(labels_flag, nb.labels)
}

/// Argv of `bd create` for `nb`.
pub open spec fn create_argv(nb: BeadFields) -> Seq<Seq<char>> {
    seq!["create"@, nb.title, "-t"@, nb.issue_type, "-p"@, decimal(nb.priority as nat)]
        + optional_fields(nb, "-l"@)
}

/// Argv of `bd update <id>` for `nb`.
pub open spec fn update_argv(id: Seq<char>, nb: BeadFields) -> Seq<Seq<char>> {
    seq!["update"@, id, "--title"@, nb.title, "-t"@, nb.issue_type, "-p"@, decimal(
        nb.priority as nat,
    )] + optional_fields(nb, "--set-labels"@)
}

fn push_pair_if(args: &mut Vec<String>, flag: &str, value: &str)
    ensures
        views(final(args)@) == views(old(args)@) + pair_if(flag@, value@),
{
    if !value.is_empty() {
        push_arg(args, String::from_str(flag));
        push_arg(args, String::from_str(value));
    }
    assert(views(args@) =~= views(old(args)@) + pair_if(flag@, value@));
}

fn push_optional_fields(args: &mut Vec<String>, nb: &NewBead<'_>, labels_flag: &str)
    ensures
        views(final(args)@) == views(old(args)@) + optional_fields(nb@, labels_flag@),
{
    push_pair_if(args, "--description", nb.description);
    push_pair_if(args, "-a", nb.assignee);
    push_pair_if(args, "--parent", nb.parent);
    push_pair_if(args, labels_flag, nb.labels);
    assert(views(args@) =~= views(old(args)@) + optional_fields(nb@, labels_flag@));
}

/// Argv for `bd create`. User strings stay single elements.
pub fn argv_create(new_bead: &NewBead<'_>) -> (r: Vec<String>)
    ensures
        views(r@) == create_argv(new_bead@),
{
    let mut args = owned(&["create", new_bead.title, "-t", new_bead.issue_type, "-p"]);
    push_arg(&mut args, u64_text(new_bead.priority as u64));
    push_optional_fields(&mut args, new_bead, "-l");
    assert(views(args@) =~= create_argv(new_bead@));
    args
}

/// Argv for `bd update` of core fields. Empty optionals are omitted so an
/// untouched field never wipes existing data.
pub fn argv_update(id: &str, new_bead: &NewBead<'_>) -> (r: Vec<String>)
    ensures
        views(r@) == update_argv(id@, new_bead@),
{
    let mut args = owned(
        &["update", id, "--title", new_bead.title, "-t", new_bead.issue_type, "-p"],
    );
    push_arg(&mut args, u64_text(new_bead.priority as u64));
    push_optional_fields(&mut args, new_bead, "--set-labels");
    assert(views(args@) =~= update_argv(id@, new_bead@));
    args
}

/// The full argv of a `bd` run: `--global` first for the shared-server
/// scope, then `args`.
pub fn bd_argv(scope: Scope, args: &Vec<String>) -> (r: Vec<String>)
    ensures
        views(r@) == (match scope {
            Scope::Global => seq!["--global"@] + views(args@),
            Scope::Repo => views(args@),
        }),
{
    let mut out: Vec<String> = Vec::new();
    if scope == Scope::Global {
        push_arg(&mut out, String::from_str("--global"));
    }
    let mut i: usize = 0;
    let ghost start = views(out@);
    while i < args.len()
        invariant
            i <= args.len(),
            views(out@) == start + views(args@).subrange(0, i as int),
        decreases args.len() - i,
    {
        push_arg(&mut out, args[i].clone());
        assert(views(args@).subrange(0, i + 1) =~= views(args@).subrange(0, i as int).push(args@[i as int]@));
        i = i + 1;
    }
    assert(views(args@).subrange(0, args.len() as int) =~= views(args@));
    assert(views(out@) =~= (match scope {
        Scope::Global => seq!["--global"@] + views(args@),
        Scope::Repo => views(args@),
    }));
    out
}

/// Whether a `bd` run in `scope` talks to the shared server
/// (`BEADS_DOLT_SHARED_SERVER=1`).
pub fn uses_shared_server(scope: Scope) -> (r: bool)
    ensures
        r == (scope == Scope::Global),
{
    scope == Scope::Global
}

/// The `PATH` a `bd` run gets: the usual install locations first, then the
/// caller's `path`.
pub fn search_path(path: &str) -> (r: String)
    ensures
        r@ == "/opt/homebrew/bin:/usr/local/bin:/usr/bin:"@ + path@,
{
    let mut out = String::from_str("/opt/homebrew/bin:/usr/local/bin:/usr/bin:");
    out.append(path);
    out
}

/// Where `bd` is looked for when it is not on `PATH`, in order.
pub const BD_LOCATIONS: [&'static str; 4] = [
    "/opt/homebrew/bin/bd",
    "/usr/local/bin/bd",
    "/usr/bin/bd",
    "/home/linuxbrew/.linuxbrew/bin/bd",
];

/// The first of `BD_LOCATIONS` from position `i` on that `present` marks,
/// else plain `bd`.
pub open spec fn bd_location_from(present: Seq<bool>, i: int) -> Seq<char>
    decreases 4 - i,
{
    if i < 0 || i >= 4 || i >= present.len() {
        "bd"@
    } else if present[i] {
        BD_LOCATIONS@[i]@
    } else {
        bd_location_from(present, i + 1)
    }
}

/// The `bd` to run: plain `bd` when it is on `PATH`, else the first of
/// `BD_LOCATIONS` that exists (`present[i]` for the `i`-th), else plain `bd`.
pub open spec fn bd_choice(on_path: bool, present: Seq<bool>) -> Seq<char> {
    if on_path {
        "bd"@
    } else {
        bd_location_from(present, 0)
    }
}

/// Picks the `bd` binary from what the lookups found.
pub fn choose_bd(on_path: bool, present: &Vec<bool>) -> (r: String)
    ensures
        r@ == bd_choice(on_path, present@),
{
    if on_path {
        return String::from_str("bd");
    }
    let mut i: usize = 0;
    while i < 4 && i < present.len()
        invariant
            i <= 4,
            !on_path,
            bd_location_from(present@, 0) == bd_location_from(present@, i as int),
        decreases 4 - i,
    {
        if present[i] {
            let loc = BD_LOCATIONS[i];
            assert(loc == BD_LOCATIONS@[i as int]);
            assert(bd_location_from(present@, i as int) == loc@);
            return String::from_str(loc);
        }
        i = i + 1;
    }
    String::from_str("bd")
}

/// Whether `id` is the id of one of `beads`.
pub open spec fn has_bead(beads: Seq<Bead>, id: Seq<char>) -> bool {
    exists|i: int| 0 <= i < beads.len() && #[trigger] beads[i].id@ == id
}

/// Whether `id` is the id of one of `beads`.
pub fn contains_id(beads: &Vec<Bead>, id: &str) -> (r: bool)
    ensures
        r == has_bead(beads@, id@),
{
    let mut i: usize = 0;
    while i < beads.len()
        invariant
            i <= beads.len(),
            forall|j: int| 0 <= j < i ==> beads@[j].id@ != id@,
        decreases beads.len() - i,
    {
        if str_eq(beads[i].id.as_str(), id) {
            return true;
        }
        i = i + 1;
    }
    false
}

/// Whether `load` also asks `bd` for closed issues: only when closed issues
/// are wanted and the whole list (not `ready`) is shown.
pub fn merges_closed(mode: ListMode, include_closed: bool) -> (r: bool)
    ensures
        r == (include_closed && mode == ListMode::All),
{
    include_closed && mode == ListMode::All
}

/// The board after merging the closed issues `extra` into `beads`: each
/// closed issue whose id is not already on the board is appended, in order.
pub fn merge_closed(beads: Vec<Bead>, extra: Vec<Bead>) -> (r: Vec<Bead>)
    ensures
        r@ == beads@ + extra@.filter(|b: Bead| !has_bead(beads@, b.id@)),
{
    let ghost base = beads@;
    let ghost all = extra@;
    let ghost pred = |b: Bead| !has_bead(base, b.id@);
    let base_len = beads.len();
    let mut out = beads;
    let mut rest = extra;
    let mut k: usize = 0;
    let n = rest.len();
    assert(all.subrange(0, 0).filter(pred) =~= Seq::<Bead>::empty()) by {
        reveal(Seq::filter);
    }
    assert(base + Seq::<Bead>::empty() =~= base);
    while rest.len() > 0
        invariant
            n == all.len(),
            k + rest.len() == n,
            rest@ == all.subrange(k as int, n as int),
            out@ == base + all.subrange(0, k as int).filter(pred),
            pred == (|b: Bead| !has_bead(base, b.id@)),
            base_len == base.len(),
        decreases rest.len(),
    {
        let item = rest.remove(0);
        assert(item == all[k as int]);
        proof {
            all.subrange(0, k as int).lemma_filter_push(item, pred);
            assert(all.subrange(0, k + 1) =~= all.subrange(0, k as int).push(item));
        }
        // `out` still starts with the board as loaded, so the id test is
        // against `base`.
        assert(out@.subrange(0, base_len as int) =~= base);
        let known = contains_prefix_id(&out, base_len, item.id.as_str());
        if !known {
            out.push(item);
        }
        proof {
            assert(rest@ =~= all.subrange(k + 1, n as int));
        }
        k = k + 1;
    }
    assert(all.subrange(0, n as int) =~= all);
    out
}

/// Whether `id` is the id of one of the first `len` beads.
fn contains_prefix_id(beads: &Vec<Bead>, len: usize, id: &str) -> (r: bool)
    requires
        len <= beads.len(),
    ensures
        r == has_bead(beads@.subrange(0, len as int), id@),
{
    let mut i: usize = 0;
    while i < len
        invariant
            len <= beads.len(),
            i <= len,
            forall|j: int| 0 <= j < i ==> beads@[j].id@ != id@,
        decreases len - i,
    {
        if str_eq(beads[i].id.as_str(), id) {
            assert(beads@.subrange(0, len as int)[i as int] == beads@[i as int]);
            return true;
        }
        i = i + 1;
    }
    false
}

/// What a `bd create` run leaves to do: the new id is its trimmed stdout;
/// a backlog (deferred) bead with a known id then gets
/// `bd update <id> -s deferred`.
pub fn after_create(deferred: bool, raw: &str) -> (r: (String, Option<Vec<String>>))
    ensures
        r.0@ == trimmed(raw@),
        match r.1 {
            Some(args) => deferred && r.0@.len() > 0 && views(args@) == seq![
                "update"@,
                r.0@,
                "-s"@,
                "deferred"@,
            ],
            None => !(deferred && r.0@.len() > 0),
        },
{
    let id = String::from_str(trim_str(raw));
    if deferred && !id.as_str().is_empty() {
        let follow = argv_set_status(id.as_str(), "deferred");
        (id, Some(follow))
    } else {
        (id, None)
    }
}

/// What a `bd update` of core fields leaves to do: a backlog (deferred)
/// bead then gets `bd update <id> -s deferred`.
pub fn after_update(id: &str, deferred: bool) -> (r: Option<Vec<String>>)
    ensures
        match r {
            Some(args) => deferred && views(args@) == seq![
                "update"@,
                id@,
                "-s"@,
                "deferred"@,
            ],
            None => !deferred,
        },
{
    if deferred {
        Some(argv_set_status(id, "deferred"))
    } else {
        None
    }
}

/// What `bd --json` printed, by its first character.
#[derive(Debug, Clone, Copy, PartialEq, Eq, Structural)]
pub enum ListShape {
    /// Nothing but white space: no issues.
    Empty,
    /// A JSON array of issues.
    Array,
    /// A single issue object.
    Object,
    /// Anything else: not `bd --json` output.
    Unknown,
}

/// The refusal for output that is neither an array nor an object.
pub const NOT_A_LIST: &'static str = "expected a JSON array or object from bd --json";

/// The trimmed output of `bd --json` and what it holds.
pub fn list_shape(raw: &str) -> (r: (ListShape, &str))
    ensures
        r.1@ == trimmed(raw@),
        r.0 == if r.1@.len() == 0 {
            ListShape::Empty
        } else if r.1@[0] == '[' {
            ListShape::Array
        } else if r.1@[0] == '{' {
            ListShape::Object
        } else {
            ListShape::Unknown
        },
{
    let t = trim_str(raw);
    if t.unicode_len() == 0 {
        return (ListShape::Empty, t);
    }
    let first = t.get_char(0);
    if first == '[' {
        (ListShape::Array, t)
    } else if first == '{' {
        (ListShape::Object, t)
    } else {
        (ListShape::Unknown, t)
    }
}

} // verus!
