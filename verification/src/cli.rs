//! Subcommand parsing for the product CLI and the keyboard-only TUI fallback.
//!
//! Parsing never prints: a refused invocation comes back as a [`CliError`]
//! that says what to print and with which exit code.

use vstd::prelude::*;

use crate::bd::types::opt_view;
use crate::sync::{default_opts, OptsModel, SyncOpts};
use crate::text::{has_prefix, parse_u64, parse_u64_spec, str_eq, views};

verus! {

/// Parsed invocation.
#[derive(Debug, Clone)]
pub enum Command {
    /// PTY / standalone TUI (keyboard-only fallback).
    Tui { cwd: Option<String>, selftest: bool },
    Sync(SyncOpts),
    Watch(SyncOpts),
    Clear { workspace: Option<String>, dry_run: bool, json: bool },
    Install,
    Status(SyncOpts),
    Update {
        id: String,
        status: Option<String>,
        claim: bool,
        cwd: Option<String>,
        workspace: Option<String>,
    },
    Help,
}

/// The value of a [`Command`], strings taken as character sequences.
pub enum CommandModel {
    Tui { cwd: Option<Seq<char>>, selftest: bool },
    Sync(OptsModel),
    Watch(OptsModel),
    Clear { workspace: Option<Seq<char>>, dry_run: bool, json: bool },
    Install,
    Status(OptsModel),
    Update {
        id: Seq<char>,
        status: Option<Seq<char>>,
        claim: bool,
        cwd: Option<Seq<char>>,
        workspace: Option<Seq<char>>,
    },
    Help,
}

impl View for Command {
    type V = CommandModel;

    open spec fn view(&self) -> CommandModel {
        match self {
            Command::Tui { cwd, selftest } => CommandModel::Tui { cwd: opt_view(*cwd), selftest: *selftest },
            Command::Sync(o) => CommandModel::Sync(o@),
            Command::Watch(o) => CommandModel::Watch(o@),
            Command::Clear { workspace, dry_run, json } => CommandModel::Clear {
                workspace: opt_view(*workspace),
                dry_run: *dry_run,
                json: *json,
            },
            Command::Install => CommandModel::Install,
            Command::Status(o) => CommandModel::Status(o@),
            Command::Update { id, status, claim, cwd, workspace } => CommandModel::Update {
                id: id@,
                status: opt_view(*status),
                claim: *claim,
                cwd: opt_view(*cwd),
                workspace: opt_view(*workspace),
            },
            Command::Help => CommandModel::Help,
        }
    }
}

/// A refused invocation: the process exit code, the line for stderr (empty
/// for none), and whether the help text follows that line.
#[derive(Debug, Clone)]
pub struct CliError {
    pub code: i32,
    pub message: String,
    pub help: bool,
}

/// The value of a [`CliError`].
pub struct Refusal {
    pub code: i32,
    pub message: Seq<char>,
    pub help: bool,
}

impl View for CliError {
    type V = Refusal;

    open spec fn view(&self) -> Refusal {
        Refusal { code: self.code, message: self.message@, help: self.help }
    }
}

pub open spec fn refusal(code: i32, message: Seq<char>, help: bool) -> Refusal {
    Refusal { code, message, help }
}

/// `{flag} needs a value`, exit code 2.
pub open spec fn needs_value(flag: Seq<char>) -> Refusal {
    refusal(2, flag + " needs a value"@, false)
}

/// `unknown argument: {arg}`, exit code 2.
pub open spec fn unknown_argument(arg: Seq<char>, help: bool) -> Refusal {
    refusal(2, "unknown argument: "@ + arg, help)
}

pub open spec fn is_help_flag(a: Seq<char>) -> bool {
    a == "-h"@ || a == "--help"@
}

/// The options of `sync`, `watch`, `status` and `clear`: `args` read from
/// the front into `o`.
pub open spec fn opts_from(o: OptsModel, args: Seq<Seq<char>>) -> Result<OptsModel, Refusal>
    decreases args.len(),
{
    if args.len() == 0 {
        Ok(o)
    } else {
        let a = args[0];
        let rest = args.skip(1);
        if a == "--cwd"@ {
            if rest.len() == 0 {
                Err(needs_value("--cwd"@))
            } else {
                opts_from(OptsModel { cwd: Some(rest[0]), ..o }, rest.skip(1))
            }
        } else if a == "--workspace"@ {
            if rest.len() == 0 {
                Err(needs_value("--workspace"@))
            } else {
                opts_from(OptsModel { workspace: Some(rest[0]), ..o }, rest.skip(1))
            }
        } else if a == "--include-closed"@ {
            opts_from(OptsModel { include_closed: true, ..o }, rest)
        } else if a == "--dry-run"@ {
            opts_from(OptsModel { dry_run: true, ..o }, rest)
        } else if a == "--json"@ {
            opts_from(OptsModel { json: true, ..o }, rest)
        } else if a == "--interval"@ {
            if rest.len() == 0 {
                Err(needs_value("--interval"@))
            } else {
                match parse_u64_spec(rest[0]) {
                    Some(n) => opts_from(
                        OptsModel { interval: if n < 1 { 1 } else { n }, ..o },
                        rest.skip(1),
                    ),
                    None => Err(refusal(2, "--interval needs a number of seconds"@, false)),
                }
            }
        } else if is_help_flag(a) {
            Err(refusal(0, Seq::empty(), true))
        } else {
            Err(unknown_argument(a, true))
        }
    }
}

/// The TUI flags, read from the front.
pub open spec fn tui_from(cwd: Option<Seq<char>>, selftest: bool, args: Seq<Seq<char>>) -> Result<
    CommandModel,
    Refusal,
>
    decreases args.len(),
{
    if args.len() == 0 {
        Ok(CommandModel::Tui { cwd, selftest })
    } else {
        let a = args[0];
        let rest = args.skip(1);
        if a == "--selftest"@ {
            tui_from(cwd, true, rest)
        } else if a == "--cwd"@ {
            if rest.len() == 0 {
                Err(needs_value("--cwd"@))
            } else {
                tui_from(Some(rest[0]), selftest, rest.skip(1))
            }
        } else if is_help_flag(a) {
            Ok(CommandModel::Help)
        } else {
            Err(unknown_argument(a, true))
        }
    }
}

/// What `update` has read so far.
pub struct UpdateDraft {
    pub id: Option<Seq<char>>,
    pub status: Option<Seq<char>>,
    pub claim: bool,
    pub cwd: Option<Seq<char>>,
    pub workspace: Option<Seq<char>>,
}

pub open spec fn empty_draft() -> UpdateDraft {
    UpdateDraft { id: None, status: None, claim: false, cwd: None, workspace: None }
}

/// `update`'s arguments, read from the front: one bead id, and a write
/// (`--status NAME` or `--claim`).
pub open spec fn update_from(d: UpdateDraft, args: Seq<Seq<char>>) -> Result<CommandModel, Refusal>
    decreases args.len(),
{
    if args.len() == 0 {
        match d.id {
            None => Err(refusal(2, "update needs a bead id"@, false)),
            Some(id) => if d.status is None && !d.claim {
                Err(refusal(2, "update needs --status NAME or --claim"@, false))
            } else {
                Ok(
                    CommandModel::Update {
                        id,
                        status: d.status,
                        claim: d.claim,
                        cwd: d.cwd,
                        workspace: d.workspace,
                    },
                )
            },
        }
    } else {
        let a = args[0];
        let rest = args.skip(1);
        if a == "--status"@ || a == "-s"@ {
            if rest.len() == 0 {
                Err(needs_value("--status"@))
            } else {
                update_from(UpdateDraft { status: Some(rest[0]), ..d }, rest.skip(1))
            }
        } else if a == "--claim"@ {
            update_from(UpdateDraft { claim: true, ..d }, rest)
        } else if a == "--cwd"@ {
            if rest.len() == 0 {
                Err(needs_value("--cwd"@))
            } else {
                update_from(UpdateDraft { cwd: Some(rest[0]), ..d }, rest.skip(1))
            }
        } else if a == "--workspace"@ {
            if rest.len() == 0 {
                Err(needs_value("--workspace"@))
            } else {
                update_from(UpdateDraft { workspace: Some(rest[0]), ..d }, rest.skip(1))
            }
        } else if has_prefix(a, "-"@) {
            Err(unknown_argument(a, false))
        } else if d.id is None {
            update_from(UpdateDraft { id: Some(a), ..d }, rest)
        } else {
            Err(refusal(2, "unexpected argument: "@ + a, false))
        }
    }
}

pub open spec fn opts_command(
    r: Result<OptsModel, Refusal>,
    wrap: spec_fn(OptsModel) -> CommandModel,
) -> Result<CommandModel, Refusal> {
    match r {
        Ok(o) => Ok(wrap(o)),
        Err(e) => Err(e),
    }
}

/// What `cmux-beads` makes of its arguments (the binary name left out).
pub open spec fn parse_args_spec(args: Seq<Seq<char>>) -> Result<CommandModel, Refusal> {
    if args.len() == 0 {
        Ok(CommandModel::Tui { cwd: None, selftest: false })
    } else {
        let first = args[0];
        let rest = args.skip(1);
        if is_help_flag(first) || first == "help"@ {
            Ok(CommandModel::Help)
        } else if first == "sync"@ {
            opts_command(opts_from(default_opts(), rest), |o: OptsModel| CommandModel::Sync(o))
        } else if first == "watch"@ {
            opts_command(opts_from(default_opts(), rest), |o: OptsModel| CommandModel::Watch(o))
        } else if first == "status"@ {
            opts_command(opts_from(default_opts(), rest), |o: OptsModel| CommandModel::Status(o))
        } else if first == "clear"@ {
            opts_command(
                opts_from(default_opts(), rest),
                |o: OptsModel|
                    CommandModel::Clear { workspace: o.workspace, dry_run: o.dry_run, json: o.json },
            )
        } else if first == "install"@ {
            if rest.len() > 0 {
                Err(refusal(2, "install takes no arguments"@, false))
            } else {
                Ok(CommandModel::Install)
            }
        } else if first == "update"@ {
            update_from(empty_draft(), rest)
        } else if has_prefix(first, "-"@) {
            tui_from(None, false, args)
        } else {
            Err(refusal(2, "unknown command: "@ + first, true))
        }
    }
}

fn refuse(code: i32, message: &str, help: bool) -> (e: CliError)
    ensures
        e@ == refusal(code, message@, help),
{
    CliError { code, message: String::from_str(message), help }
}

fn refuse_with(code: i32, message: &str, arg: &str, help: bool) -> (e: CliError)
    ensures
        e@ == refusal(code, message@ + arg@, help),
{
    let mut text = String::from_str(message);
    text.append(arg);
    CliError { code, message: text, help }
}

proof fn lemma_step(args: Seq<Seq<char>>, i: int)
    requires
        0 <= i < args.len(),
    ensures
        args.skip(i)[0] == args[i],
        args.skip(i).skip(1) == args.skip(i + 1),
        i + 1 < args.len() ==> args.skip(i).skip(1)[0] == args[i + 1],
        i + 1 < args.len() ==> args.skip(i).skip(1).skip(1) == args.skip(i + 2),
{
    assert(args.skip(i).skip(1) =~= args.skip(i + 1));
    if i + 1 < args.len() {
        assert(args.skip(i).skip(1).skip(1) =~= args.skip(i + 2));
    }
}

fn parse_sync_opts(args: &Vec<String>, start: usize) -> (r: Result<SyncOpts, CliError>)
    requires
        start <= args@.len(),
    ensures
        opts_from(default_opts(), views(args@).skip(start as int)) == match r {
            Ok(o) => Ok(o@),
            Err(e) => Err(e@),
        },
{
    let ghost all = views(args@);
    let mut opts = SyncOpts::default();
    let mut i: usize = start;
    while i < args.len()
        invariant
            all == views(args@),
            start <= i <= args@.len(),
            opts_from(opts@, all.skip(i as int)) == opts_from(default_opts(), all.skip(start as int)),
        decreases args@.len() - i,
    {
        proof {
            lemma_step(all, i as int);
        }
        let a = args[i].as_str();
        assert(a@ == all[i as int]);
        if str_eq(a, "--cwd") {
            if i + 1 >= args.len() {
                return Err(refuse_with(2, "--cwd", " needs a value", false));
            }
            opts.cwd = Some(args[i + 1].clone());
            i = i + 2;
        } else if str_eq(a, "--workspace") {
            if i + 1 >= args.len() {
                return Err(refuse_with(2, "--workspace", " needs a value", false));
            }
            opts.workspace = Some(args[i + 1].clone());
            i = i + 2;
        } else if str_eq(a, "--include-closed") {
            opts.include_closed = true;
            i = i + 1;
        } else if str_eq(a, "--dry-run") {
            opts.dry_run = true;
            i = i + 1;
        } else if str_eq(a, "--json") {
            opts.json = true;
            i = i + 1;
        } else if str_eq(a, "--interval") {
            if i + 1 >= args.len() {
                return Err(refuse_with(2, "--interval", " needs a value", false));
            }
            match parse_u64(args[i + 1].as_str()) {
                Some(n) => {
                    opts.interval = if n < 1 {
                        1
                    } else {
                        n
                    };
                },
                None => {
                    return Err(refuse(2, "--interval needs a number of seconds", false));
                },
            }
            i = i + 2;
        } else if str_eq(a, "-h") || str_eq(a, "--help") {
            proof {
                reveal_strlit("");
                assert(""@ =~= Seq::<char>::empty());
            }
            return Err(refuse(0, "", true));
        } else {
            return Err(refuse_with(2, "unknown argument: ", a, true));
        }
    }
    assert(all.skip(i as int) =~= Seq::<Seq<char>>::empty());
    Ok(opts)
}

fn parse_tui(args: &Vec<String>) -> (r: Result<Command, CliError>)
    ensures
        tui_from(None, false, views(args@)) == match r {
            Ok(c) => Ok(c@),
            Err(e) => Err(e@),
        },
{
    let ghost all = views(args@);
    let mut cwd: Option<String> = None;
    let mut selftest = false;
    let mut i: usize = 0;
    assert(all.skip(0) =~= all);
    while i < args.len()
        invariant
            all == views(args@),
            i <= args@.len(),
            tui_from(opt_view(cwd), selftest, all.skip(i as int)) == tui_from(None, false, all),
        decreases args@.len() - i,
    {
        proof {
            lemma_step(all, i as int);
        }
        let a = args[i].as_str();
        assert(a@ == all[i as int]);
        if str_eq(a, "--selftest") {
            selftest = true;
            i = i + 1;
        } else if str_eq(a, "--cwd") {
            if i + 1 >= args.len() {
                return Err(refuse_with(2, "--cwd", " needs a value", false));
            }
            cwd = Some(args[i + 1].clone());
            i = i + 2;
        } else if str_eq(a, "-h") || str_eq(a, "--help") {
            return Ok(Command::Help);
        } else {
            return Err(refuse_with(2, "unknown argument: ", a, true));
        }
    }
    assert(all.skip(i as int) =~= Seq::<Seq<char>>::empty());
    Ok(Command::Tui { cwd, selftest })
}

fn parse_update(args: &Vec<String>, start: usize) -> (r: Result<Command, CliError>)
    requires
        start <= args@.len(),
    ensures
        update_from(empty_draft(), views(args@).skip(start as int)) == match r {
            Ok(c) => Ok(c@),
            Err(e) => Err(e@),
        },
{
    let ghost all = views(args@);
    let mut id: Option<String> = None;
    let mut status: Option<String> = None;
    let mut claim = false;
    let mut cwd: Option<String> = None;
    let mut workspace: Option<String> = None;
    let mut i: usize = start;
    while i < args.len()
        invariant
            all == views(args@),
            start <= i <= args@.len(),
            update_from(
                UpdateDraft {
                    id: opt_view(id),
                    status: opt_view(status),
                    claim,
                    cwd: opt_view(cwd),
                    workspace: opt_view(workspace),
                },
                all.skip(i as int),
            ) == update_from(empty_draft(), all.skip(start as int)),
        decreases args@.len() - i,
    {
        proof {
            lemma_step(all, i as int);
        }
        let a = args[i].as_str();
        assert(a@ == all[i as int]);
        if str_eq(a, "--status") || str_eq(a, "-s") {
            if i + 1 >= args.len() {
                return Err(refuse_with(2, "--status", " needs a value", false));
            }
            status = Some(args[i + 1].clone());
            i = i + 2;
        } else if str_eq(a, "--claim") {
            claim = true;
            i = i + 1;
        } else if str_eq(a, "--cwd") {
            if i + 1 >= args.len() {
                return Err(refuse_with(2, "--cwd", " needs a value", false));
            }
            cwd = Some(args[i + 1].clone());
            i = i + 2;
        } else if str_eq(a, "--workspace") {
            if i + 1 >= args.len() {
                return Err(refuse_with(2, "--workspace", " needs a value", false));
            }
            workspace = Some(args[i + 1].clone());
            i = i + 2;
        } else if crate::text::starts_with_str(a, "-") {
            return Err(refuse_with(2, "unknown argument: ", a, false));
        } else if id.is_none() {
            id = Some(args[i].clone());
            i = i + 1;
        } else {
            return Err(refuse_with(2, "unexpected argument: ", a, false));
        }
    }
    assert(all.skip(i as int) =~= Seq::<Seq<char>>::empty());
    match id {
        None => Err(refuse(2, "update needs a bead id", false)),
        Some(id) => {
            if status.is_none() && !claim {
                Err(refuse(2, "update needs --status NAME or --claim", false))
            } else {
                Ok(Command::Update { id, status, claim, cwd, workspace })
            }
        },
    }
}

/// Parse the process arguments after the binary name.
pub fn parse_args(args: Vec<String>) -> (r: Result<Command, CliError>)
    ensures
        parse_args_spec(views(args@)) == match r {
            Ok(c) => Ok(c@),
            Err(e) => Err(e@),
        },
{
    let ghost all = views(args@);
    if args.len() == 0 {
        return Ok(Command::Tui { cwd: None, selftest: false });
    }
    let first = args[0].as_str();
    assert(first@ == all[0]);
    assert(all.skip(1) =~= views(args@).skip(1));
    if str_eq(first, "-h") || str_eq(first, "--help") || str_eq(first, "help") {
        Ok(Command::Help)
    } else if str_eq(first, "sync") {
        match parse_sync_opts(&args, 1) {
            Ok(o) => Ok(Command::Sync(o)),
            Err(e) => Err(e),
        }
    } else if str_eq(first, "watch") {
        match parse_sync_opts(&args, 1) {
            Ok(o) => Ok(Command::Watch(o)),
            Err(e) => Err(e),
        }
    } else if str_eq(first, "status") {
        match parse_sync_opts(&args, 1) {
            Ok(o) => Ok(Command::Status(o)),
            Err(e) => Err(e),
        }
    } else if str_eq(first, "clear") {
        match parse_sync_opts(&args, 1) {
            Ok(o) => Ok(Command::Clear { workspace: o.workspace, dry_run: o.dry_run, json: o.json }),
            Err(e) => Err(e),
        }
    } else if str_eq(first, "install") {
        if args.len() > 1 {
            Err(refuse(2, "install takes no arguments", false))
        } else {
            Ok(Command::Install)
        }
    } else if str_eq(first, "update") {
        parse_update(&args, 1)
    } else if crate::text::starts_with_str(first, "-") {
        parse_tui(&args)
    } else {
        Err(refuse_with(2, "unknown command: ", first, true))
    }
}

/// The help text: the right-sidebar tab paths first, the keyboard-only TUI
/// as a fallback, and the pane / left-list commands marked as not the
/// product.
pub const HELP_TEXT: &'static str = "\
cmux-beads 0.2.2 — official Beads tab on the cmux right sidebar

Beads is a tab on the existing right sidebar (sibling of Files / Find / Dock),
not a pane and not the left workspace list.

Product (native UI, mouse / click / drag-and-drop):
  cmux right-sidebar set beads                       host tab (built-in)
  cmux sidebar plugin install https://github.com/RaviTharuma/cmux-beads.git
  cmux sidebar plugin use cmux-beads                 plugin package
  cmux-beads watch                                   project bd → bead:<id> pills

Commands:
  sync      one-shot project bd issues → cmux set-status (bead:<id>)
  watch     loop sync (default 3s)
  status    print the current projection plan
  clear     remove bead:* keys only
  update    persist a bd status change via argv, then refresh pills
  install   contrib/legacy: copy sidebars/beads.js (and .swift) to
            ~/.config/cmux/sidebars/ for the generic Custom slot

Not the product:
  cmux sidebar open beads               opens a pane
  cmux sidebar select beads             replaces the left workspace list
  cmux right-sidebar set custom beads   generic Custom slot, not a Beads tab

Keyboard-only fallback (PTY plugin — no mouse):
  cmux-beads [--cwd DIR] [--selftest]

Flags:
  --cwd DIR            bd working directory (default: focused pane cwd)
  --workspace ID       cmux workspace for set-status (or CMUX_WORKSPACE_ID)
  --include-closed     project closed issues too
";

/// Rendered user-facing help.
pub fn help_text() -> (r: String)
    ensures
        r@ == HELP_TEXT@,
{
    String::from_str(HELP_TEXT)
}

/// Reading options never clears a switch (`--include-closed`, `--dry-run`,
/// `--json`): once set, it stays set whatever follows.
proof fn lemma_switches_kept(o: OptsModel, args: Seq<Seq<char>>)
    ensures
        opts_from(o, args) is Ok ==> {
            let r = opts_from(o, args)->Ok_0;
            &&& o.include_closed ==> r.include_closed
            &&& o.dry_run ==> r.dry_run
            &&& o.json ==> r.json
        },
    decreases args.len(),
{
    if args.len() > 0 {
        let a = args[0];
        let rest = args.skip(1);
        if a == "--cwd"@ || a == "--workspace"@ {
            if rest.len() > 0 {
                lemma_switches_kept(
                    if a == "--cwd"@ {
                        OptsModel { cwd: Some(rest[0]), ..o }
                    } else {
                        OptsModel { workspace: Some(rest[0]), ..o }
                    },
                    rest.skip(1),
                );
            }
        } else if a == "--include-closed"@ {
            lemma_switches_kept(OptsModel { include_closed: true, ..o }, rest);
        } else if a == "--dry-run"@ {
            lemma_switches_kept(OptsModel { dry_run: true, ..o }, rest);
        } else if a == "--json"@ {
            lemma_switches_kept(OptsModel { json: true, ..o }, rest);
        } else if a == "--interval"@ {
            if rest.len() > 0 {
                match parse_u64_spec(rest[0]) {
                    Some(n) => lemma_switches_kept(
                        OptsModel { interval: if n < 1 { 1 } else { n }, ..o },
                        rest.skip(1),
                    ),
                    None => {},
                }
            }
        }
    }
}

/// Options read in two parts: reading `pre` completely, then `tail`, is
/// reading `pre + tail`.
proof fn lemma_opts_concat(o: OptsModel, pre: Seq<Seq<char>>, tail: Seq<Seq<char>>)
    requires
        opts_from(o, pre) is Ok,
    ensures
        opts_from(o, pre + tail) == opts_from(opts_from(o, pre)->Ok_0, tail),
    decreases pre.len(),
{
    if pre.len() == 0 {
        assert(pre + tail =~= tail);
    } else {
        let all = pre + tail;
        let a = pre[0];
        assert(all[0] == a);
        let rest = pre.skip(1);
        assert(all.skip(1) =~= rest + tail);
        if a == "--cwd"@ {
            assert((rest + tail)[0] == rest[0]);
            assert((rest + tail).skip(1) =~= rest.skip(1) + tail);
            lemma_opts_concat(OptsModel { cwd: Some(rest[0]), ..o }, rest.skip(1), tail);
        } else if a == "--workspace"@ {
            assert((rest + tail)[0] == rest[0]);
            assert((rest + tail).skip(1) =~= rest.skip(1) + tail);
            lemma_opts_concat(OptsModel { workspace: Some(rest[0]), ..o }, rest.skip(1), tail);
        } else if a == "--include-closed"@ {
            lemma_opts_concat(OptsModel { include_closed: true, ..o }, rest, tail);
        } else if a == "--dry-run"@ {
            lemma_opts_concat(OptsModel { dry_run: true, ..o }, rest, tail);
        } else if a == "--json"@ {
            lemma_opts_concat(OptsModel { json: true, ..o }, rest, tail);
        } else if a == "--interval"@ {
            assert((rest + tail)[0] == rest[0]);
            assert((rest + tail).skip(1) =~= rest.skip(1) + tail);
            let n = parse_u64_spec(rest[0])->0;
            lemma_opts_concat(OptsModel { interval: if n < 1 { 1 } else { n }, ..o }, rest.skip(1), tail);
        }
    }
}

/// A switch (`--include-closed`, `--dry-run` or `--json`) given as an
/// option of `sync`, `watch` or `status` (after any complete list of options
/// `pre`, before any `tail`) is on in the options the command runs with.
pub proof fn law_switch_flags(command: Seq<char>, pre: Seq<Seq<char>>, flag: Seq<char>, tail: Seq<Seq<char>>)
    requires
        command == "sync"@ || command == "watch"@ || command == "status"@,
        flag == "--include-closed"@ || flag == "--dry-run"@ || flag == "--json"@,
        opts_from(default_opts(), pre) is Ok,
    ensures
        ({
            let args = seq![command] + pre + seq![flag] + tail;
            let on = |o: OptsModel|
                (flag == "--include-closed"@ ==> o.include_closed) && (flag == "--dry-run"@ ==> o.dry_run)
                    && (flag == "--json"@ ==> o.json);
            match parse_args_spec(args) {
                Ok(CommandModel::Sync(o)) => on(o),
                Ok(CommandModel::Watch(o)) => on(o),
                Ok(CommandModel::Status(o)) => on(o),
                Ok(_) => false,
                Err(_) => true,
            }
        }),
{
    reveal_strlit("sync");
    reveal_strlit("watch");
    reveal_strlit("status");
    reveal_strlit("help");
    reveal_strlit("-h");
    reveal_strlit("--help");
    reveal_strlit("--include-closed");
    reveal_strlit("--dry-run");
    reveal_strlit("--json");
    reveal_strlit("--cwd");
    reveal_strlit("--workspace");
    let args = seq![command] + pre + seq![flag] + tail;
    let opts = seq![flag] + tail;
    assert(args[0] == command);
    assert(args.skip(1) =~= pre + opts);
    lemma_opts_concat(default_opts(), pre, opts);
    let o1 = opts_from(default_opts(), pre)->Ok_0;
    assert(opts[0] == flag);
    assert(opts.skip(1) =~= tail);
    assert("--include-closed"@[2] == 'i' && "--dry-run"@[2] == 'd' && "--json"@[2] == 'j');
    assert("--cwd"@[2] == 'c' && "--workspace"@[2] == 'w');
    let o2 = if flag == "--include-closed"@ {
        OptsModel { include_closed: true, ..o1 }
    } else if flag == "--dry-run"@ {
        OptsModel { dry_run: true, ..o1 }
    } else {
        OptsModel { json: true, ..o1 }
    };
    lemma_switches_kept(o2, tail);
    assert(opts_from(o1, opts) == opts_from(o2, tail));
    assert(opts_from(default_opts(), args.skip(1)) == opts_from(o1, opts));
    assert(command[0] == 's' || command[0] == 'w');
    assert("-h"@[0] == '-' && "--help"@[0] == '-' && "help"@[0] == 'h');
    assert(command != "-h"@ && command != "--help"@ && command != "help"@);
    assert("sync"@.len() == 4 && "watch"@.len() == 5 && "status"@.len() == 6);
    assert(!is_help_flag(command));
}

} // verus!
