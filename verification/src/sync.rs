//! Apply a [`crate::project::SyncPlan`] through the `cmux` CLI.
//!
//! The sidebar never calls this. Status persistence into `bd` stays on argv
//! helpers in [`crate::bd`].

use vstd::prelude::*;

use crate::bd::push_arg;
use crate::bd::types::Bead;
use crate::json::json_parse;
use crate::host::{reply_view, CallModel, HostCall, HostLink};
use crate::bd::BridgeError;
use crate::project::{
    clear_status_argv, identify_workspace, list_status_argv, parse_identify_workspace,
    parse_status_keys, plan_sync, progress_argv, progress_fraction, progress_label_spec, progress_spec,
    resolve_workspace, resolve_workspace_spec, set_status_argv, total_count, SyncPlan, StatusPill,
};
use crate::text::{decimal, join, join_strings, u64_text, views};

verus! {

/// How the CLI talks to `cmux`. Tests inject a fake.
pub trait CmuxHost {
    /// Run `cmux` with an argv vector. Returns stdout, or the error text.
    fn run(&self, args: &[String]) -> Result<String, String>;
}

/// Options shared by `sync`, `watch`, and `status`.
#[derive(Debug, Clone)]
pub struct SyncOpts {
    pub cwd: Option<String>,
    pub workspace: Option<String>,
    pub include_closed: bool,
    pub dry_run: bool,
    /// Seconds between two passes of `watch`.
    pub interval: u64,
    pub json: bool,
}

impl Default for SyncOpts {
    fn default() -> (r: Self)
        ensures
            r.cwd is None,
            r.workspace is None,
            !r.include_closed,
            !r.dry_run,
            r.interval == 3,
            !r.json,
    {
        SyncOpts {
            cwd: None,
            workspace: None,
            include_closed: false,
            dry_run: false,
            interval: 3,
            json: false,
        }
    }
}

/// The value of a [`SyncOpts`], strings taken as character sequences.
pub struct OptsModel {
    pub cwd: Option<Seq<char>>,
    pub workspace: Option<Seq<char>>,
    pub include_closed: bool,
    pub dry_run: bool,
    pub interval: u64,
    pub json: bool,
}

impl View for SyncOpts {
    type V = OptsModel;

    open spec fn view(&self) -> OptsModel {
        OptsModel {
            cwd: crate::bd::types::opt_view(self.cwd),
            workspace: crate::bd::types::opt_view(self.workspace),
            include_closed: self.include_closed,
            dry_run: self.dry_run,
            interval: self.interval,
            json: self.json,
        }
    }
}

/// What `SyncOpts::default()` holds.
pub open spec fn default_opts() -> OptsModel {
    OptsModel {
        cwd: None,
        workspace: None,
        include_closed: false,
        dry_run: false,
        interval: 3,
        json: false,
    }
}

/// Result of one projection pass.
#[derive(Debug, Clone)]
pub struct SyncReport {
    pub workspace: String,
    pub applied: Vec<String>,
    pub stale_cleared: Vec<String>,
    pub counts: Vec<(String, u32)>,
    pub dry_run: bool,
    pub summary: String,
}

/// A copy of a tally.
pub fn copy_counts(counts: &Vec<(String, u32)>) -> (r: Vec<(String, u32)>)
    ensures
        r@ == counts@,
{
    let mut out: Vec<(String, u32)> = Vec::new();
    let mut i: usize = 0;
    while i < counts.len()
        invariant
            i <= counts@.len(),
            out@ == counts@.subrange(0, i as int),
        decreases counts@.len() - i,
    {
        out.push((counts[i].0.clone(), counts[i].1));
        assert(out@ =~= counts@.subrange(0, i + 1));
        i = i + 1;
    }
    assert(counts@.subrange(0, counts@.len() as int) =~= counts@);
    out
}

/// `args` followed by `--workspace <workspace>`.
pub fn with_workspace(args: &Vec<String>, workspace: &str) -> (r: Vec<String>)
    ensures
        views(r@) == views(args@) + seq!["--workspace"@, workspace@],
{
    let mut out: Vec<String> = Vec::new();
    let mut i: usize = 0;
    while i < args.len()
        invariant
            i <= args@.len(),
            views(out@) == views(args@).subrange(0, i as int),
        decreases args@.len() - i,
    {
        push_arg(&mut out, args[i].clone());
        assert(views(args@).subrange(0, i + 1) =~= views(args@).subrange(0, i as int).push(
            args@[i as int]@,
        ));
        i = i + 1;
    }
    push_arg(&mut out, String::from_str("--workspace"));
    push_arg(&mut out, String::from_str(workspace));
    assert(views(args@).subrange(0, args@.len() as int) =~= views(args@));
    assert(views(out@) =~= views(args@) + seq!["--workspace"@, workspace@]);
    out
}

/// `{status}={n}` for each count, space-separated; `empty` for none.
pub open spec fn counts_text(counts: Seq<(String, u32)>) -> Seq<char> {
    if counts.len() == 0 {
        "empty"@
    } else {
        join(counts.map_values(|c: (String, u32)| c.0@ + "="@ + decimal(c.1 as nat)), " "@)
    }
}

/// The counts as `status=n` words.
pub fn format_counts(counts: &Vec<(String, u32)>) -> (r: String)
    ensures
        r@ == counts_text(counts@),
{
    if counts.len() == 0 {
        return String::from_str("empty");
    }
    let mut words: Vec<String> = Vec::new();
    let mut i: usize = 0;
    while i < counts.len()
        invariant
            i <= counts@.len(),
            views(words@) == counts@.subrange(0, i as int).map_values(
                |c: (String, u32)| c.0@ + "="@ + decimal(c.1 as nat),
            ),
        decreases counts@.len() - i,
    {
        let mut w = counts[i].0.clone();
        w.append("=");
        w.append(u64_text(counts[i].1 as u64).as_str());
        push_arg(&mut words, w);
        assert(counts@.subrange(0, i + 1).map_values(
            |c: (String, u32)| c.0@ + "="@ + decimal(c.1 as nat),
        ) =~= counts@.subrange(0, i as int).map_values(
            |c: (String, u32)| c.0@ + "="@ + decimal(c.1 as nat),
        ).push(counts@[i as int].0@ + "="@ + decimal(counts@[i as int].1 as nat)));
        i = i + 1;
    }
    assert(counts@.subrange(0, counts@.len() as int) =~= counts@);
    join_strings(&words, " ")
}

/// The one-line summary of a projection pass.
pub open spec fn summary_text(
    applied: nat,
    workspace: Seq<char>,
    counts: Seq<(String, u32)>,
    stale: nat,
) -> Seq<char> {
    "cmux-beads sync: "@ + decimal(applied) + " beads → cmux ws="@ + workspace + " ("@ + counts_text(
        counts,
    ) + (if stale == 0 { Seq::<char>::empty() } else { " stale="@ + decimal(stale) }) + ")"@
}

/// The argv of every `set-status` of `pills` on `workspace`, in order.
pub open spec fn set_calls(pills: Seq<StatusPill>, workspace: Seq<char>) -> Seq<Seq<Seq<char>>> {
    pills.map_values(
        |p: StatusPill|
            seq![
                "set-status"@,
                p.key@,
                p.value@,
                "--icon"@,
                p.icon@,
                "--color"@,
                p.color@,
                "--priority"@,
                decimal(p.priority as nat),
                "--workspace"@,
                workspace,
            ],
    )
}

/// The argv of every `clear-status` of `keys` on `workspace`, in order.
pub open spec fn clear_calls(keys: Seq<String>, workspace: Seq<char>) -> Seq<Seq<Seq<char>>> {
    keys.map_values(|k: String| seq!["clear-status"@, k@, "--workspace"@, workspace])
}

/// `after` is `before` with calls added at its end.
pub open spec fn extends(before: Seq<HostCall>, after: Seq<HostCall>) -> bool {
    before.len() <= after.len() && after.subrange(0, before.len() as int) == before
}

/// The calls that `after` adds to `before`.
pub open spec fn added(before: Seq<HostCall>, after: Seq<HostCall>) -> Seq<CallModel> {
    after.subrange(before.len() as int, after.len() as int).map_values(|c: HostCall| c@)
}

/// The argv that applying a plan runs, in order: its writes, then its clears.
pub open spec fn planned_calls(
    apply: Seq<StatusPill>,
    stale: Seq<String>,
    workspace: Seq<char>,
) -> Seq<Seq<Seq<char>>> {
    set_calls(apply, workspace) + clear_calls(stale, workspace)
}

/// The call reached the host and succeeded.
pub open spec fn succeeded(c: CallModel) -> bool {
    c.reply matches Some(Ok(_))
}

/// A dry run: every planned argv printed, in order, none sent to the host.
pub open spec fn printed(calls: Seq<CallModel>, planned: Seq<Seq<Seq<char>>>) -> bool {
    &&& calls.len() == planned.len()
    &&& forall|k: int| 0 <= k < calls.len() ==> (#[trigger] calls[k]).args == planned[k] && calls[k].reply is None
}

/// A real run: the planned argv `base`, then `extra`, sent in order. Each of
/// `base` goes only after the previous call succeeded, and the pass fails
/// exactly when one of them fails, with its error; the reply to `extra` is
/// not looked at.
pub open spec fn sent_in_order(
    calls: Seq<CallModel>,
    base: Seq<Seq<Seq<char>>>,
    extra: Seq<Seq<Seq<char>>>,
    r: Result<SyncReport, String>,
) -> bool {
    let planned = base + extra;
    &&& calls.len() <= planned.len()
    &&& forall|k: int| 0 <= k < calls.len() ==> (#[trigger] calls[k]).args == planned[k] && calls[k].reply is Some
    &&& match r {
        Ok(_) => calls.len() == planned.len() && forall|k: int| 0 <= k < base.len() ==> succeeded(#[trigger] calls[k]),
        Err(e) => {
            &&& 0 < calls.len() <= base.len()
            &&& forall|k: int| 0 <= k < calls.len() - 1 ==> succeeded(#[trigger] calls[k])
            &&& calls.last().reply == Some(Err::<Seq<char>, Seq<char>>(e@))
        },
    }
}

/// The report of a pass that applied the plan (`apply`, `stale`, `counts`).
pub open spec fn report_of(
    report: SyncReport,
    apply: Seq<StatusPill>,
    stale: Seq<String>,
    counts: Seq<(String, u32)>,
    workspace: Seq<char>,
    dry_run: bool,
) -> bool {
    &&& report.workspace@ == workspace
    &&& report.applied@ == apply.map_values(|p: StatusPill| p.key)
    &&& report.stale_cleared@ == stale
    &&& report.counts@ == counts
    &&& report.dry_run == dry_run
    &&& report.summary@ == summary_text(apply.len(), workspace, counts, stale.len())
}

/// What applying the plan (`apply`, `stale`, `counts`) on `workspace` does,
/// with the progress calls `extra` after its writes and clears: the calls it
/// makes or prints, and its result.
pub open spec fn pass_of(
    apply: Seq<StatusPill>,
    stale: Seq<String>,
    counts: Seq<(String, u32)>,
    extra: Seq<Seq<Seq<char>>>,
    workspace: Seq<char>,
    dry_run: bool,
    calls: Seq<CallModel>,
    r: Result<SyncReport, String>,
) -> bool {
    let base = planned_calls(apply, stale, workspace);
    &&& dry_run ==> r is Ok && printed(calls, base + extra)
    &&& !dry_run ==> sent_in_order(calls, base, extra, r)
    &&& r is Ok ==> report_of(r->Ok_0, apply, stale, counts, workspace, dry_run)
}

/// The argv of `cmux set-progress` with `value` and `label` on `workspace`.
pub open spec fn progress_call(value: Seq<char>, label: Seq<char>, workspace: Seq<char>) -> Seq<Seq<char>> {
    seq!["set-progress"@, value, "--label"@, label, "--workspace"@, workspace]
}

/// The pass of a plan with its progress step last: no step when no pill is
/// active or when a write or clear failed, else one `set-progress` whose
/// value is what `progress_text` printed for (in progress, active).
pub open spec fn plan_pass<F: Fn(u32, u32) -> String>(
    progress_text: F,
    apply: Seq<StatusPill>,
    stale: Seq<String>,
    counts: Seq<(String, u32)>,
    workspace: Seq<char>,
    dry_run: bool,
    calls: Seq<CallModel>,
    r: Result<SyncReport, String>,
) -> bool {
    match progress_spec(counts) {
        None => pass_of(apply, stale, counts, Seq::empty(), workspace, dry_run, calls, r),
        Some((ip, active)) => (r is Err && pass_of(apply, stale, counts, Seq::empty(), workspace, dry_run, calls, r))
            || exists|v: String|
            #[trigger] call_ensures(progress_text, (ip as u32, active as u32), v) && pass_of(
                apply,
                stale,
                counts,
                seq![progress_call(v@, progress_label_spec(ip, active), workspace)],
                workspace,
                dry_run,
                calls,
                r,
            ),
    }
}

/// The one-line summary of a pass.
fn pass_summary(applied: usize, workspace: &str, counts: &Vec<(String, u32)>, stale: usize) -> (r: String)
    ensures
        r@ == summary_text(applied as nat, workspace@, counts@, stale as nat),
{
    let mut summary = String::from_str("cmux-beads sync: ");
    summary.append(u64_text(applied as u64).as_str());
    summary.append(" beads → cmux ws=");
    summary.append(workspace);
    summary.append(" (");
    summary.append(format_counts(counts).as_str());
    if stale > 0 {
        summary.append(" stale=");
        summary.append(u64_text(stale as u64).as_str());
    }
    summary.append(")");
    summary
}

/// Write the plan's pills, clear its stale keys, then set the progress bar
/// on `workspace`, each call through `link`. `progress_text` prints the
/// progress value (in progress over active) for the bar. A dry run sends
/// nothing and logs each argv as printed; otherwise the first failing write
/// or clear ends the pass with its error, and a failing progress call is
/// ignored.
pub fn apply_plan<H: CmuxHost, L: FnOnce() -> Result<Vec<Bead>, BridgeError>, F: Fn(u32, u32) -> String>(
    link: &mut HostLink<'_, H, L>,
    workspace: &str,
    plan: &SyncPlan,
    dry_run: bool,
    progress_text: &F,
) -> (r: Result<SyncReport, String>)
    requires
        total_count(plan.counts@) <= u32::MAX,
        forall|a: u32, b: u32| call_requires(*progress_text, (a, b)),
    ensures
        extends(old(link).calls_of(), final(link).calls_of()),
        final(link).loads_of() == old(link).loads_of(),
        final(link).can_load() == old(link).can_load(),
        final(link).loader() == old(link).loader(),
        plan_pass(
            *progress_text,
            plan.apply@,
            plan.stale@,
            plan.counts@,
            workspace@,
            dry_run,
            added(old(link).calls_of(), final(link).calls_of()),
            r,
        ),
{
    let ghost start = link.calls_of();
    let ghost n = start.len() as int;
    let ghost base = planned_calls(plan.apply@, plan.stale@, workspace@);
    let ghost na = plan.apply@.len() as int;
    assert(base.len() == plan.apply@.len() + plan.stale@.len());
    let mut applied: Vec<String> = Vec::new();
    let mut stale_cleared: Vec<String> = Vec::new();
    let mut i: usize = 0;
    while i < plan.apply.len()
        invariant
            i <= plan.apply@.len(),
            na == plan.apply@.len(),
            n == start.len(),
            start == old(link).calls_of(),
            link.loads_of() == old(link).loads_of(),
            link.can_load() == old(link).can_load(),
            link.loader() == old(link).loader(),
            base == planned_calls(plan.apply@, plan.stale@, workspace@),
            applied@ == plan.apply@.subrange(0, i as int).map_values(|p: StatusPill| p.key),
            link.calls_of().len() == n + i,
            link.calls_of().subrange(0, n) == start,
            forall|k: int|
                0 <= k < i ==> (#[trigger] link.calls_of()[n + k])@.args == base[k] && (dry_run ==> link.calls_of()[n
                    + k].reply is None) && (!dry_run ==> succeeded(link.calls_of()[n + k]@)),
        decreases plan.apply@.len() - i,
    {
        let pill = &plan.apply[i];
        let args = with_workspace(&set_status_argv(pill), workspace);
        assert(views(args@) =~= base[i as int]);
        let ghost prev = link.calls_of();
        if dry_run {
            link.print_only(args);
        } else {
            match link.send(args) {
                Ok(_) => {},
                Err(e) => {
                    proof {
                        let cur = link.calls_of();
                        let calls = added(start, cur);
                        assert(calls.len() == i + 1);
                        assert forall|k: int| 0 <= k < calls.len() implies (#[trigger] calls[k]).args
                            == (base + seq![])[k] && calls[k].reply is Some by {
                            assert(calls[k] == cur[n + k]@);
                            if k < i {
                                assert(cur[n + k] == prev[n + k]);
                            }
                        }
                        assert forall|k: int| 0 <= k < calls.len() - 1 implies succeeded(
                            #[trigger] calls[k],
                        ) by {
                            assert(calls[k] == cur[n + k]@);
                            assert(cur[n + k] == prev[n + k]);
                        }
                        assert(cur.subrange(0, n) =~= start) by {
                            assert(cur.subrange(0, n) =~= prev.subrange(0, n));
                        }
                    }
                    return Err(e);
                },
            }
        }
        proof {
            let cur = link.calls_of();
            assert forall|k: int| 0 <= k < i + 1 implies (#[trigger] cur[n + k])@.args == base[k] && (
            dry_run ==> cur[n + k].reply is None) && (!dry_run ==> succeeded(cur[n + k]@)) by {
                if k < i {
                    assert(cur[n + k] == prev[n + k]);
                }
            }
            assert(cur.subrange(0, n) =~= prev.subrange(0, n));
        }
        applied.push(pill.key.clone());
        assert(plan.apply@.subrange(0, i + 1).map_values(|p: StatusPill| p.key) =~= plan.apply@.subrange(
            0,
            i as int,
        ).map_values(|p: StatusPill| p.key).push(pill.key));
        i = i + 1;
    }
    assert(plan.apply@.subrange(0, plan.apply@.len() as int) =~= plan.apply@);
    let mut j: usize = 0;
    while j < plan.stale.len()
        invariant
            j <= plan.stale@.len(),
            na == plan.apply@.len(),
            n == start.len(),
            start == old(link).calls_of(),
            link.loads_of() == old(link).loads_of(),
            link.can_load() == old(link).can_load(),
            link.loader() == old(link).loader(),
            base == planned_calls(plan.apply@, plan.stale@, workspace@),
            base.len() == na + plan.stale@.len(),
            applied@ == plan.apply@.map_values(|p: StatusPill| p.key),
            stale_cleared@ == plan.stale@.subrange(0, j as int),
            link.calls_of().len() == n + na + j,
            link.calls_of().subrange(0, n) == start,
            forall|k: int|
                0 <= k < na + j ==> (#[trigger] link.calls_of()[n + k])@.args == base[k] && (dry_run
                    ==> link.calls_of()[n + k].reply is None) && (!dry_run ==> succeeded(link.calls_of()[n + k]@)),
        decreases plan.stale@.len() - j,
    {
        let key = &plan.stale[j];
        let args = with_workspace(&clear_status_argv(key.as_str()), workspace);
        assert(views(args@) =~= base[na + j]);
        let ghost prev = link.calls_of();
        if dry_run {
            link.print_only(args);
        } else {
            match link.send(args) {
                Ok(_) => {},
                Err(e) => {
                    proof {
                        let cur = link.calls_of();
                        let calls = added(start, cur);
                        assert(calls.len() == na + j + 1);
                        assert forall|k: int| 0 <= k < calls.len() implies (#[trigger] calls[k]).args
                            == (base + seq![])[k] && calls[k].reply is Some by {
                            assert(calls[k] == cur[n + k]@);
                            if k < na + j {
                                assert(cur[n + k] == prev[n + k]);
                            }
                        }
                        assert forall|k: int| 0 <= k < calls.len() - 1 implies succeeded(
                            #[trigger] calls[k],
                        ) by {
                            assert(calls[k] == cur[n + k]@);
                            assert(cur[n + k] == prev[n + k]);
                        }
                        assert(cur.subrange(0, n) =~= start) by {
                            assert(cur.subrange(0, n) =~= prev.subrange(0, n));
                        }
                    }
                    return Err(e);
                },
            }
        }
        proof {
            let cur = link.calls_of();
            assert forall|k: int| 0 <= k < na + j + 1 implies (#[trigger] cur[n + k])@.args == base[k]
                && (dry_run ==> cur[n + k].reply is None) && (!dry_run ==> succeeded(cur[n + k]@)) by {
                if k < na + j {
                    assert(cur[n + k] == prev[n + k]);
                }
            }
            assert(cur.subrange(0, n) =~= prev.subrange(0, n));
        }
        stale_cleared.push(key.clone());
        assert(plan.stale@.subrange(0, j + 1) =~= plan.stale@.subrange(0, j as int).push(*key));
        j = j + 1;
    }
    assert(plan.stale@.subrange(0, plan.stale@.len() as int) =~= plan.stale@);
    let ghost mid = link.calls_of();
    let progress = progress_fraction(&plan.counts);
    let ghost mut shown: Option<String> = None;
    match progress {
        Some((ip, active, label)) => {
            let text = progress_text(ip, active);
            proof {
                shown = Some(text);
            }
            let args = with_workspace(&progress_argv(text.as_str(), label.as_str()), workspace);
            assert(views(args@) =~= progress_call(text@, label@, workspace@));
            if dry_run {
                link.print_only(args);
            } else {
                let _ = link.send(args);
            }
        },
        None => {},
    }
    proof {
        let cur = link.calls_of();
        let calls = added(start, cur);
        assert(cur.subrange(0, n) =~= start) by {
            assert(cur.subrange(0, n) =~= mid.subrange(0, n));
        }
        let extra: Seq<Seq<Seq<char>>> = match progress_spec(plan.counts@) {
            None => Seq::empty(),
            Some((ip, active)) => seq![progress_call(shown->0@, progress_label_spec(ip, active), workspace@)],
        };
        assert(calls.len() == base.len() + extra.len());
        assert forall|k: int| 0 <= k < calls.len() implies (#[trigger] calls[k]).args == (base + extra)[k] && (
        dry_run ==> calls[k].reply is None) && (!dry_run ==> calls[k].reply is Some) && (!dry_run && k
            < base.len() ==> succeeded(calls[k])) by {
            assert(calls[k] == cur[n + k]@);
            if k < base.len() {
                assert(cur[n + k] == mid[n + k]);
            }
        }
        if dry_run {
            assert(printed(calls, base + extra));
        }
        match progress_spec(plan.counts@) {
            Some((ip, active)) => {
                assert(call_ensures(*progress_text, (ip as u32, active as u32), shown->0));
            },
            None => {},
        }
    }
    let summary = pass_summary(plan.apply.len(), workspace, &plan.counts, stale_cleared.len());
    Ok(
        SyncReport {
            workspace: String::from_str(workspace),
            applied,
            stale_cleared,
            counts: copy_counts(&plan.counts),
            dry_run,
            summary,
        },
    )
}

/// An optional borrowed string, by its characters.
pub open spec fn opt_str(o: Option<&str>) -> Option<Seq<char>> {
    match o {
        Some(s) => Some(s@),
        None => None,
    }
}

/// The workspace that a `cmux identify --json` reply names.
pub open spec fn identify_reply(raw: Seq<char>) -> Option<Seq<char>> {
    match json_parse(raw) {
        Some(v) => identify_workspace(v),
        None => None,
    }
}

/// The refusal when no workspace can be found.
pub open spec fn unresolved_text() -> Seq<char> {
    "could not resolve cmux workspace (pass --workspace or set CMUX_WORKSPACE_ID); refusing to guess a host"@
}

/// The argv of `cmux identify --json`.
pub open spec fn identify_argv() -> Seq<Seq<char>> {
    seq!["identify"@, "--json"@]
}

/// How many host calls resolving the workspace makes: none when `explicit`
/// or the environment names one, else one `identify`.
pub open spec fn resolve_calls(explicit: Option<Seq<char>>, env_ws: Option<Seq<char>>) -> int {
    if resolve_workspace_spec(explicit, env_ws) is Some {
        0
    } else {
        1
    }
}

/// Resolving the workspace with the calls `calls`: `explicit`, else the
/// environment's, else what the `identify` reply names, else the refusal.
pub open spec fn resolve_outcome(
    explicit: Option<Seq<char>>,
    env_ws: Option<Seq<char>>,
    calls: Seq<CallModel>,
) -> Result<Seq<char>, Seq<char>> {
    match resolve_workspace_spec(explicit, env_ws) {
        Some(w) => Ok(w),
        None => match calls[0].reply {
            Some(Ok(raw)) => match identify_reply(raw) {
                Some(w) => Ok(w),
                None => Err(unresolved_text()),
            },
            _ => Err(unresolved_text()),
        },
    }
}

/// The calls of resolving the workspace: nothing, or one `identify`.
pub open spec fn resolving(explicit: Option<Seq<char>>, env_ws: Option<Seq<char>>, calls: Seq<CallModel>) -> bool {
    &&& calls.len() == resolve_calls(explicit, env_ws)
    &&& calls.len() == 1 ==> calls[0].args == identify_argv() && calls[0].reply is Some
}

/// What a step of a pass keeps of the link: the loads, and the loader.
pub open spec fn keeps_loads<H: CmuxHost, L: FnOnce() -> Result<Vec<Bead>, BridgeError>>(
    before: HostLink<'_, H, L>,
    after: HostLink<'_, H, L>,
) -> bool {
    &&& after.loads_of() == before.loads_of()
    &&& after.can_load() == before.can_load()
    &&& after.loader() == before.loader()
}

/// The workspace to project into: `explicit`, else the environment's
/// `CMUX_WORKSPACE_ID` (`env_ws`), else what `cmux identify --json` reports.
/// Never a guess.
pub fn resolve_or_identify<H: CmuxHost, L: FnOnce() -> Result<Vec<Bead>, BridgeError>>(
    link: &mut HostLink<'_, H, L>,
    explicit: Option<&str>,
    env_ws: Option<&str>,
) -> (r: Result<String, String>)
    ensures
        extends(old(link).calls_of(), final(link).calls_of()),
        keeps_loads(*old(link), *final(link)),
        resolving(opt_str(explicit), opt_str(env_ws), added(old(link).calls_of(), final(link).calls_of())),
        reply_view(r) == resolve_outcome(
            opt_str(explicit),
            opt_str(env_ws),
            added(old(link).calls_of(), final(link).calls_of()),
        ),
{
    let ghost start = link.calls_of();
    match resolve_workspace(explicit, env_ws) {
        Some(ws) => {
            assert(link.calls_of().subrange(0, start.len() as int) =~= start);
            assert(added(start, link.calls_of()) =~= Seq::<CallModel>::empty());
            return Ok(ws);
        },
        None => {},
    }
    let mut args: Vec<String> = Vec::new();
    push_arg(&mut args, String::from_str("identify"));
    push_arg(&mut args, String::from_str("--json"));
    assert(views(args@) =~= identify_argv());
    let reply = link.send(args);
    assert(added(start, link.calls_of()).len() == 1);
    assert(added(start, link.calls_of())[0] == link.calls_of().last()@);
    match reply {
        Ok(raw) => match parse_identify_workspace(raw.as_str()) {
            Some(ws) => Ok(ws),
            None => Err(String::from_str(
                "could not resolve cmux workspace (pass --workspace or set CMUX_WORKSPACE_ID); refusing to guess a host",
            )),
        },
        Err(_) => Err(String::from_str(
            "could not resolve cmux workspace (pass --workspace or set CMUX_WORKSPACE_ID); refusing to guess a host",
        )),
    }
}

/// The argv of `cmux list-status --workspace <workspace>`.
pub open spec fn list_argv(workspace: Seq<char>) -> Seq<Seq<char>> {
    seq!["list-status"@, "--workspace"@, workspace]
}

/// The `bead:` keys that a `list-status` reply lists; none when it failed.
pub open spec fn listed_keys(reply: Result<Seq<char>, Seq<char>>) -> Seq<Seq<char>> {
    match reply {
        Ok(raw) => crate::project::status_keys_spec(raw),
        Err(_) => Seq::empty(),
    }
}

/// `plan` is what `plan_sync` makes of `beads` and the live keys `existing`.
pub open spec fn plan_fits(plan: SyncPlan, beads: Seq<Bead>, existing: Seq<String>, include_closed: bool) -> bool {
    let wanted = crate::project::projected(beads, include_closed);
    &&& plan.apply@.len() == if wanted.len() < 24 { wanted.len() } else { 24 }
    &&& forall|k: int| 0 <= k < plan.apply@.len() ==> crate::project::pill_of(#[trigger] plan.apply@[k], wanted[k])
    &&& plan.stale@ == existing.filter(
        |k: String| crate::project::is_stale(k, plan.apply@.map_values(|p: StatusPill| p.key)),
    )
    &&& crate::project::tally_of(plan.apply@, plan.counts@)
    &&& total_count(plan.counts@) == plan.apply@.len()
}

/// A projection pass of `beads` on `workspace` with the calls `calls`: one
/// `list-status`, whose failure ends a real run with its error (a dry run
/// reads it as no keys), then the plan made of the listed keys, applied.
pub open spec fn beads_pass<F: Fn(u32, u32) -> String>(
    progress_text: F,
    include_closed: bool,
    dry_run: bool,
    workspace: Seq<char>,
    beads: Seq<Bead>,
    calls: Seq<CallModel>,
    r: Result<SyncReport, String>,
) -> bool {
    &&& calls.len() >= 1
    &&& calls[0].args == list_argv(workspace)
    &&& calls[0].reply is Some
    &&& if !dry_run && calls[0].reply->0 is Err {
        calls.len() == 1 && r is Err && r->Err_0@ == calls[0].reply->0->Err_0
    } else {
        exists|existing: Seq<String>, plan: SyncPlan|
            views(existing) == listed_keys(calls[0].reply->0) && #[trigger] plan_fits(plan, beads, existing, include_closed)
                && plan_pass(progress_text, plan.apply@, plan.stale@, plan.counts@, workspace, dry_run, calls.skip(1), r)
    }
}

/// `report` writes one `bead:<id>` pill for each of the first 24 beads that
/// the board projects, in board order.
pub open spec fn projection_of(report: SyncReport, beads: Seq<Bead>, include_closed: bool) -> bool {
    let pills = report.applied@;
    let wanted = crate::project::projected(beads, include_closed);
    &&& pills.len() == if wanted.len() < 24 { wanted.len() } else { 24 }
    &&& forall|k: int| 0 <= k < pills.len() ==> #[trigger] pills[k]@ == "bead:"@ + wanted[k].id@
}

/// Sends `list-status` on `workspace` through `link`.
fn list_keys<H: CmuxHost, L: FnOnce() -> Result<Vec<Bead>, BridgeError>>(
    link: &mut HostLink<'_, H, L>,
    workspace: &str,
) -> (r: Result<String, String>)
    ensures
        final(link).calls_of().len() == old(link).calls_of().len() + 1,
        final(link).calls_of().subrange(0, old(link).calls_of().len() as int) == old(link).calls_of(),
        final(link).calls_of().last()@ == (CallModel { args: list_argv(workspace@), reply: Some(reply_view(r)) }),
        keeps_loads(*old(link), *final(link)),
{
    let args = with_workspace(&list_status_argv(), workspace);
    assert(views(args@) =~= list_argv(workspace@));
    link.send(args)
}

/// Project `beads` into pills on `workspace`: read the live keys, plan, and
/// apply.
pub fn sync_beads<H: CmuxHost, L: FnOnce() -> Result<Vec<Bead>, BridgeError>, F: Fn(u32, u32) -> String>(
    link: &mut HostLink<'_, H, L>,
    opts: &SyncOpts,
    workspace: &str,
    beads: &Vec<Bead>,
    progress_text: &F,
) -> (r: Result<SyncReport, String>)
    requires
        forall|a: u32, b: u32| call_requires(*progress_text, (a, b)),
    ensures
        extends(old(link).calls_of(), final(link).calls_of()),
        keeps_loads(*old(link), *final(link)),
        beads_pass(
            *progress_text,
            opts.include_closed,
            opts.dry_run,
            workspace@,
            beads@,
            added(old(link).calls_of(), final(link).calls_of()),
            r,
        ),
        opts.dry_run ==> r is Ok,
        r is Ok ==> projection_of(r->Ok_0, beads@, opts.include_closed),
{
    let ghost start = link.calls_of();
    let listed = list_keys(link, workspace);
    let ghost mid = link.calls_of();
    let existing = match listed {
        Ok(raw) => parse_status_keys(raw.as_str()),
        Err(e) => {
            if opts.dry_run {
                Vec::new()
            } else {
                assert(link.calls_of().subrange(0, start.len() as int) =~= start);
                assert(added(start, link.calls_of())[0] == link.calls_of().last()@);
                return Err(e);
            }
        },
    };
    assert(views(existing@) =~= listed_keys(reply_view(listed)));
    let plan = plan_sync(beads.as_slice(), existing.as_slice(), opts.include_closed);
    let r = apply_plan(link, workspace, &plan, opts.dry_run, progress_text);
    proof {
        let cur = link.calls_of();
        assert(cur.subrange(0, mid.len() as int) == mid);
        assert(cur.subrange(0, start.len() as int) =~= start) by {
            assert(cur.subrange(0, start.len() as int) =~= mid.subrange(0, start.len() as int));
        }
        let all = added(start, cur);
        assert(all[0] == mid.last()@) by {
            assert(cur[start.len() as int] == mid[start.len() as int]);
        }
        assert(all.skip(1) =~= added(mid, cur));
        assert(plan_fits(plan, beads@, existing@, opts.include_closed));
        if r is Ok {
            let report = r->Ok_0;
            assert forall|k: int| 0 <= k < report.applied@.len() implies #[trigger] report.applied@[k]@
                == "bead:"@ + crate::project::projected(beads@, opts.include_closed)[k].id@ by {
                assert(crate::project::pill_of(
                    plan.apply@[k],
                    crate::project::projected(beads@, opts.include_closed)[k],
                ));
            }
        }
    }
    r
}

/// Resolve the workspace, then load `bd` through the link (only once the
/// workspace is known), then project pills.
pub fn sync_once<H: CmuxHost, L: FnOnce() -> Result<Vec<Bead>, BridgeError>, F: Fn(u32, u32) -> String>(
    link: &mut HostLink<'_, H, L>,
    opts: &SyncOpts,
    env_workspace: Option<&str>,
    progress_text: &F,
) -> (r: Result<SyncReport, String>)
    requires
        old(link).can_load(),
        call_requires(old(link).loader(), ()),
        forall|a: u32, b: u32| call_requires(*progress_text, (a, b)),
    ensures
        extends(old(link).calls_of(), final(link).calls_of()),
        ({
            let explicit = opts@.workspace;
            let env = opt_str(env_workspace);
            let calls = added(old(link).calls_of(), final(link).calls_of());
            let k = resolve_calls(explicit, env);
            &&& calls.len() >= k
            &&& resolving(explicit, env, calls.take(k))
            &&& match resolve_outcome(explicit, env, calls.take(k)) {
                Err(msg) => {
                    &&& calls.len() == k
                    &&& r is Err && r->Err_0@ == msg
                    &&& keeps_loads(*old(link), *final(link))
                },
                Ok(w) => {
                    &&& final(link).loads_of() == old(link).loads_of().push(
                        (old(link).calls_of().len() + k) as usize,
                    )
                    &&& exists|loaded: Result<Vec<Bead>, BridgeError>|
                        #[trigger] call_ensures(old(link).loader(), (), loaded) && match loaded {
                            Err(err) => calls.len() == k && r is Err && r->Err_0@ == err.message_spec(),
                            Ok(beads) => beads_pass(
                                *progress_text,
                                opts.include_closed,
                                opts.dry_run,
                                w,
                                beads@,
                                calls.skip(k),
                                r,
                            ) && (r is Ok ==> projection_of(r->Ok_0, beads@, opts.include_closed)),
                        }
                },
            }
        }),
        r is Ok ==> r->Ok_0.dry_run == opts.dry_run,
{
    let ghost start = link.calls_of();
    let ghost loads0 = link.loads_of();
    let explicit: Option<&str> = match &opts.workspace {
        Some(w) => Some(w.as_str()),
        None => None,
    };
    let ghost ex = opts@.workspace;
    assert(opt_str(explicit) == ex);
    let ghost env = opt_str(env_workspace);
    let resolved = resolve_or_identify(link, explicit, env_workspace);
    let ghost mid = link.calls_of();
    let ghost k = resolve_calls(ex, env);
    assert(added(start, mid).len() == k);
    let workspace = match resolved {
        Ok(ws) => ws,
        Err(e) => {
            assert(added(start, link.calls_of()).take(k) =~= added(start, link.calls_of()));
            return Err(e);
        },
    };
    let loaded = link.load();
    let ghost got = loaded;
    let beads = match loaded {
        Ok(beads) => beads,
        Err(err) => {
            assert(added(start, link.calls_of()).take(k) =~= added(start, link.calls_of()));
            return Err(err.message());
        },
    };
    assert(got == Ok::<Vec<Bead>, BridgeError>(beads));
    let r = sync_beads(link, opts, workspace.as_str(), &beads, progress_text);
    proof {
        let cur = link.calls_of();
        assert(cur.subrange(0, mid.len() as int) == mid);
        assert(cur.subrange(0, start.len() as int) =~= start) by {
            assert(cur.subrange(0, start.len() as int) =~= mid.subrange(0, start.len() as int));
        }
        let all = added(start, cur);
        assert(all.take(k) =~= added(start, mid)) by {
            assert forall|i: int| 0 <= i < k implies all.take(k)[i] == added(start, mid)[i] by {
                assert(cur[start.len() + i] == mid[start.len() + i]);
            }
        }
        assert(all.skip(k) =~= added(mid, cur));
    }
    r
}

/// Clear every live `bead:*` key on the workspace (`env_ws` is the
/// environment's `CMUX_WORKSPACE_ID`). A failing `list-status` clears
/// nothing. It loads nothing from `bd`.
pub fn clear_once<H: CmuxHost, L: FnOnce() -> Result<Vec<Bead>, BridgeError>>(
    link: &mut HostLink<'_, H, L>,
    workspace: Option<&str>,
    env_ws: Option<&str>,
    dry_run: bool,
) -> (r: Result<SyncReport, String>)
    ensures
        extends(old(link).calls_of(), final(link).calls_of()),
        keeps_loads(*old(link), *final(link)),
        ({
            let explicit = opt_str(workspace);
            let env = opt_str(env_ws);
            let calls = added(old(link).calls_of(), final(link).calls_of());
            let k = resolve_calls(explicit, env);
            &&& calls.len() >= k
            &&& resolving(explicit, env, calls.take(k))
            &&& match resolve_outcome(explicit, env, calls.take(k)) {
                Err(msg) => calls.len() == k && r is Err && r->Err_0@ == msg,
                Ok(w) => {
                    &&& calls.len() >= k + 1
                    &&& calls[k].args == list_argv(w)
                    &&& calls[k].reply is Some
                    &&& exists|existing: Seq<String>|
                        #[trigger] views(existing) == listed_keys(calls[k].reply->0) && pass_of(
                            Seq::empty(),
                            existing,
                            Seq::empty(),
                            Seq::empty(),
                            w,
                            dry_run,
                            calls.skip(k + 1),
                            r,
                        )
                },
            }
        }),
        r is Ok ==> forall|i: int|
            0 <= i < r->Ok_0.stale_cleared@.len() ==> crate::text::has_prefix(
                #[trigger] r->Ok_0.stale_cleared@[i]@,
                "bead:"@,
            ),
{
    let ghost start = link.calls_of();
    let ghost ex = opt_str(workspace);
    let ghost env = opt_str(env_ws);
    let resolved = resolve_or_identify(link, workspace, env_ws);
    let ghost mid = link.calls_of();
    let ghost k = resolve_calls(ex, env);
    let ws = match resolved {
        Ok(ws) => ws,
        Err(e) => {
            assert(added(start, link.calls_of()).take(k) =~= added(start, link.calls_of()));
            return Err(e);
        },
    };
    let listed = list_keys(link, ws.as_str());
    let ghost mid2 = link.calls_of();
    let existing = match listed {
        Ok(raw) => {
            let keys = parse_status_keys(raw.as_str());
            proof {
                crate::project::lemma_status_keys_prefixed(raw@);
                assert forall|i: int| 0 <= i < keys@.len() implies crate::text::has_prefix(
                    #[trigger] keys@[i]@,
                    "bead:"@,
                ) by {
                    assert(views(keys@)[i] == keys@[i]@);
                }
            }
            keys
        },
        Err(_) => Vec::new(),
    };
    assert(views(existing@) =~= listed_keys(reply_view(listed)));
    let plan = SyncPlan { apply: Vec::new(), stale: existing, counts: Vec::new() };
    let no_text = |a: u32, b: u32| -> (t: String) { String::new() };
    assert(total_count(plan.counts@) == 0);
    let r = apply_plan(link, ws.as_str(), &plan, dry_run, &no_text);
    proof {
        assert(plan.apply@ =~= Seq::<StatusPill>::empty());
        assert(plan.counts@ =~= Seq::<(String, u32)>::empty());
        assert(progress_spec(plan.counts@) is None);
        let cur = link.calls_of();
        assert(cur.subrange(0, mid2.len() as int) == mid2);
        assert(mid2.subrange(0, mid.len() as int) == mid);
        assert(cur.subrange(0, start.len() as int) =~= start) by {
            assert(cur.subrange(0, start.len() as int) =~= mid2.subrange(0, start.len() as int));
            assert(mid2.subrange(0, start.len() as int) =~= mid.subrange(0, start.len() as int));
        }
        let all = added(start, cur);
        assert(all.take(k) =~= added(start, mid)) by {
            assert forall|i: int| 0 <= i < k implies all.take(k)[i] == added(start, mid)[i] by {
                assert(cur[start.len() + i] == mid2[start.len() + i]);
                assert(mid2[start.len() + i] == mid[start.len() + i]);
            }
        }
        assert(all[k] == mid2.last()@) by {
            assert(cur[mid.len() as int] == mid2[mid.len() as int]);
        }
        assert(all.skip(k + 1) =~= added(mid2, cur));
        assert(views(plan.stale@) == listed_keys(all[k].reply->0));
    }
    r
}

} // verus!
