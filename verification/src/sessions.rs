//! Live cmux workspaces / screens / panes, and the assignee mapping.
//!
//! `bd` has no first-class chat or pane id. Assignment is stored on the
//! issue itself:
//!
//! - **assignee** = `cmux:{workspace_id}/{pane_id}`
//!
//! Display names come from the live tree at render time. No second database.

use vstd::prelude::*;

use crate::bd::types::nonempty;
use crate::text::{
    before_first, decimal, digits_value, find, has_prefix, is_digit, lemma_find, parse_u64,
    parse_u64_spec, unsigned_digits, u64_text,
};

verus! {

/// Prefix written into the `bd` assignee field.
pub const ASSIGNEE_PREFIX: &'static str = "cmux:";

/// One tab of a pane in the cmux session tree.
#[derive(Debug, Clone)]
pub struct Tab {
    pub surface: u64,
    pub kind: String,
    pub name: Option<String>,
    pub title: String,
}

/// One pane of a screen in the cmux session tree.
#[derive(Debug, Clone)]
pub struct Pane {
    pub id: u64,
    pub name: Option<String>,
    pub active_tab: usize,
    pub tabs: Vec<Tab>,
}

/// One screen of a workspace in the cmux session tree.
#[derive(Debug, Clone)]
pub struct Screen {
    pub id: u64,
    pub name: Option<String>,
    pub active: bool,
    pub active_pane: u64,
    pub panes: Vec<Pane>,
}

/// One workspace of the cmux session tree.
#[derive(Debug, Clone)]
pub struct Workspace {
    pub id: u64,
    pub name: String,
    pub active: bool,
    pub screens: Vec<Screen>,
}

/// The cmux session tree (`list-workspaces`), as far as the board reads it.
#[derive(Debug, Clone)]
pub struct Tree {
    pub workspaces: Vec<Workspace>,
}

/// One live workspace from `list-workspaces` on `CMUX_TUI_SOCKET`.
#[derive(Debug, Clone, PartialEq, Eq)]
pub struct LiveWorkspace {
    pub id: u64,
    pub name: String,
    pub active: bool,
    pub pane_count: usize,
}

/// One live pane the user can assign a bead to.
#[derive(Debug, Clone, PartialEq, Eq)]
pub struct LivePane {
    pub workspace_id: u64,
    pub workspace_name: String,
    pub screen_id: u64,
    pub screen_name: String,
    pub pane_id: u64,
    pub pane_title: String,
    pub active: bool,
}

/// The `bd` assignee text of a pane.
pub open spec fn assignee_spec(workspace_id: u64, pane_id: u64) -> Seq<char> {
    "cmux:"@ + decimal(workspace_id as nat) + "/"@ + decimal(pane_id as nat)
}

/// The workspace and pane a `cmux:{workspace_id}/{pane_id}` assignee names.
pub open spec fn parse_assignee_spec(raw: Seq<char>) -> Option<(u64, u64)> {
    if !has_prefix(raw, "cmux:"@) {
        None
    } else {
        let rest = raw.skip(5);
        match find(rest, "/"@) {
            None => None,
            Some(k) => match (parse_u64_spec(rest.subrange(0, k)), parse_u64_spec(rest.skip(k + 1))) {
                (Some(w), Some(p)) => Some((w, p)),
                _ => None,
            },
        }
    }
}

impl LivePane {
    /// Stable `bd` assignee string for this pane.
    pub fn assignee(&self) -> (r: String)
        ensures
            r@ == assignee_spec(self.workspace_id, self.pane_id),
    {
        encode_assignee(self.workspace_id, self.pane_id)
    }

    /// Human breadcrumb, fzf-plugin style.
    pub fn label(&self) -> (r: String)
        ensures
            r@ == self.workspace_name@ + " > "@ + self.screen_name@ + " > "@ + self.pane_title@,
    {
        let mut out = self.workspace_name.clone();
        out.append(" > ");
        out.append(self.screen_name.as_str());
        out.append(" > ");
        out.append(self.pane_title.as_str());
        out
    }
}

/// Encode a live pane as a `bd` assignee.
pub fn encode_assignee(workspace_id: u64, pane_id: u64) -> (r: String)
    ensures
        r@ == assignee_spec(workspace_id, pane_id),
{
    let mut out = String::from_str(ASSIGNEE_PREFIX);
    out.append(u64_text(workspace_id).as_str());
    out.append("/");
    out.append(u64_text(pane_id).as_str());
    out
}

/// Parse `cmux:{workspace_id}/{pane_id}`.
pub fn parse_assignee(raw: &str) -> (r: Option<(u64, u64)>)
    ensures
        r == parse_assignee_spec(raw@),
{
    proof {
        reveal_strlit("cmux:");
    }
    if !crate::text::starts_with_str(raw, ASSIGNEE_PREFIX) {
        return None;
    }
    let n = raw.unicode_len();
    let rest = raw.substring_char(5, n);
    assert(rest@ =~= raw@.skip(5));
    let rest_chars = crate::text::chars_of(rest);
    let slash = crate::text::chars_of("/");
    let found = crate::text::find_vec(&rest_chars, &slash, 0);
    proof {
        lemma_find(rest@, "/"@);
    }
    match found {
        None => None,
        Some(k) => {
            let m = rest.unicode_len();
            let workspace = rest.substring_char(0, k);
            proof {
                reveal_strlit("/");
            }
            let pane = rest.substring_char(k + 1, m);
            assert(pane@ =~= rest@.skip(k + 1));
            match (parse_u64(workspace), parse_u64(pane)) {
                (Some(w), Some(p)) => Some((w, p)),
                _ => None,
            }
        },
    }
}

proof fn lemma_digit_char(d: nat)
    requires
        d < 10,
    ensures
        crate::text::digit_value(crate::text::digit_char(d)) == d,
{
    let c = crate::text::digit_char(d);
    if d == 0 { assert(c == '0'); }
    else if d == 1 { assert(c == '1'); assert(('1' as int) - ('0' as int) == 1); }
    else if d == 2 { assert(('2' as int) - ('0' as int) == 2); }
    else if d == 3 { assert(('3' as int) - ('0' as int) == 3); }
    else if d == 4 { assert(('4' as int) - ('0' as int) == 4); }
    else if d == 5 { assert(('5' as int) - ('0' as int) == 5); }
    else if d == 6 { assert(('6' as int) - ('0' as int) == 6); }
    else if d == 7 { assert(('7' as int) - ('0' as int) == 7); }
    else if d == 8 { assert(('8' as int) - ('0' as int) == 8); }
    else { assert(('9' as int) - ('0' as int) == 9); }
}

proof fn lemma_decimal_digits(n: nat)
    ensures
        decimal(n).len() > 0,
        forall|i: int| 0 <= i < decimal(n).len() ==> is_digit(#[trigger] decimal(n)[i]),
        digits_value(decimal(n)) == n,
    decreases n,
{
    lemma_digit_char(n % 10);
    if n < 10 {
        assert(n % 10 == n);
        let d = decimal(n);
        assert(d == seq![crate::text::digit_char(n)]);
        assert(d.drop_last() =~= Seq::<char>::empty());
        assert(digits_value(d.drop_last()) == 0);
        assert(d.last() == crate::text::digit_char(n));
        assert(digits_value(d) == digits_value(d.drop_last()) * 10 + crate::text::digit_value(d.last()));
    }
    if n >= 10 {
        lemma_decimal_digits(n / 10);
        let d = decimal(n);
        assert(d.drop_last() =~= decimal(n / 10));
        assert(digits_value(d) == digits_value(decimal(n / 10)) * 10 + (n % 10));
        assert(n == (n / 10) * 10 + n % 10) by (nonlinear_arith);
    }
}

/// Decoding an encoded assignee gives back the workspace and the pane.
pub proof fn law_assignee_roundtrip(workspace_id: u64, pane_id: u64)
    ensures
        parse_assignee_spec(assignee_spec(workspace_id, pane_id)) == Some((workspace_id, pane_id)),
{
    reveal_strlit("cmux:");
    reveal_strlit("/");
    let dw = decimal(workspace_id as nat);
    let dp = decimal(pane_id as nat);
    lemma_decimal_digits(workspace_id as nat);
    lemma_decimal_digits(pane_id as nat);
    let raw = assignee_spec(workspace_id, pane_id);
    assert(raw.subrange(0, 5) =~= "cmux:"@);
    let rest = raw.skip(5);
    assert(rest =~= dw + "/"@ + dp);
    let l = dw.len() as int;
    assert(rest.subrange(l, l + 1) =~= "/"@);
    assert(crate::text::occurs_at(rest, "/"@, l));
    lemma_find(rest, "/"@);
    let k = find(rest, "/"@)->0;
    if k < l {
        assert(rest.subrange(k, k + 1)[0] == rest[k]);
        assert(rest[k] == dw[k]);
        assert(is_digit(dw[k]));
        assert(false);
    }
    assert(k == l);
    assert(rest.subrange(0, k) =~= dw);
    assert(rest.skip(k + 1) =~= dp);
    assert(unsigned_digits(dw) == dw);
    assert(unsigned_digits(dp) == dp);
}

/// The tab a pane shows: its active tab, else its first tab.
pub open spec fn shown_tab(pane: Pane) -> Option<Tab> {
    if pane.active_tab < pane.tabs@.len() {
        Some(pane.tabs@[pane.active_tab as int])
    } else if pane.tabs@.len() > 0 {
        Some(pane.tabs@[0])
    } else {
        None
    }
}

/// The title of a pane: its name, else its shown tab's name, title or
/// `{kind} tab`, else `pane {id}`.
pub open spec fn pane_title_spec(pane: Pane) -> Seq<char> {
    match nonempty(pane.name) {
        Some(n) => n,
        None => match shown_tab(pane) {
            Some(tab) => match nonempty(tab.name) {
                Some(n) => n,
                None => if tab.title@.len() > 0 { tab.title@ } else { tab.kind@ + " tab"@ },
            },
            None => "pane "@ + decimal(pane.id as nat),
        },
    }
}

/// The name of a screen: its name, else `screen {id}`.
pub open spec fn screen_name_spec(screen: Screen) -> Seq<char> {
    match nonempty(screen.name) {
        Some(n) => n,
        None => "screen "@ + decimal(screen.id as nat),
    }
}

fn pane_title(pane: &Pane) -> (r: String)
    ensures
        r@ == pane_title_spec(*pane),
{
    match &pane.name {
        Some(name) => if !name.as_str().is_empty() {
            return name.clone();
        },
        None => {},
    }
    let tab = if pane.active_tab < pane.tabs.len() {
        Some(&pane.tabs[pane.active_tab])
    } else if pane.tabs.len() > 0 {
        Some(&pane.tabs[0])
    } else {
        None
    };
    match tab {
        Some(tab) => {
            match &tab.name {
                Some(name) => if !name.as_str().is_empty() {
                    return name.clone();
                },
                None => {},
            }
            if !tab.title.as_str().is_empty() {
                return tab.title.clone();
            }
            let mut out = tab.kind.clone();
            out.append(" tab");
            out
        },
        None => {
            let mut out = String::from_str("pane ");
            out.append(u64_text(pane.id).as_str());
            out
        },
    }
}

fn screen_name(screen: &Screen) -> (r: String)
    ensures
        r@ == screen_name_spec(*screen),
{
    match &screen.name {
        Some(name) => if !name.as_str().is_empty() {
            return name.clone();
        },
        None => {},
    }
    let mut out = String::from_str("screen ");
    out.append(u64_text(screen.id).as_str());
    out
}

/// The number of panes of a workspace, over its screens.
pub open spec fn pane_total(screens: Seq<Screen>) -> nat
    decreases screens.len(),
{
    if screens.len() == 0 {
        0
    } else {
        pane_total(screens.drop_last()) + screens.last().panes@.len()
    }
}

proof fn lemma_pane_total_prefix(screens: Seq<Screen>, k: int)
    requires
        0 <= k <= screens.len(),
    ensures
        pane_total(screens.subrange(0, k)) <= pane_total(screens),
    decreases screens.len() - k,
{
    if k < screens.len() {
        lemma_pane_total_prefix(screens, k + 1);
        assert(screens.subrange(0, k + 1).drop_last() =~= screens.subrange(0, k));
    } else {
        assert(screens.subrange(0, k) =~= screens);
    }
}

/// `lw` is the live view of workspace `w`.
pub open spec fn live_workspace_of(lw: LiveWorkspace, w: Workspace) -> bool {
    &&& lw.id == w.id
    &&& lw.name@ == w.name@
    &&& lw.active == w.active
    &&& lw.pane_count as nat == pane_total(w.screens@)
}

/// Flatten the cmux session tree into workspaces. Names and ids come from
/// the live socket; this never invents a workspace that is not in `tree`.
pub fn flatten_live_workspaces(tree: &Tree) -> (r: Vec<LiveWorkspace>)
    requires
        forall|i: int|
            0 <= i < tree.workspaces@.len() ==> pane_total(#[trigger] tree.workspaces@[i].screens@)
                <= usize::MAX,
    ensures
        r@.len() == tree.workspaces@.len(),
        forall|i: int| 0 <= i < r@.len() ==> live_workspace_of(#[trigger] r@[i], tree.workspaces@[i]),
{
    let mut out: Vec<LiveWorkspace> = Vec::new();
    let mut i: usize = 0;
    while i < tree.workspaces.len()
        invariant
            i <= tree.workspaces@.len(),
            out@.len() == i,
            forall|j: int|
                0 <= j < tree.workspaces@.len() ==> pane_total(#[trigger] tree.workspaces@[j].screens@)
                    <= usize::MAX,
            forall|j: int| 0 <= j < i ==> live_workspace_of(#[trigger] out@[j], tree.workspaces@[j]),
        decreases tree.workspaces@.len() - i,
    {
        let w = &tree.workspaces[i];
        let mut count: usize = 0;
        let mut s: usize = 0;
        assert(w.screens@.subrange(0, 0) =~= Seq::<Screen>::empty());
        while s < w.screens.len()
            invariant
                s <= w.screens@.len(),
                pane_total(w.screens@) <= usize::MAX,
                count as nat == pane_total(w.screens@.subrange(0, s as int)),
            decreases w.screens@.len() - s,
        {
            proof {
                assert(w.screens@.subrange(0, s + 1).drop_last() =~= w.screens@.subrange(0, s as int));
                lemma_pane_total_prefix(w.screens@, s + 1);
            }
            count = count + w.screens[s].panes.len();
            s = s + 1;
        }
        assert(w.screens@.subrange(0, w.screens@.len() as int) =~= w.screens@);
        out.push(LiveWorkspace { id: w.id, name: w.name.clone(), active: w.active, pane_count: count });
        i = i + 1;
    }
    out
}

/// `p` is the live view of pane `pane` of screen `screen` of workspace `w`.
pub open spec fn live_pane_of(p: LivePane, w: Workspace, screen: Screen, pane: Pane) -> bool {
    &&& p.workspace_id == w.id
    &&& p.workspace_name@ == w.name@
    &&& p.screen_id == screen.id
    &&& p.screen_name@ == screen_name_spec(screen)
    &&& p.pane_id == pane.id
    &&& p.pane_title@ == pane_title_spec(pane)
    &&& p.active == (w.active && screen.active && pane.id == screen.active_pane)
}

/// The (workspace, screen, pane) positions of the first `n` screens of
/// workspace `wi`, in order.
pub open spec fn screen_slots(w: Workspace, wi: int, n: int) -> Seq<(int, int, int)>
    decreases n,
{
    if n <= 0 {
        seq![]
    } else {
        screen_slots(w, wi, n - 1) + Seq::new(
            w.screens@[n - 1].panes@.len(),
            |pi: int| (wi, n - 1, pi),
        )
    }
}

/// The (workspace, screen, pane) positions of the first `n` workspaces of
/// the tree, in order.
pub open spec fn tree_slots(tree: Tree, n: int) -> Seq<(int, int, int)>
    decreases n,
{
    if n <= 0 {
        seq![]
    } else {
        tree_slots(tree, n - 1) + screen_slots(
            tree.workspaces@[n - 1],
            n - 1,
            tree.workspaces@[n - 1].screens@.len() as int,
        )
    }
}

/// `p` is the live view of the pane at position `slot` of `tree`.
pub open spec fn live_pane_at(p: LivePane, tree: Tree, slot: (int, int, int)) -> bool {
    let w = tree.workspaces@[slot.0];
    let screen = w.screens@[slot.1];
    live_pane_of(p, w, screen, screen.panes@[slot.2])
}

/// Flatten the cmux session tree into assignable panes.
pub fn flatten_live_panes(tree: &Tree) -> (r: Vec<LivePane>)
    ensures
        r@.len() == tree_slots(*tree, tree.workspaces@.len() as int).len(),
        forall|k: int|
            0 <= k < r@.len() ==> live_pane_at(
                #[trigger] r@[k],
                *tree,
                tree_slots(*tree, tree.workspaces@.len() as int)[k],
            ),
{
    let mut panes: Vec<LivePane> = Vec::new();
    let mut wi: usize = 0;
    while wi < tree.workspaces.len()
        invariant
            wi <= tree.workspaces@.len(),
            panes@.len() == tree_slots(*tree, wi as int).len(),
            forall|k: int|
                0 <= k < panes@.len() ==> live_pane_at(
                    #[trigger] panes@[k],
                    *tree,
                    tree_slots(*tree, wi as int)[k],
                ),
        decreases tree.workspaces@.len() - wi,
    {
        let workspace = &tree.workspaces[wi];
        let ghost base = tree_slots(*tree, wi as int);
        let mut si: usize = 0;
        while si < workspace.screens.len()
            invariant
                wi < tree.workspaces@.len(),
                *workspace == tree.workspaces@[wi as int],
                si <= workspace.screens@.len(),
                base == tree_slots(*tree, wi as int),
                panes@.len() == base.len() + screen_slots(*workspace, wi as int, si as int).len(),
                forall|k: int|
                    0 <= k < panes@.len() ==> live_pane_at(
                        #[trigger] panes@[k],
                        *tree,
                        (base + screen_slots(*workspace, wi as int, si as int))[k],
                    ),
            decreases workspace.screens@.len() - si,
        {
            let screen = &workspace.screens[si];
            let name = screen_name(screen);
            let ghost before = base + screen_slots(*workspace, wi as int, si as int);
            let mut pi: usize = 0;
            while pi < screen.panes.len()
                invariant
                    wi < tree.workspaces@.len(),
                    *workspace == tree.workspaces@[wi as int],
                    si < workspace.screens@.len(),
                    *screen == workspace.screens@[si as int],
                    name@ == screen_name_spec(*screen),
                    pi <= screen.panes@.len(),
                    panes@.len() == before.len() + pi,
                    forall|k: int|
                        0 <= k < panes@.len() ==> live_pane_at(
                            #[trigger] panes@[k],
                            *tree,
                            (before + Seq::new(
                                screen.panes@.len(),
                                |p: int| (wi as int, si as int, p),
                            ))[k],
                        ),
                decreases screen.panes@.len() - pi,
            {
                let pane = &screen.panes[pi];
                panes.push(
                    LivePane {
                        workspace_id: workspace.id,
                        workspace_name: workspace.name.clone(),
                        screen_id: screen.id,
                        screen_name: name.clone(),
                        pane_id: pane.id,
                        pane_title: pane_title(pane),
                        active: workspace.active && screen.active && pane.id == screen.active_pane,
                    },
                );
                pi = pi + 1;
            }
            proof {
                assert(screen_slots(*workspace, wi as int, si + 1) == screen_slots(
                    *workspace,
                    wi as int,
                    si as int,
                ) + Seq::new(screen.panes@.len(), |p: int| (wi as int, si as int, p)));
                assert(base + screen_slots(*workspace, wi as int, si + 1) =~= before + Seq::new(
                    screen.panes@.len(),
                    |p: int| (wi as int, si as int, p),
                ));
            }
            si = si + 1;
        }
        proof {
            assert(tree_slots(*tree, wi + 1) == base + screen_slots(
                *workspace,
                wi as int,
                workspace.screens@.len() as int,
            ));
        }
        wi = wi + 1;
    }
    panes
}

/// The first pane of `panes` with the given workspace and pane ids.
pub open spec fn find_pane(panes: Seq<LivePane>, workspace_id: u64, pane_id: u64) -> Option<int>
    decreases panes.len(),
{
    if panes.len() == 0 {
        None
    } else {
        match find_pane(panes.drop_last(), workspace_id, pane_id) {
            Some(k) => Some(k),
            None => if panes.last().workspace_id == workspace_id && panes.last().pane_id == pane_id {
                Some(panes.len() - 1)
            } else {
                None
            },
        }
    }
}

proof fn lemma_find_pane(panes: Seq<LivePane>, w: u64, p: u64, k: int)
    requires
        0 <= k <= panes.len(),
        forall|j: int| 0 <= j < k ==> !(panes[j].workspace_id == w && panes[j].pane_id == p),
    ensures
        k == panes.len() ==> find_pane(panes, w, p) is None,
        k < panes.len() && panes[k].workspace_id == w && panes[k].pane_id == p ==> find_pane(
            panes,
            w,
            p,
        ) == Some(k),
    decreases panes.len(),
{
    if panes.len() > 0 {
        if k < panes.len() {
            if k < panes.len() - 1 {
                lemma_find_pane(panes.drop_last(), w, p, k);
            } else {
                lemma_find_pane(panes.drop_last(), w, p, k);
            }
        } else {
            lemma_find_pane(panes.drop_last(), w, p, k - 1);
        }
    }
}

/// Resolve a stored assignee against the live tree for display.
pub fn resolve_assignee<'a>(raw: &str, panes: &'a [LivePane]) -> (r: Option<&'a LivePane>)
    ensures
        match parse_assignee_spec(raw@) {
            None => r is None,
            Some((w, p)) => match find_pane(panes@, w, p) {
                Some(k) => 0 <= k < panes@.len() && r is Some && *r->0 == panes@[k],
                None => r is None,
            },
        },
{
    let (workspace_id, pane_id) = match parse_assignee(raw) {
        Some(ids) => ids,
        None => return None,
    };
    let mut k: usize = 0;
    while k < panes.len()
        invariant
            k <= panes@.len(),
            parse_assignee_spec(raw@) == Some((workspace_id, pane_id)),
            forall|j: int|
                0 <= j < k ==> !(panes@[j].workspace_id == workspace_id && panes@[j].pane_id == pane_id),
        decreases panes@.len() - k,
    {
        if panes[k].workspace_id == workspace_id && panes[k].pane_id == pane_id {
            proof {
                lemma_find_pane(panes@, workspace_id, pane_id, k as int);
            }
            return Some(&panes[k]);
        }
        k = k + 1;
    }
    proof {
        lemma_find_pane(panes@, workspace_id, pane_id, k as int);
    }
    None
}

} // verus!
