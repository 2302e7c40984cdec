//! The focused pane of the cmux session tree, whose working directory the
//! board follows.

use vstd::prelude::*;

use crate::sessions::{shown_tab, Pane, Screen, Tree, Workspace};
use crate::text::{first_index, lemma_first_index};

verus! {

/// PTY child metadata from the `process-info` command (protocol 6+).
#[derive(Debug, Clone, Default, PartialEq, Eq)]
pub struct ProcessInfo {
    pub pid: Option<u32>,
    pub command: Option<String>,
    pub cwd: Option<String>,
}

/// The surface of the focused pane: in the first active workspace, its
/// first active screen, the pane with that screen's active-pane id, and
/// that pane's shown tab.
pub open spec fn focused_surface_spec(tree: Tree) -> Option<u64> {
    let ws = tree.workspaces@;
    match first_index(ws, |w: Workspace| w.active) {
        None => None,
        Some(wi) => {
            let screens = ws[wi].screens@;
            match first_index(screens, |s: Screen| s.active) {
                None => None,
                Some(si) => {
                    let screen = screens[si];
                    match first_index(screen.panes@, |p: Pane| p.id == screen.active_pane) {
                        None => None,
                        Some(pi) => match shown_tab(screen.panes@[pi]) {
                            Some(tab) => Some(tab.surface),
                            None => None,
                        },
                    }
                },
            }
        },
    }
}

/// Active tab surface of the focused pane, if the tree has one.
pub fn focused_surface(tree: &Tree) -> (r: Option<u64>)
    ensures
        r == focused_surface_spec(*tree),
{
    let ghost ws = tree.workspaces@;
    let mut wi: usize = 0;
    while wi < tree.workspaces.len() && !tree.workspaces[wi].active
        invariant
            ws == tree.workspaces@,
            wi <= ws.len(),
            forall|j: int| 0 <= j < wi ==> !(|w: Workspace| w.active)(#[trigger] ws[j]),
        decreases ws.len() - wi,
    {
        wi = wi + 1;
    }
    proof {
        lemma_first_index(ws, |w: Workspace| w.active, wi as int);
    }
    if wi == tree.workspaces.len() {
        return None;
    }
    let workspace = &tree.workspaces[wi];
    let ghost screens = workspace.screens@;
    let mut si: usize = 0;
    while si < workspace.screens.len() && !workspace.screens[si].active
        invariant
            screens == workspace.screens@,
            si <= screens.len(),
            forall|j: int| 0 <= j < si ==> !(|s: Screen| s.active)(#[trigger] screens[j]),
        decreases screens.len() - si,
    {
        si = si + 1;
    }
    proof {
        lemma_first_index(screens, |s: Screen| s.active, si as int);
    }
    if si == workspace.screens.len() {
        return None;
    }
    let screen = &workspace.screens[si];
    let ghost panes = screen.panes@;
    let ghost is_active = |p: Pane| p.id == screen.active_pane;
    let mut pi: usize = 0;
    while pi < screen.panes.len() && screen.panes[pi].id != screen.active_pane
        invariant
            panes == screen.panes@,
            is_active == (|p: Pane| p.id == screen.active_pane),
            pi <= panes.len(),
            forall|j: int| 0 <= j < pi ==> !is_active(#[trigger] panes[j]),
        decreases panes.len() - pi,
    {
        pi = pi + 1;
    }
    proof {
        lemma_first_index(panes, is_active, pi as int);
    }
    if pi == screen.panes.len() {
        return None;
    }
    let pane = &screen.panes[pi];
    if pane.active_tab < pane.tabs.len() {
        Some(pane.tabs[pane.active_tab].surface)
    } else if pane.tabs.len() > 0 {
        Some(pane.tabs[0].surface)
    } else {
        None
    }
}

/// The socket path from the environment: `CMUX_TUI_SOCKET` when it is set,
/// else the legacy `CMUX_MUX_SOCKET`; an empty value counts as none.
pub fn socket_choice(tui: Option<String>, mux: Option<String>) -> (r: Option<String>)
    ensures
        r == match tui {
            Some(t) => if t@.len() > 0 {
                Some(t)
            } else {
                None
            },
            None => match mux {
                Some(m) => if m@.len() > 0 {
                    Some(m)
                } else {
                    None
                },
                None => None,
            },
        },
{
    let chosen = match tui {
        Some(t) => Some(t),
        None => mux,
    };
    match chosen {
        Some(path) => if path.as_str().is_empty() {
            None
        } else {
            Some(path)
        },
        None => None,
    }
}

/// The refusal when the tree has no focused pane surface.
pub const NO_SURFACE: &'static str = "no focused pane surface";

/// The working directory that `process-info` reported for `surface`, or
/// why there is none.
pub fn focused_cwd(info: &ProcessInfo, surface: u64) -> (r: Result<String, String>)
    ensures
        match info.cwd {
            Some(c) => if c@.len() > 0 {
                r == Ok::<String, String>(c)
            } else {
                r matches Err(e) && e@ == "process-info returned no cwd for surface "@
                    + crate::text::decimal(surface as nat)
            },
            None => r matches Err(e) && e@ == "process-info returned no cwd for surface "@
                + crate::text::decimal(surface as nat),
        },
{
    match &info.cwd {
        Some(c) => {
            if !c.as_str().is_empty() {
                return Ok(c.clone());
            }
        },
        None => {},
    }
    let mut msg = String::from_str("process-info returned no cwd for surface ");
    msg.append(crate::text::u64_text(surface).as_str());
    Err(msg)
}

} // verus!
