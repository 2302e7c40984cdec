use std::path::PathBuf;

use cmux_beads::cwd::{focused_cwd, focused_surface, socket_choice, ProcessInfo};
use cmux_beads::sessions::{Pane, Screen, Tab, Tree, Workspace};

fn tab(surface: u64, title: &str) -> Tab {
    Tab {
        surface,
        kind: "terminal".to_string(),
        name: None,
        title: title.to_string(),
    }
}

fn sample_tree() -> Tree {
    Tree {
        workspaces: vec![Workspace {
            id: 1,
            name: "alpha".to_string(),
            active: true,
            screens: vec![Screen {
                id: 10,
                name: Some("editor".to_string()),
                active: true,
                active_pane: 12,
                panes: vec![
                    Pane {
                        id: 11,
                        name: Some("other".to_string()),
                        active_tab: 0,
                        tabs: vec![tab(20, "idle")],
                    },
                    Pane {
                        id: 12,
                        name: Some("shell".to_string()),
                        active_tab: 0,
                        tabs: vec![tab(21, "npm test")],
                    },
                ],
            }],
        }],
    }
}

#[test]
fn focused_surface_is_the_active_pane_tab() {
    assert_eq!(focused_surface(&sample_tree()), Some(21));
}

#[test]
fn focused_surface_none_when_empty() {
    let tree = Tree {
        workspaces: Vec::new(),
    };
    assert_eq!(focused_surface(&tree), None);
}

#[test]
fn socket_from_env_prefers_tui_then_mux() {
    assert!(PathBuf::from("/tmp/cmux-tui.sock").file_name().is_some());
    let tui = Some("/tmp/cmux-tui.sock".to_string());
    let mux = Some("/tmp/cmux-mux.sock".to_string());
    assert_eq!(socket_choice(tui.clone(), mux.clone()), tui);
    assert_eq!(socket_choice(None, mux.clone()), mux);
    assert_eq!(socket_choice(Some(String::new()), mux), None);
    assert_eq!(socket_choice(None, None), None);
}

#[test]
fn focused_surface_falls_back_to_the_first_tab() {
    let mut tree = sample_tree();
    tree.workspaces[0].screens[0].panes[1].active_tab = 5;
    tree.workspaces[0].screens[0].panes[1].tabs.push(tab(22, "second"));
    assert_eq!(focused_surface(&tree), Some(21));
    tree.workspaces[0].screens[0].active_pane = 99;
    assert_eq!(focused_surface(&tree), None);
}

#[test]
fn process_info_cwd_must_be_present() {
    let info = ProcessInfo {
        pid: None,
        command: None,
        cwd: Some("/tmp/project".to_string()),
    };
    assert_eq!(focused_cwd(&info, 21), Ok("/tmp/project".to_string()));
    let empty = ProcessInfo {
        cwd: Some(String::new()),
        ..ProcessInfo::default()
    };
    assert_eq!(
        focused_cwd(&empty, 21),
        Err("process-info returned no cwd for surface 21".to_string())
    );
    assert!(focused_cwd(&ProcessInfo::default(), 3).is_err());
}
