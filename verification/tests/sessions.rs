use cmux_beads::sessions::{
    encode_assignee, flatten_live_panes, flatten_live_workspaces, parse_assignee,
    resolve_assignee, Pane, Screen, Tab, Tree, Workspace,
};

fn sample_tree() -> Tree {
    Tree {
        workspaces: vec![Workspace {
            id: 1,
            name: "alpha".to_string(),
            active: true,
            screens: vec![Screen {
                id: 10,
                name: Some("editor".to_string()),
                active: true,
                active_pane: 12,
                panes: vec![Pane {
                    id: 12,
                    name: Some("agent".to_string()),
                    active_tab: 0,
                    tabs: vec![Tab {
                        surface: 21,
                        kind: "terminal".to_string(),
                        name: None,
                        title: "npm test".to_string(),
                    }],
                }],
            }],
        }],
    }
}

#[test]
fn encode_parse_roundtrip() {
    let encoded = encode_assignee(1, 12);
    assert_eq!(encoded, "cmux:1/12");
    assert_eq!(parse_assignee(&encoded), Some((1, 12)));
    assert_eq!(parse_assignee("user@example.com"), None);
}

#[test]
fn flatten_and_resolve_live_pane() {
    let panes = flatten_live_panes(&sample_tree());
    assert_eq!(panes.len(), 1);
    assert_eq!(panes[0].assignee(), "cmux:1/12");
    assert_eq!(panes[0].label(), "alpha > editor > agent");
    assert!(panes[0].active);
    let resolved = resolve_assignee("cmux:1/12", &panes).unwrap();
    assert_eq!(resolved.pane_id, 12);
}

#[test]
fn flatten_live_workspaces_comes_from_the_socket_tree() {
    let workspaces = flatten_live_workspaces(&sample_tree());
    assert_eq!(workspaces.len(), 1);
    assert_eq!(workspaces[0].id, 1);
    assert_eq!(workspaces[0].name, "alpha");
    assert!(workspaces[0].active);
    assert_eq!(workspaces[0].pane_count, 1);
    assert!(flatten_live_workspaces(&Tree {
        workspaces: Vec::new()
    })
    .is_empty());
}

#[test]
fn parse_assignee_rejects_malformed_ids() {
    assert_eq!(parse_assignee("cmux:18446744073709551615/0"), Some((u64::MAX, 0)));
    assert_eq!(parse_assignee("cmux:18446744073709551616/0"), None);
    assert_eq!(parse_assignee("cmux:1"), None);
    assert_eq!(parse_assignee("cmux:/2"), None);
    assert_eq!(parse_assignee("cmux:+1/+2"), Some((1, 2)));
    assert_eq!(parse_assignee("cmux:1/2/3"), None);
    for (w, p) in [(0, 0), (7, 42), (u64::MAX, 1)] {
        assert_eq!(parse_assignee(&encode_assignee(w, p)), Some((w, p)));
    }
}

#[test]
fn pane_titles_fall_back_to_tabs_and_ids() {
    let mut tree = sample_tree();
    let screen = &mut tree.workspaces[0].screens[0];
    screen.name = Some(String::new());
    screen.panes[0].name = None;
    screen.panes.push(Pane {
        id: 13,
        name: None,
        active_tab: 0,
        tabs: Vec::new(),
    });
    screen.panes.push(Pane {
        id: 14,
        name: None,
        active_tab: 3,
        tabs: vec![Tab {
            surface: 30,
            kind: "browser".to_string(),
            name: None,
            title: String::new(),
        }],
    });
    let panes = flatten_live_panes(&tree);
    let titles: Vec<&str> = panes.iter().map(|p| p.pane_title.as_str()).collect();
    assert_eq!(titles, ["npm test", "pane 13", "browser tab"]);
    assert_eq!(panes[0].screen_name, "screen 10");
    assert!(!panes[1].active);
    assert_eq!(flatten_live_workspaces(&tree)[0].pane_count, 3);
    assert!(resolve_assignee("cmux:1/99", &panes).is_none());
}
