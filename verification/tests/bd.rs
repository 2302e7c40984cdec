use cmux_beads::bd::types::{Bead, Dependency};
use cmux_beads::bd::{
    after_create, after_update, argv_claim, argv_close, argv_comment, argv_create, argv_list,
    argv_list_closed, argv_note, argv_set_assignee, argv_set_priority, argv_set_status,
    argv_show, argv_update, bd_argv, choose_bd, contains_id, list_shape, merge_closed, merges_closed,
    search_path, uses_shared_server, BridgeError, ListMode, ListShape, NewBead, Scope,
};
use cmux_beads::json::{extract_texts, JsonValue};

fn sample_new(title: &str) -> NewBead<'_> {
    NewBead {
        title,
        issue_type: "bug",
        priority: 1,
        description: "",
        assignee: "",
        parent: "",
        labels: "",
        deferred: false,
    }
}

fn bead(id: &str) -> Bead {
    Bead {
        id: id.to_string(),
        status: "open".to_string(),
        ..Bead::default()
    }
}

fn text(s: &str) -> JsonValue {
    JsonValue::String(s.to_string())
}

#[test]
fn list_argv_is_json_source_of_truth() {
    assert_eq!(argv_list(ListMode::All), ["list", "--json"]);
    assert_eq!(argv_list(ListMode::Ready), ["ready", "--json"]);
}

#[test]
fn write_argv_never_joins_user_text() {
    let reason = r#"done; rm -rf / && echo 'injected'"#;
    let args = argv_close("bd-1", reason);
    assert_eq!(args, ["close", "bd-1", "-r", reason]);
    assert_eq!(args.len(), 4, "reason must stay one argv element");

    let title = r#"fix "quotes" & $HOME"#;
    let create_args = argv_create(&sample_new(title));
    assert_eq!(create_args, ["create", title, "-t", "bug", "-p", "1"]);

    let note = r#"see `rm -rf` && echo"#;
    assert_eq!(argv_note("bd-1", note), ["note", "bd-1", note]);
    assert_eq!(argv_comment("bd-1", note), ["comment", "bd-1", note]);
    assert_eq!(
        argv_set_assignee("bd-1", "cmux:1/12"),
        ["update", "bd-1", "-a", "cmux:1/12"]
    );
}

#[test]
fn create_and_update_include_optional_fields() {
    let new_bead = NewBead {
        title: "t",
        issue_type: "epic",
        priority: 0,
        description: "d",
        assignee: "cmux:1/2",
        parent: "e-1",
        labels: "cmux,ui",
        deferred: true,
    };
    let created = argv_create(&new_bead);
    assert!(created.contains(&"--parent".to_string()));
    assert!(created.contains(&"-l".to_string()));
    assert!(created.contains(&"cmux,ui".to_string()));
    let updated = argv_update("bd-9", &new_bead);
    assert!(updated.contains(&"--set-labels".to_string()));
    assert!(updated.contains(&"--title".to_string()));
}

#[test]
fn claim_and_status_argv() {
    assert_eq!(argv_claim("bd-9"), ["update", "bd-9", "--claim"]);
    assert_eq!(
        argv_set_status("bd-9", "in_progress"),
        ["update", "bd-9", "-s", "in_progress"]
    );
    assert_eq!(argv_set_priority("bd-9", 0), ["update", "bd-9", "-p", "0"]);
    assert_eq!(argv_show("bd-9"), ["show", "bd-9", "--json"]);
}

#[test]
fn extract_texts_accepts_string_array_and_objects() {
    assert!(extract_texts(&JsonValue::Null).is_empty());
    assert_eq!(extract_texts(&text("ship it")), ["ship it"]);
    let objects = JsonValue::Array(vec![
        JsonValue::Object(vec![("text".to_string(), text("n1"))]),
        JsonValue::Object(vec![("body".to_string(), text("n2"))]),
    ]);
    assert_eq!(extract_texts(&objects), ["n1", "n2"]);
    assert_eq!(
        extract_texts(&JsonValue::Array(vec![text("a"), text("b")])),
        ["a", "b"]
    );
}

#[test]
fn create_argv_orders_optional_fields() {
    let new_bead = NewBead {
        title: "t",
        issue_type: "epic",
        priority: 3,
        description: "d",
        assignee: "a",
        parent: "e-1",
        labels: "x",
        deferred: false,
    };
    assert_eq!(
        argv_create(&new_bead),
        ["create", "t", "-t", "epic", "-p", "3", "--description", "d", "-a", "a", "--parent", "e-1", "-l", "x"]
    );
    assert_eq!(
        argv_update("bd-2", &new_bead),
        [
            "update", "bd-2", "--title", "t", "-t", "epic", "-p", "3", "--description", "d", "-a", "a",
            "--parent", "e-1", "--set-labels", "x"
        ]
    );
}

#[test]
fn closed_listing_and_global_scope() {
    assert_eq!(argv_list_closed(), ["list", "--status", "closed", "--json"]);
    let args = argv_claim("bd-1");
    assert_eq!(bd_argv(Scope::Global, &args), ["--global", "update", "bd-1", "--claim"]);
    assert_eq!(bd_argv(Scope::Repo, &args), ["update", "bd-1", "--claim"]);
    assert!(uses_shared_server(Scope::Global));
    assert!(!uses_shared_server(Scope::Repo));
    assert_eq!(search_path("/x"), "/opt/homebrew/bin:/usr/local/bin:/usr/bin:/x");
    assert_eq!(Scope::Repo.label(), "repo");
    assert_eq!(Scope::Repo.toggled(), Scope::Global);
}

#[test]
fn closed_issues_merge_without_duplicates() {
    assert!(merges_closed(ListMode::All, true));
    assert!(!merges_closed(ListMode::Ready, true));
    assert!(!merges_closed(ListMode::All, false));
    let merged = merge_closed(vec![bead("a"), bead("b")], vec![bead("b"), bead("c")]);
    let ids: Vec<&str> = merged.iter().map(|b| b.id.as_str()).collect();
    assert_eq!(ids, ["a", "b", "c"]);
    assert!(contains_id(&merged, "c"));
    assert!(!contains_id(&merged, "d"));
}

#[test]
fn create_follow_up_defers_backlog_beads() {
    let (id, follow) = after_create(true, "  bd-7\n");
    assert_eq!(id, "bd-7");
    assert_eq!(follow.unwrap(), ["update", "bd-7", "-s", "deferred"]);
    let (id, follow) = after_create(true, "   ");
    assert_eq!(id, "");
    assert!(follow.is_none());
    assert!(after_create(false, "bd-8").1.is_none());
    assert_eq!(after_update("bd-9", true).unwrap(), ["update", "bd-9", "-s", "deferred"]);
    assert!(after_update("bd-9", false).is_none());
}

#[test]
fn list_shape_reads_the_first_character() {
    assert_eq!(list_shape(" \n "), (ListShape::Empty, ""));
    assert_eq!(list_shape(" [1] ").0, ListShape::Array);
    assert_eq!(list_shape("{\"id\":\"x\"}").0, ListShape::Object);
    assert_eq!(list_shape("not json").0, ListShape::Unknown);
}

#[test]
fn bridge_errors_read_like_bd() {
    assert!(BridgeError::Missing.message().starts_with("bd is not on PATH"));
    let failed = BridgeError::Failed {
        command: "list --json".to_string(),
        message: "no db".to_string(),
    };
    assert_eq!(failed.message(), "bd list --json: no db");
    assert_eq!(BridgeError::Parse("eof".to_string()).message(), "bd json: eof");
}

#[test]
fn bead_reads_assignee_labels_and_dependencies() {
    let b = Bead {
        id: "demo-1".to_string(),
        owner: Some("user@example.com".to_string()),
        labels: JsonValue::Array(vec![text("ui"), text("")]),
        issue_type: "epic".to_string(),
        status: "closed".to_string(),
        dependencies: vec![Dependency {
            depends_on_id: Some("demo-2".to_string()),
            title: Some("Design".to_string()),
            dep_type: Some("blocks".to_string()),
            ..Dependency::default()
        }],
        ..Bead::default()
    };
    assert_eq!(b.assignee_display(), "user");
    assert_eq!(b.assignee_raw(), Some("user@example.com"));
    assert_eq!(b.label_list(), ["ui"]);
    assert!(b.is_epic());
    assert!(b.is_closed());
    assert_eq!(b.dependencies[0].other_id(), Some("demo-2"));
    assert_eq!(b.dependencies[0].label(), "blocks: demo-2 - Design");
    let pane = Bead {
        assignee: Some("cmux:1/12".to_string()),
        ..Bead::default()
    };
    assert_eq!(pane.assignee_display(), "cmux:1/12");
    assert_eq!(Bead::default().assignee_display(), "-");
}

#[test]
fn list_shape_reads_blank_output_as_empty() {
    assert_eq!(list_shape("").0, ListShape::Empty);
    assert_eq!(list_shape(" \n ").0, ListShape::Empty);
}

#[test]
fn list_shape_refuses_text_that_is_not_json() {
    assert_eq!(list_shape("not json").0, ListShape::Unknown);
}

#[test]
fn bd_is_taken_from_path_then_the_usual_places() {
    assert_eq!(choose_bd(true, &vec![true, true, true, true]), "bd");
    assert_eq!(choose_bd(false, &vec![false, true, true, false]), "/usr/local/bin/bd");
    assert_eq!(choose_bd(false, &vec![false, false, false, false]), "bd");
    assert_eq!(choose_bd(false, &vec![]), "bd");
}
