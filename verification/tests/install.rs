use cmux_beads::install::{dest_dir_from, path_join, sidebar_candidates, SIDEBAR_FILES};

#[test]
fn dest_dir_honors_override() {
    assert_eq!(
        dest_dir_from(
            Some("/tmp/cmux-beads-sidebars-test".to_string()),
            Some("/home/lab".to_string())
        ),
        "/tmp/cmux-beads-sidebars-test"
    );
    assert_eq!(
        dest_dir_from(None, Some("/home/lab".to_string())),
        "/home/lab/.config/cmux/sidebars"
    );
}

#[test]
fn dest_dir_falls_back_to_the_current_directory() {
    assert_eq!(dest_dir_from(Some(String::new()), None), "./.config/cmux/sidebars");
    assert_eq!(path_join("/home/lab/", "x"), "/home/lab/x");
    assert_eq!(path_join("", "x"), "x");
    assert_eq!(path_join("/a", "/b"), "/b");
    assert_eq!(SIDEBAR_FILES, ["beads.js", "beads.swift"]);
}

#[test]
fn sidebar_candidates_are_ordered() {
    let all = sidebar_candidates(Some("/share"), Some("/bin"), "/src", Some("/home/u"), Some("/xdg"));
    assert_eq!(
        all,
        [
            "/share/sidebars",
            "/bin/sidebars",
            "/bin/../sidebars",
            "/bin/../../sidebars",
            "/src/sidebars",
            "/home/u/.local/share/cmux/mux-plugins/cmux-beads/sidebars",
            "/xdg/cmux/mux-plugins/cmux-beads/sidebars"
        ]
    );
    assert_eq!(sidebar_candidates(None, None, "/src", None, Some("/xdg")), ["/src/sidebars"]);
}
