use cmux_beads::plugin::PLUGIN_MANIFEST;

#[test]
fn plugin_manifest_matches_sidebar_contract() {
    let raw = PLUGIN_MANIFEST;
    assert!(raw.contains("kind = \"sidebar\""), "kind must be sidebar");
    assert!(raw.contains("name = \"cmux-beads\""), "plugin name must be cmux-beads");
    assert!(
        raw.contains("target/release/cmux-beads"),
        "run.command must point at the release binary"
    );
    assert!(
        raw.contains("cargo") && raw.contains("build"),
        "build.command must compile the plugin"
    );
    assert!(!raw.contains("cmux-sidebar-beads"), "old crate name must be gone");
}
