//! The cmux plugin manifest (`cmux-plugin.toml`) the board ships with: a
//! sidebar plugin named `cmux-beads`, run from the release binary and built
//! with cargo.

use vstd::prelude::*;

verus! {

/// The text of `cmux-plugin.toml`.
pub const PLUGIN_MANIFEST: &'static str = "[plugin]
name = \"cmux-beads\"
kind = \"sidebar\"
version = \"0.2.2\"
description = \"Official Beads tab on the cmux right sidebar; PTY TUI is keyboard-only fallback\"

[run]
command = [\"target/release/cmux-beads\"]

[build]
command = [\"cargo\", \"build\", \"--release\"]
";

} // verus!
