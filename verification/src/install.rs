//! Where the native sidebar files (`beads.js`, `beads.swift`) come from and
//! where they are installed (`~/.config/cmux/sidebars/`). The copying
//! itself is the front end's.

use vstd::prelude::*;

verus! {

/// Files copied into the cmux sidebars directory. `.js` wins over `.swift`.
pub const SIDEBAR_FILES: [&'static str; 2] = ["beads.js", "beads.swift"];

/// `rel` appended to `base` as `Path::join` does: an absolute `rel` stands
/// alone, otherwise one `/` separates them (none after an empty base or a
/// trailing `/`).
pub open spec fn joined(base: Seq<char>, rel: Seq<char>) -> Seq<char> {
    if rel.len() > 0 && rel[0] == '/' {
        rel
    } else if base.len() == 0 || base.last() == '/' {
        base + rel
    } else {
        base + "/"@ + rel
    }
}

/// `rel` appended to `base` (`Path::join`).
pub fn path_join(base: &str, rel: &str) -> (r: String)
    ensures
        r@ == joined(base@, rel@),
{
    let rn = rel.unicode_len();
    if rn > 0 && rel.get_char(0) == '/' {
        return String::from_str(rel);
    }
    let bn = base.unicode_len();
    let mut out = String::from_str(base);
    if !(bn == 0 || base.get_char(bn - 1) == '/') {
        out.append("/");
    }
    out.append(rel);
    out
}

/// Destination of the sidebar files: a non-empty override
/// (`CMUX_SIDEBARS_DIR`), else `.config/cmux/sidebars` under the home
/// directory (or the current one).
pub fn dest_dir_from(override_dir: Option<String>, home: Option<String>) -> (r: String)
    ensures
        r@ == match override_dir {
            Some(c) if c@.len() > 0 => c@,
            _ => joined(
                match home {
                    Some(h) => h@,
                    None => "."@,
                },
                ".config/cmux/sidebars"@,
            ),
        },
{
    match override_dir {
        Some(custom) => {
            if !custom.as_str().is_empty() {
                return custom;
            }
        },
        None => {},
    }
    match home {
        Some(h) => path_join(h.as_str(), ".config/cmux/sidebars"),
        None => path_join(".", ".config/cmux/sidebars"),
    }
}

/// The places the packaged `sidebars/` directory is looked for, in order:
/// under `CMUX_BEADS_SHARE`, next to the executable and two levels up, in
/// the source tree, then in the plugin manager's data directories.
pub open spec fn candidates_spec(
    share: Option<Seq<char>>,
    exe_dir: Option<Seq<char>>,
    source_tree: Seq<char>,
    home: Option<Seq<char>>,
    xdg: Option<Seq<char>>,
) -> Seq<Seq<char>> {
    (match share {
        Some(s) => seq![joined(s, "sidebars"@)],
        None => seq![],
    }) + (match exe_dir {
        Some(d) => seq![
            joined(d, "sidebars"@),
            joined(d, "../sidebars"@),
            joined(d, "../../sidebars"@),
        ],
        None => seq![],
    }) + seq![joined(source_tree, "sidebars"@)] + (match home {
        Some(h) => seq![joined(h, ".local/share/cmux/mux-plugins/cmux-beads/sidebars"@)] + (match xdg {
            Some(x) => seq![joined(x, "cmux/mux-plugins/cmux-beads/sidebars"@)],
            None => seq![],
        }),
        None => seq![],
    })
}

/// The places the packaged `sidebars/` directory is looked for.
pub fn sidebar_candidates(
    share: Option<&str>,
    exe_dir: Option<&str>,
    source_tree: &str,
    home: Option<&str>,
    xdg: Option<&str>,
) -> (r: Vec<String>)
    ensures
        crate::text::views(r@) == candidates_spec(
            crate::sync::opt_str(share),
            crate::sync::opt_str(exe_dir),
            source_tree@,
            crate::sync::opt_str(home),
            crate::sync::opt_str(xdg),
        ),
{
    let mut out: Vec<String> = Vec::new();
    match share {
        Some(s) => crate::bd::push_arg(&mut out, path_join(s, "sidebars")),
        None => {},
    }
    match exe_dir {
        Some(d) => {
            crate::bd::push_arg(&mut out, path_join(d, "sidebars"));
            crate::bd::push_arg(&mut out, path_join(d, "../sidebars"));
            crate::bd::push_arg(&mut out, path_join(d, "../../sidebars"));
        },
        None => {},
    }
    crate::bd::push_arg(&mut out, path_join(source_tree, "sidebars"));
    match home {
        Some(h) => {
            crate::bd::push_arg(&mut out, path_join(h, ".local/share/cmux/mux-plugins/cmux-beads/sidebars"));
            match xdg {
                Some(x) => crate::bd::push_arg(&mut out, path_join(x, "cmux/mux-plugins/cmux-beads/sidebars")),
                None => {},
            }
        },
        None => {},
    }
    assert(crate::text::views(out@) =~= candidates_spec(
        crate::sync::opt_str(share),
        crate::sync::opt_str(exe_dir),
        source_tree@,
        crate::sync::opt_str(home),
        crate::sync::opt_str(xdg),
    ));
    out
}

} // verus!
