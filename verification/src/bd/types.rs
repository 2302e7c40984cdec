//! Records mirroring `bd ... --json` (beads v0.60+).
//!
//! `bd list --json` and `bd ready --json` return a flat array of issues.
//! `bd show --json` returns a one-element array whose `dependencies`
//! entries may be full issue objects. Notes, comments and labels accept
//! several shapes so a newer `bd` cannot break the board.

use vstd::prelude::*;

pub use crate::json::{extract_texts, JsonValue};
use crate::json::texts;
use crate::text::{
    before_first, before_first_ref, has_prefix, join, join_strings, lowercase, starts_with_str,
    str_eq, to_lowercase,
};

verus! {

/// An optional string, by its characters.
pub open spec fn opt_view(o: Option<String>) -> Option<Seq<char>> {
    match o {
        Some(s) => Some(s@),
        None => None,
    }
}

/// A dependency edge or an expanded issue from `bd show`.
#[derive(Debug, Clone, Default, PartialEq, Eq)]
pub struct Dependency {
    pub issue_id: Option<String>,
    pub depends_on_id: Option<String>,
    pub dep_type: Option<String>,
    pub id: Option<String>,
    pub title: Option<String>,
    pub status: Option<String>,
}

impl Dependency {
    /// The id of the other bead: `depends_on_id`, else `id`.
    pub open spec fn other_id_spec(self) -> Option<Seq<char>> {
        match self.depends_on_id {
            Some(d) => Some(d@),
            None => opt_view(self.id),
        }
    }

    /// The detail-pane line for this edge.
    pub open spec fn label_spec(self) -> Seq<char> {
        match (self.other_id_spec(), opt_view(self.title), opt_view(self.dep_type)) {
            (Some(id), Some(title), Some(kind)) => kind + ": "@ + id + " - "@ + title,
            (Some(id), Some(title), None) => id + " - "@ + title,
            (Some(id), None, Some(kind)) => kind + ": "@ + id,
            (Some(id), None, None) => id,
            _ => "(dependency)"@,
        }
    }

    /// The id of the other bead this edge points at, whichever shape we got.
    pub fn other_id(&self) -> (r: Option<&str>)
        ensures
            match r {
                Some(x) => self.other_id_spec() == Some(x@),
                None => self.other_id_spec() is None,
            },
    {
        match &self.depends_on_id {
            Some(d) => Some(d.as_str()),
            None => match &self.id {
                Some(i) => Some(i.as_str()),
                None => None,
            },
        }
    }

    /// One-line label for the detail pane.
    pub fn label(&self) -> (r: String)
        ensures
            r@ == self.label_spec(),
    {
        let id = self.other_id();
        match id {
            Some(id) => {
                let mut out = String::new();
                match &self.dep_type {
                    Some(kind) => {
                        out.append(kind.as_str());
                        out.append(": ");
                    },
                    None => {},
                }
                out.append(id);
                match &self.title {
                    Some(title) => {
                        out.append(" - ");
                        out.append(title.as_str());
                    },
                    None => {},
                }
                assert(out@ =~= self.label_spec());
                out
            },
            None => String::from_str("(dependency)"),
        }
    }
}

/// One `bd` issue. This is the board's only record type; the board never
/// invents a store of its own.
#[derive(Debug, Default)]
pub struct Bead {
    pub id: String,
    pub title: String,
    pub description: String,
    pub status: String,
    pub priority: u8,
    pub issue_type: String,
    pub owner: Option<String>,
    pub assignee: Option<String>,
    pub parent: Option<String>,
    pub labels: JsonValue,
    pub notes: JsonValue,
    pub comments: JsonValue,
    pub created_at: Option<String>,
    pub updated_at: Option<String>,
    pub dependencies: Vec<Dependency>,
    pub dependency_count: u32,
    pub dependent_count: u32,
    pub comment_count: u32,
}

impl Default for JsonValue {
    fn default() -> (r: Self)
        ensures
            r == JsonValue::Null,
    {
        JsonValue::Null
    }
}

/// A non-empty optional string.
pub open spec fn nonempty(o: Option<String>) -> Option<Seq<char>> {
    match o {
        Some(s) => if s@.len() > 0 { Some(s@) } else { None },
        None => None,
    }
}

fn nonempty_str(o: &Option<String>) -> (r: Option<&str>)
    ensures
        match r {
            Some(x) => nonempty(*o) == Some(x@),
            None => nonempty(*o) is None,
        },
{
    match o {
        Some(s) => if s.as_str().is_empty() { None } else { Some(s.as_str()) },
        None => None,
    }
}

impl Bead {
    /// The assignee as `bd` stored it: a non-empty `assignee`, else a
    /// non-empty `owner`.
    pub open spec fn assignee_raw_spec(self) -> Option<Seq<char>> {
        match nonempty(self.assignee) {
            Some(a) => Some(a),
            None => nonempty(self.owner),
        }
    }

    /// The assignee as shown: `cmux:` assignees whole, anything else up to
    /// its first `@`, `-` when there is none.
    pub open spec fn assignee_display_spec(self) -> Seq<char> {
        match self.assignee_raw_spec() {
            Some(v) => if has_prefix(v, "cmux:"@) { v } else { before_first(v, "@"@) },
            None => "-"@,
        }
    }

    /// The labels as a flat list of texts.
    pub open spec fn label_texts(self) -> Seq<Seq<char>> {
        texts(self.labels)
    }

    /// The single-line text that the `/` filter searches (before lower-casing).
    pub open spec fn haystack_text(self) -> Seq<char> {
        self.id@ + " "@ + self.title@ + " "@ + self.description@ + " "@ + self.issue_type@ + " "@
            + self.status@ + " "@ + self.assignee_display_spec() + " "@ + join(
            self.label_texts(),
            " "@,
        )
    }

    /// Raw assignee / owner string as `bd` stored it.
    pub fn assignee_raw(&self) -> (r: Option<&str>)
        ensures
            match r {
                Some(x) => self.assignee_raw_spec() == Some(x@),
                None => self.assignee_raw_spec() is None,
            },
    {
        match nonempty_str(&self.assignee) {
            Some(a) => Some(a),
            None => nonempty_str(&self.owner),
        }
    }

    /// Display assignee. `cmux:{workspace}/{pane}` is kept intact; emails
    /// show the local-part.
    pub fn assignee_display(&self) -> (r: &str)
        ensures
            r@ == self.assignee_display_spec(),
    {
        match self.assignee_raw() {
            Some(value) => {
                if starts_with_str(value, "cmux:") {
                    value
                } else {
                    before_first_ref(value, "@")
                }
            },
            None => "-",
        }
    }

    /// Labels as a flat string list.
    pub fn label_list(&self) -> (r: Vec<String>)
        ensures
            r@.map_values(|x: String| x@) == texts(self.labels),
    {
        extract_texts(&self.labels)
    }

    /// Notes from `bd show` (string, list, or objects with text/body/note).
    pub fn note_lines(&self) -> (r: Vec<String>)
        ensures
            r@.map_values(|x: String| x@) == texts(self.notes),
    {
        extract_texts(&self.notes)
    }

    /// Comments from `bd show`.
    pub fn comment_lines(&self) -> (r: Vec<String>)
        ensures
            r@.map_values(|x: String| x@) == texts(self.comments),
    {
        extract_texts(&self.comments)
    }

    /// Whether `bd` reports this issue as closed.
    pub fn is_closed(&self) -> (r: bool)
        ensures
            r == (self.status@ == "closed"@),
    {
        str_eq(self.status.as_str(), "closed")
    }

    /// Whether this issue is an epic (parent candidates).
    pub fn is_epic(&self) -> (r: bool)
        ensures
            r == (self.issue_type@ == "epic"@),
    {
        str_eq(self.issue_type.as_str(), "epic")
    }

    /// Single-line search haystack used by the `/` filter.
    pub fn haystack(&self) -> (r: String)
        ensures
            r@ == lowercase(self.haystack_text()),
    {
        let mut out = String::new();
        out.append(self.id.as_str());
        out.append(" ");
        out.append(self.title.as_str());
        out.append(" ");
        out.append(self.description.as_str());
        out.append(" ");
        out.append(self.issue_type.as_str());
        out.append(" ");
        out.append(self.status.as_str());
        out.append(" ");
        out.append(self.assignee_display());
        out.append(" ");
        let labels = self.label_list();
        let joined = join_strings(&labels, " ");
        out.append(joined.as_str());
        assert(out@ =~= self.haystack_text());
        to_lowercase(out.as_str())
    }
}

/// The `/` filter searches a bead's id, title, description, type and
/// status: the text it lower-cases and searches starts with the id, and
/// holds the title, the description, the type and the status, each between
/// spaces.
pub proof fn law_haystack_fields(bead: Bead)
    ensures
        crate::text::has_prefix(bead.haystack_text(), bead.id@ + " "@),
        crate::text::has_infix(bead.haystack_text(), " "@ + bead.title@ + " "@),
        crate::text::has_infix(bead.haystack_text(), " "@ + bead.description@ + " "@),
        crate::text::has_infix(bead.haystack_text(), " "@ + bead.issue_type@ + " "@),
        crate::text::has_infix(bead.haystack_text(), " "@ + bead.status@ + " "@),
{
    reveal_strlit(" ");
    let h = bead.haystack_text();
    let i0 = bead.id@.len() as int;
    let i1 = i0 + 1 + bead.title@.len();
    let i2 = i1 + 1 + bead.description@.len();
    let i3 = i2 + 1 + bead.issue_type@.len();
    let t = " "@ + bead.title@ + " "@;
    let d = " "@ + bead.description@ + " "@;
    let y = " "@ + bead.issue_type@ + " "@;
    let st = " "@ + bead.status@ + " "@;
    assert(h.subrange(0, i0 + 1) =~= bead.id@ + " "@);
    assert(h.subrange(i0, i0 + t.len()) =~= t);
    assert(crate::text::occurs_at(h, t, i0));
    assert(h.subrange(i1, i1 + d.len()) =~= d);
    assert(crate::text::occurs_at(h, d, i1));
    assert(h.subrange(i2, i2 + y.len()) =~= y);
    assert(crate::text::occurs_at(h, y, i2));
    assert(h.subrange(i3, i3 + st.len()) =~= st);
    assert(crate::text::occurs_at(h, st, i3));
}

} // verus!
