//! Project `bd` issues into cmux `set-status` pills (`bead:<id>`).
//!
//! Custom sidebars cannot spawn `bd`. `cmux-beads sync` / `watch` write the
//! pills; the sidebar only reads `w.statuses`. Writes back to `bd` stay on
//! this CLI (argv), never in the sidebar file.

use vstd::prelude::*;

use crate::bd::push_arg;
use crate::bd::types::Bead;
use crate::json::{obj_get, obj_lookup, parse_json, json_parse, JsonValue};
use crate::text::{
    lemma_lines_nonempty, lines_of,
    before_first, before_first_str, chars_of, decimal, has_infix, has_prefix, lex_order,
    lex_order_str, lemma_lex_basics, lemma_lex_trans, starts_with_str, str_eq, string_of,
    trim_str, trimmed, u64_text, views,
};

verus! {

/// Prefix for every projected status key.
pub const STATUS_PREFIX: &'static str = "bead:";

/// Cap pills so the sidebar stays cheap (cmux custom-sidebar guidance).
pub const MAX_PILLS: usize = 24;

/// Display value budget for `cmux set-status`.
pub const VALUE_MAX: usize = 48;

/// A character allowed in a bead id: ASCII letters, digits, `.`, `_`, `-`.
pub open spec fn is_id_char(c: char) -> bool {
    ('A' <= c && c <= 'Z') || ('a' <= c && c <= 'z') || ('0' <= c && c <= '9') || c == '.' || c
        == '_' || c == '-'
}

/// An ASCII letter or digit.
pub open spec fn is_alnum(c: char) -> bool {
    ('A' <= c && c <= 'Z') || ('a' <= c && c <= 'z') || ('0' <= c && c <= '9')
}

/// A safe bead id: 1 to 64 id characters, starting with a letter or digit.
/// (Every id character is one byte, so the byte and character lengths agree.)
pub open spec fn safe_id(id: Seq<char>) -> bool {
    &&& 0 < id.len() <= 64
    &&& is_alnum(id[0])
    &&& forall|i: int| 0 <= i < id.len() ==> is_id_char(#[trigger] id[i])
}

/// Whether `id` is safe to embed in a `bead:` key.
pub fn is_safe_id(id: &str) -> (r: bool)
    ensures
        r == safe_id(id@),
{
    let cs = chars_of(id);
    if cs.len() == 0 || cs.len() > 64 {
        return false;
    }
    let first = cs[0];
    if !(('A' <= first && first <= 'Z') || ('a' <= first && first <= 'z') || ('0' <= first && first
        <= '9')) {
        return false;
    }
    let mut i: usize = 0;
    while i < cs.len()
        invariant
            cs@ == id@,
            i <= cs@.len(),
            forall|j: int| 0 <= j < i ==> is_id_char(#[trigger] id@[j]),
        decreases cs@.len() - i,
    {
        let c = cs[i];
        if !(('A' <= c && c <= 'Z') || ('a' <= c && c <= 'z') || ('0' <= c && c <= '9') || c == '.'
            || c == '_' || c == '-') {
            assert(!is_id_char(id@[i as int]));
            return false;
        }
        i = i + 1;
    }
    true
}

/// Build `bead:<id>` when `id` is a safe argv token.
pub fn status_key(id: &str) -> (r: Option<String>)
    ensures
        match r {
            Some(k) => safe_id(id@) && k@ == "bead:"@ + id@,
            None => !safe_id(id@),
        },
{
    if !is_safe_id(id) {
        return None;
    }
    let mut key = String::from_str(STATUS_PREFIX);
    key.append(id);
    Some(key)
}

/// Icon / color / sort weight for one `bd` status.
#[derive(Debug, Clone, Copy, PartialEq, Eq)]
pub struct StatusStyle {
    pub icon: &'static str,
    pub color: &'static str,
    pub priority: u8,
}

/// The chip of a status: (icon, color, weight). Unknown names share the
/// open chip.
pub open spec fn style_spec(status: Seq<char>) -> (Seq<char>, Seq<char>, u8) {
    if status == "in_progress"@ {
        ("hammer"@, "#ff9500"@, 80)
    } else if status == "blocked"@ {
        ("exclamationmark.triangle"@, "#ff3b30"@, 90)
    } else if status == "deferred"@ {
        ("pause.circle"@, "#8e8e93"@, 20)
    } else if status == "pinned"@ {
        ("pin.fill"@, "#ff9500"@, 70)
    } else if status == "hooked"@ {
        ("link"@, "#bf5af2"@, 50)
    } else if status == "closed"@ {
        ("checkmark.circle"@, "#8e8e93"@, 10)
    } else {
        ("circle"@, "#34c759"@, 40)
    }
}

/// Style for a `bd` status. Unknown names share the open chip.
pub fn style_for(status: &str) -> (r: StatusStyle)
    ensures
        (r.icon@, r.color@, r.priority) == style_spec(status@),
{
    if str_eq(status, "in_progress") {
        StatusStyle { icon: "hammer", color: "#ff9500", priority: 80 }
    } else if str_eq(status, "blocked") {
        StatusStyle { icon: "exclamationmark.triangle", color: "#ff3b30", priority: 90 }
    } else if str_eq(status, "deferred") {
        StatusStyle { icon: "pause.circle", color: "#8e8e93", priority: 20 }
    } else if str_eq(status, "pinned") {
        StatusStyle { icon: "pin.fill", color: "#ff9500", priority: 70 }
    } else if str_eq(status, "hooked") {
        StatusStyle { icon: "link", color: "#bf5af2", priority: 50 }
    } else if str_eq(status, "closed") {
        StatusStyle { icon: "checkmark.circle", color: "#8e8e93", priority: 10 }
    } else {
        StatusStyle { icon: "circle", color: "#34c759", priority: 40 }
    }
}

/// `text` cut to at most `max` characters: when it is longer, the first
/// `max - 1` characters and an ellipsis.
pub open spec fn truncated(text: Seq<char>, max: nat) -> Seq<char> {
    if text.len() <= max {
        text
    } else {
        let keep = if max == 0 { 0 } else { max - 1 };
        text.subrange(0, keep as int).push('…')
    }
}

/// Cut `text` to at most `max` characters, marking the cut with `…`.
pub fn truncate_chars(text: &str, max: usize) -> (r: String)
    ensures
        r@ == truncated(text@, max as nat),
{
    let cs = chars_of(text);
    if cs.len() <= max {
        return String::from_str(text);
    }
    let keep: usize = if max == 0 { 0 } else { max - 1 };
    let mut out: Vec<char> = Vec::new();
    let mut i: usize = 0;
    while i < keep
        invariant
            keep < cs@.len(),
            i <= keep,
            out@ == cs@.subrange(0, i as int),
        decreases keep - i,
    {
        out.push(cs[i]);
        i = i + 1;
    }
    out.push('…');
    assert(out@ =~= truncated(text@, max as nat));
    string_of(&out)
}

/// The pill text of a bead: `{status} · {title}` (the status alone for a
/// blank title), cut to the value budget. Title only: never the assignee,
/// a path, or an email.
pub open spec fn pill_value_spec(bead: Bead) -> Seq<char> {
    let title = trimmed(bead.title@);
    let raw = if title.len() == 0 { bead.status@ } else { bead.status@ + " · "@ + title };
    truncated(raw, 48)
}

/// Chip label: `{status} · {title}`. Title only, never assignee, path, or email.
pub fn pill_value(bead: &Bead) -> (r: String)
    ensures
        r@ == pill_value_spec(*bead),
{
    let title = trim_str(bead.title.as_str());
    let raw = if title.is_empty() {
        bead.status.clone()
    } else {
        let mut s = bead.status.clone();
        s.append(" · ");
        s.append(title);
        s
    };
    truncate_chars(raw.as_str(), VALUE_MAX)
}

/// One planned `cmux set-status` write.
#[derive(Debug, Clone, PartialEq, Eq)]
pub struct StatusPill {
    pub key: String,
    pub value: String,
    pub icon: String,
    pub color: String,
    pub priority: u8,
}

/// Whether a bead gets a pill: it has a safe id, and it is open or closed
/// issues are wanted.
pub open spec fn projects(bead: Bead, include_closed: bool) -> bool {
    (include_closed || bead.status@ != "closed"@) && safe_id(bead.id@)
}

/// `pill` is the pill of `bead`.
pub open spec fn pill_of(pill: StatusPill, bead: Bead) -> bool {
    let style = style_spec(bead.status@);
    &&& pill.key@ == "bead:"@ + bead.id@
    &&& pill.value@ == pill_value_spec(bead)
    &&& pill.icon@ == style.0
    &&& pill.color@ == style.1
    &&& pill.priority == style.2
}

/// The beads that get pills, in board order (before the cap).
pub open spec fn projected(beads: Seq<Bead>, include_closed: bool) -> Seq<Bead> {
    beads.filter(|b: Bead| projects(b, include_closed))
}

/// Project beads into pills. Closed issues are omitted unless requested.
pub fn pills_from_beads(beads: &[Bead], include_closed: bool) -> (r: Vec<StatusPill>)
    ensures
        r@.len() == if projected(beads@, include_closed).len() < 24 {
            projected(beads@, include_closed).len()
        } else {
            24
        },
        forall|k: int| 0 <= k < r@.len() ==> pill_of(#[trigger] r@[k], projected(beads@, include_closed)[k]),
{
    let ghost pred = |b: Bead| projects(b, include_closed);
    let mut pills: Vec<StatusPill> = Vec::new();
    let mut i: usize = 0;
    assert(beads@.subrange(0, 0).filter(pred) =~= Seq::<Bead>::empty()) by {
        reveal(Seq::filter);
    }
    while i < beads.len()
        invariant
            i <= beads@.len(),
            pred == (|b: Bead| projects(b, include_closed)),
            pills@.len() == beads@.subrange(0, i as int).filter(pred).len(),
            pills@.len() < 24,
            forall|k: int|
                0 <= k < pills@.len() ==> pill_of(
                    #[trigger] pills@[k],
                    beads@.subrange(0, i as int).filter(pred)[k],
                ),
        decreases beads@.len() - i,
    {
        let bead = &beads[i];
        proof {
            beads@.subrange(0, i as int).lemma_filter_push(beads@[i as int], pred);
            assert(beads@.subrange(0, i + 1) =~= beads@.subrange(0, i as int).push(beads@[i as int]));
            reveal_strlit("closed");
        }
        if !include_closed && bead.is_closed() {
            i = i + 1;
            continue;
        }
        let key = match status_key(bead.id.as_str()) {
            Some(key) => key,
            None => {
                i = i + 1;
                continue;
            },
        };
        let style = style_for(bead.status.as_str());
        pills.push(
            StatusPill {
                key,
                value: pill_value(bead),
                icon: String::from_str(style.icon),
                color: String::from_str(style.color),
                priority: style.priority,
            },
        );
        if pills.len() == MAX_PILLS {
            proof {
                lemma_filter_prefix(beads@, pred, i + 1);
                assert(projected(beads@, include_closed) == beads@.filter(pred));
                let a = beads@.subrange(0, i + 1).filter(pred);
                assert(a.len() == pills@.len());
                assert forall|k: int| 0 <= k < pills@.len() implies pill_of(
                    #[trigger] pills@[k],
                    projected(beads@, include_closed)[k],
                ) by {
                    assert(pill_of(pills@[k], a[k]));
                    assert(a[k] == beads@.filter(pred)[k]);
                }
            }
            return pills;
        }
        i = i + 1;
    }
    assert(beads@.subrange(0, beads@.len() as int) =~= beads@);
    assert(projected(beads@, include_closed) == beads@.filter(pred));
    pills
}

/// Filtering a prefix gives a prefix of the filtered sequence.
proof fn lemma_filter_prefix(s: Seq<Bead>, pred: spec_fn(Bead) -> bool, i: int)
    requires
        0 <= i <= s.len(),
    ensures
        s.subrange(0, i).filter(pred).len() <= s.filter(pred).len(),
        forall|k: int|
            0 <= k < s.subrange(0, i).filter(pred).len() ==> #[trigger] s.subrange(0, i).filter(pred)[k]
                == s.filter(pred)[k],
    decreases s.len() - i,
{
    if i < s.len() {
        lemma_filter_prefix(s, pred, i + 1);
        s.subrange(0, i).lemma_filter_push(s[i], pred);
        assert(s.subrange(0, i + 1) =~= s.subrange(0, i).push(s[i]));
        let a = s.subrange(0, i).filter(pred);
        let b = s.subrange(0, i + 1).filter(pred);
        assert forall|k: int| 0 <= k < a.len() implies #[trigger] a[k] == s.filter(pred)[k] by {
            assert(a[k] == b[k]);
        }
    } else {
        assert(s.subrange(0, i) =~= s);
    }
}

/// The status a pill shows: its value up to the first ` · `.
pub open spec fn pill_status(pill: StatusPill) -> Seq<char> {
    before_first(pill.value@, " · "@)
}

/// How many of `pills` show `status`.
pub open spec fn count_status(pills: Seq<StatusPill>, status: Seq<char>) -> nat
    decreases pills.len(),
{
    if pills.len() == 0 {
        0
    } else {
        count_status(pills.drop_last(), status) + if pill_status(pills.last()) == status {
            1nat
        } else {
            0nat
        }
    }
}

/// `counts` is the per-status tally of `pills`, ordered by status name like a
/// `BTreeMap<String, u32>`: one entry for each status that some pill shows,
/// holding how many pills show it.
pub open spec fn tally_of(pills: Seq<StatusPill>, counts: Seq<(String, u32)>) -> bool {
    &&& forall|i: int, j: int|
        0 <= i < j < counts.len() ==> lex_order(#[trigger] counts[i].0@, #[trigger] counts[j].0@) < 0
    &&& forall|i: int|
        0 <= i < counts.len() ==> #[trigger] counts[i].1 as nat == count_status(pills, counts[i].0@)
            && counts[i].1 > 0
    &&& forall|k: int|
        0 <= k < pills.len() ==> exists|i: int|
            0 <= i < counts.len() && #[trigger] counts[i].0@ == pill_status(#[trigger] pills[k])
}

proof fn lemma_count_bounds(pills: Seq<StatusPill>, status: Seq<char>)
    ensures
        count_status(pills, status) <= pills.len(),
        count_status(pills, status) > 0 ==> exists|k: int|
            0 <= k < pills.len() && pill_status(#[trigger] pills[k]) == status,
    decreases pills.len(),
{
    if pills.len() > 0 {
        lemma_count_bounds(pills.drop_last(), status);
        if count_status(pills.drop_last(), status) > 0 {
            let k = choose|k: int|
                0 <= k < pills.drop_last().len() && pill_status(#[trigger] pills.drop_last()[k]) == status;
            assert(pills[k] == pills.drop_last()[k]);
        }
        if pill_status(pills.last()) == status {
            assert(pills[pills.len() - 1] == pills.last());
        }
    }
}

/// Changing one entry changes the sum by the difference.
proof fn lemma_total_update(s: Seq<(String, u32)>, p: int, x: (String, u32))
    requires
        0 <= p < s.len(),
    ensures
        total_count(s.update(p, x)) == total_count(s) - s[p].1 + x.1,
    decreases s.len(),
{
    let u = s.update(p, x);
    if p == s.len() - 1 {
        assert(u.drop_last() =~= s.drop_last());
    } else {
        lemma_total_update(s.drop_last(), p, x);
        assert(u.drop_last() =~= s.drop_last().update(p, x));
    }
}

/// Inserting an entry adds its count to the sum.
proof fn lemma_total_insert(s: Seq<(String, u32)>, p: int, x: (String, u32))
    requires
        0 <= p <= s.len(),
    ensures
        total_count(s.insert(p, x)) == total_count(s) + x.1,
    decreases s.len(),
{
    let u = s.insert(p, x);
    if p == s.len() {
        assert(u.drop_last() =~= s);
    } else {
        lemma_total_insert(s.drop_last(), p, x);
        assert(u.drop_last() =~= s.drop_last().insert(p, x));
    }
}

/// Count pills by the `bd` status prefix of the value.
pub fn count_statuses(pills: &[StatusPill]) -> (r: Vec<(String, u32)>)
    requires
        pills@.len() <= u32::MAX,
    ensures
        tally_of(pills@, r@),
        total_count(r@) == pills@.len(),
{
    let mut counts: Vec<(String, u32)> = Vec::new();
    let mut t: usize = 0;
    while t < pills.len()
        invariant
            t <= pills@.len(),
            pills@.len() <= u32::MAX,
            tally_of(pills@.subrange(0, t as int), counts@),
            total_count(counts@) == t,
        decreases pills@.len() - t,
    {
        let ghost done = pills@.subrange(0, t as int);
        let ghost next = pills@.subrange(0, t + 1);
        assert(next.drop_last() =~= done);
        assert(next.last() == pills@[t as int]);
        let st = before_first_str(pills[t].value.as_str(), " · ");
        assert(st@ == pill_status(pills@[t as int]));
        let mut p: usize = 0;
        while p < counts.len() && lex_order_str(counts[p].0.as_str(), st.as_str()) < 0
            invariant
                p <= counts@.len(),
                forall|k: int| 0 <= k < p ==> lex_order(#[trigger] counts@[k].0@, st@) < 0,
            decreases counts@.len() - p,
        {
            p = p + 1;
        }
        let ghost before = counts@;
        if p < counts.len() && str_eq(counts[p].0.as_str(), st.as_str()) {
            let c = counts[p].1;
            proof {
                lemma_count_bounds(done, st@);
            }
            let key = counts[p].0.clone();
            counts.set(p, (key, c + 1));
            proof {
                lemma_total_update(before, p as int, (key, (c + 1) as u32));
                assert forall|i: int, j: int| 0 <= i < j < counts@.len() implies lex_order(
                    #[trigger] counts@[i].0@,
                    #[trigger] counts@[j].0@,
                ) < 0 by {
                    assert(counts@[i].0@ == before[i].0@ && counts@[j].0@ == before[j].0@);
                }
                assert forall|i: int| 0 <= i < counts@.len() implies #[trigger] counts@[i].1 as nat
                    == count_status(next, counts@[i].0@) && counts@[i].1 > 0 by {
                    if i != p {
                        assert(counts@[i] == before[i]);
                        assert(before[i].1 as nat == count_status(done, before[i].0@));
                        lemma_lex_basics(before[i].0@, before[p as int].0@);
                    }
                }
                assert forall|k: int| 0 <= k < next.len() implies exists|i: int|
                    0 <= i < counts@.len() && #[trigger] counts@[i].0@ == pill_status(
                        #[trigger] next[k],
                    ) by {
                    if k < t {
                        assert(next[k] == done[k]);
                        let i = choose|i: int|
                            0 <= i < before.len() && #[trigger] before[i].0@ == pill_status(done[k]);
                        assert(counts@[i].0@ == before[i].0@);
                    } else {
                        assert(counts@[p as int].0@ == pill_status(next[k]));
                    }
                }
            }
        } else {
            proof {
                lemma_count_bounds(done, st@);
                if count_status(done, st@) > 0 {
                    let k = choose|k: int| 0 <= k < done.len() && pill_status(#[trigger] done[k]) == st@;
                    let i = choose|i: int|
                        0 <= i < before.len() && #[trigger] before[i].0@ == pill_status(done[k]);
                    lemma_lex_basics(before[i].0@, st@);
                    if i >= p {
                        if i > p {
                            lemma_lex_basics(before[p as int].0@, st@);
                            assert(lex_order(before[p as int].0@, before[i].0@) < 0);
                            lemma_lex_trans(before[p as int].0@, before[i].0@, st@);
                        }
                    }
                    assert(false);
                }
            }
            counts.insert(p, (st, 1));
            proof {
                lemma_total_insert(before, p as int, (st, 1u32));
                assert(counts@ =~= before.subrange(0, p as int).push((st, 1u32)) + before.subrange(
                    p as int,
                    before.len() as int,
                ));
                if p < before.len() {
                    lemma_lex_basics(before[p as int].0@, st@);
                }
                assert forall|i: int, j: int| 0 <= i < j < counts@.len() implies lex_order(
                    #[trigger] counts@[i].0@,
                    #[trigger] counts@[j].0@,
                ) < 0 by {
                    if j < p {
                        assert(counts@[i] == before[i] && counts@[j] == before[j]);
                    } else if j == p {
                        assert(counts@[i] == before[i]);
                    } else if i < p {
                        assert(counts@[i] == before[i] && counts@[j] == before[j - 1]);
                    } else if i == p {
                        assert(counts@[j] == before[j - 1]);
                        lemma_lex_basics(st@, before[p as int].0@);
                        if j - 1 > p {
                            assert(lex_order(before[p as int].0@, before[j - 1].0@) < 0);
                            lemma_lex_trans(st@, before[p as int].0@, before[j - 1].0@);
                        }
                    } else {
                        assert(counts@[i] == before[i - 1] && counts@[j] == before[j - 1]);
                    }
                }
                assert forall|i: int| 0 <= i < counts@.len() implies #[trigger] counts@[i].1 as nat
                    == count_status(next, counts@[i].0@) && counts@[i].1 > 0 by {
                    if i != p {
                        let i0 = if i < p { i } else { i - 1 };
                        assert(counts@[i] == before[i0]);
                        assert(before[i0].1 as nat == count_status(done, before[i0].0@));
                        lemma_lex_basics(before[i0].0@, st@);
                        if i0 >= p && i0 > p {
                            assert(lex_order(before[p as int].0@, before[i0].0@) < 0);
                            lemma_lex_basics(before[p as int].0@, st@);
                            lemma_lex_trans(st@, before[p as int].0@, before[i0].0@);
                        }
                    }
                }
                assert forall|k: int| 0 <= k < next.len() implies exists|i: int|
                    0 <= i < counts@.len() && #[trigger] counts@[i].0@ == pill_status(
                        #[trigger] next[k],
                    ) by {
                    if k < t {
                        assert(next[k] == done[k]);
                        let i = choose|i: int|
                            0 <= i < before.len() && #[trigger] before[i].0@ == pill_status(done[k]);
                        if i < p {
                            assert(counts@[i] == before[i]);
                        } else {
                            assert(counts@[i + 1] == before[i]);
                        }
                    } else {
                        assert(counts@[p as int].0@ == pill_status(next[k]));
                    }
                }
            }
        }
        t = t + 1;
    }
    assert(pills@.subrange(0, pills@.len() as int) =~= pills@);
    counts
}

/// Whether `keys` holds `key`.
pub open spec fn lists(keys: Seq<String>, key: Seq<char>) -> bool {
    exists|i: int| 0 <= i < keys.len() && #[trigger] keys[i]@ == key
}

/// A live key is stale when it is a `bead:` key that is no longer desired.
pub open spec fn is_stale(key: String, desired: Seq<String>) -> bool {
    has_prefix(key@, "bead:"@) && !lists(desired, key@)
}

fn lists_key(keys: &[String], key: &str) -> (r: bool)
    ensures
        r == lists(keys@, key@),
{
    let mut i: usize = 0;
    while i < keys.len()
        invariant
            i <= keys@.len(),
            forall|j: int| 0 <= j < i ==> keys@[j]@ != key@,
        decreases keys@.len() - i,
    {
        if str_eq(keys[i].as_str(), key) {
            return true;
        }
        i = i + 1;
    }
    false
}

/// Keys that exist on the workspace but are no longer desired.
pub fn stale_keys(existing: &[String], desired: &[String]) -> (r: Vec<String>)
    ensures
        r@ == existing@.filter(|k: String| is_stale(k, desired@)),
{
    let ghost pred = |k: String| is_stale(k, desired@);
    let mut out: Vec<String> = Vec::new();
    let mut i: usize = 0;
    assert(existing@.subrange(0, 0).filter(pred) =~= Seq::<String>::empty()) by {
        reveal(Seq::filter);
    }
    while i < existing.len()
        invariant
            i <= existing@.len(),
            pred == (|k: String| is_stale(k, desired@)),
            out@ == existing@.subrange(0, i as int).filter(pred),
        decreases existing@.len() - i,
    {
        let key = &existing[i];
        proof {
            existing@.subrange(0, i as int).lemma_filter_push(existing@[i as int], pred);
            assert(existing@.subrange(0, i + 1) =~= existing@.subrange(0, i as int).push(
                existing@[i as int],
            ));
        }
        if starts_with_str(key.as_str(), STATUS_PREFIX) && !lists_key(desired, key.as_str()) {
            out.push(key.clone());
        }
        i = i + 1;
    }
    assert(existing@.subrange(0, existing@.len() as int) =~= existing@);
    out
}

/// Diff of desired pills versus live `bead:*` keys.
#[derive(Debug, Clone, PartialEq, Eq)]
pub struct SyncPlan {
    pub apply: Vec<StatusPill>,
    pub stale: Vec<String>,
    /// Pills per status, ordered by status name.
    pub counts: Vec<(String, u32)>,
}

/// Desired writes plus stale `bead:*` keys to clear.
pub fn plan_sync(beads: &[Bead], existing_keys: &[String], include_closed: bool) -> (r: SyncPlan)
    ensures
        r.apply@.len() == if projected(beads@, include_closed).len() < 24 {
            projected(beads@, include_closed).len()
        } else {
            24
        },
        forall|k: int|
            0 <= k < r.apply@.len() ==> pill_of(#[trigger] r.apply@[k], projected(beads@, include_closed)[k]),
        r.stale@ == existing_keys@.filter(
            |k: String| is_stale(k, r.apply@.map_values(|p: StatusPill| p.key)),
        ),
        tally_of(r.apply@, r.counts@),
        total_count(r.counts@) == r.apply@.len(),
{
    let apply = pills_from_beads(beads, include_closed);
    let mut desired: Vec<String> = Vec::new();
    let mut i: usize = 0;
    while i < apply.len()
        invariant
            i <= apply@.len(),
            desired@ == apply@.subrange(0, i as int).map_values(|p: StatusPill| p.key),
        decreases apply@.len() - i,
    {
        desired.push(apply[i].key.clone());
        assert(apply@.subrange(0, i + 1).map_values(|p: StatusPill| p.key) =~= apply@.subrange(
            0,
            i as int,
        ).map_values(|p: StatusPill| p.key).push(apply@[i as int].key));
        i = i + 1;
    }
    assert(apply@.subrange(0, apply@.len() as int) =~= apply@);
    let counts = count_statuses(apply.as_slice());
    let stale = stale_keys(existing_keys, desired.as_slice());
    SyncPlan { counts, stale, apply }
}

/// `cmux set-status` argv for one pill. Workspace is appended by the runner.
pub fn set_status_argv(pill: &StatusPill) -> (r: Vec<String>)
    ensures
        views(r@) == seq![
            "set-status"@,
            pill.key@,
            pill.value@,
            "--icon"@,
            pill.icon@,
            "--color"@,
            pill.color@,
            "--priority"@,
            decimal(pill.priority as nat),
        ],
{
    let mut out: Vec<String> = Vec::new();
    push_arg(&mut out, String::from_str("set-status"));
    push_arg(&mut out, pill.key.clone());
    push_arg(&mut out, pill.value.clone());
    push_arg(&mut out, String::from_str("--icon"));
    push_arg(&mut out, pill.icon.clone());
    push_arg(&mut out, String::from_str("--color"));
    push_arg(&mut out, pill.color.clone());
    push_arg(&mut out, String::from_str("--priority"));
    push_arg(&mut out, u64_text(pill.priority as u64));
    assert(views(out@) =~= seq![
        "set-status"@,
        pill.key@,
        pill.value@,
        "--icon"@,
        pill.icon@,
        "--color"@,
        pill.color@,
        "--priority"@,
        decimal(pill.priority as nat),
    ]);
    out
}

/// `cmux clear-status` argv for one key.
pub fn clear_status_argv(key: &str) -> (r: Vec<String>)
    ensures
        views(r@) == seq!["clear-status"@, key@],
{
    let mut out: Vec<String> = Vec::new();
    push_arg(&mut out, String::from_str("clear-status"));
    push_arg(&mut out, String::from_str(key));
    assert(views(out@) =~= seq!["clear-status"@, key@]);
    out
}

/// `cmux list-status` argv.
pub fn list_status_argv() -> (r: Vec<String>)
    ensures
        views(r@) == seq!["list-status"@],
{
    let mut out: Vec<String> = Vec::new();
    push_arg(&mut out, String::from_str("list-status"));
    assert(views(out@) =~= seq!["list-status"@]);
    out
}

/// The count stored under `key`, if any.
pub open spec fn count_under(counts: Seq<(String, u32)>, key: Seq<char>) -> Option<u32>
    decreases counts.len(),
{
    if counts.len() == 0 {
        None
    } else if counts[0].0@ == key {
        Some(counts[0].1)
    } else {
        count_under(counts.drop_first(), key)
    }
}

/// The count stored under `key`, if any.
pub fn count_for(counts: &Vec<(String, u32)>, key: &str) -> (r: Option<u32>)
    ensures
        r == count_under(counts@, key@),
{
    let mut i: usize = 0;
    assert(counts@.skip(0) =~= counts@);
    while i < counts.len()
        invariant
            i <= counts@.len(),
            count_under(counts@, key@) == count_under(counts@.skip(i as int), key@),
        decreases counts@.len() - i,
    {
        if str_eq(counts[i].0.as_str(), key) {
            return Some(counts[i].1);
        }
        assert(counts@.skip(i as int).drop_first() =~= counts@.skip(i + 1));
        i = i + 1;
    }
    None
}

/// The sum of all counts.
pub open spec fn total_count(counts: Seq<(String, u32)>) -> nat
    decreases counts.len(),
{
    if counts.len() == 0 {
        0
    } else {
        total_count(counts.drop_last()) + counts.last().1 as nat
    }
}

/// The in-progress share of the non-closed pills, as the pair
/// (in progress, not closed), when there is any non-closed pill.
pub open spec fn progress_spec(counts: Seq<(String, u32)>) -> Option<(nat, nat)> {
    let in_progress = match count_under(counts, "in_progress"@) { Some(n) => n as nat, None => 0 };
    let closed = match count_under(counts, "closed"@) { Some(n) => n as nat, None => 0 };
    let total = total_count(counts);
    let active = if total >= closed { (total - closed) as nat } else { 0 };
    if active == 0 {
        None
    } else {
        Some((in_progress, active))
    }
}

/// The text shown beside the progress bar.
pub open spec fn progress_label_spec(in_progress: nat, active: nat) -> Seq<char> {
    "beads "@ + decimal(in_progress) + "/"@ + decimal(active) + " in progress"@
}

/// Progress is in-progress over non-closed pills: the numerator, the
/// denominator, and the label `beads {in_progress}/{active} in progress`.
pub fn progress_fraction(counts: &Vec<(String, u32)>) -> (r: Option<(u32, u32, String)>)
    requires
        total_count(counts@) <= u32::MAX,
    ensures
        match r {
            Some((n, d, label)) => progress_spec(counts@) == Some((n as nat, d as nat)) && label@
                == progress_label_spec(n as nat, d as nat),
            None => progress_spec(counts@) is None,
        },
{
    let in_progress = match count_for(counts, "in_progress") {
        Some(n) => n,
        None => 0,
    };
    let closed = match count_for(counts, "closed") {
        Some(n) => n,
        None => 0,
    };
    let mut total: u32 = 0;
    let mut i: usize = 0;
    while i < counts.len()
        invariant
            i <= counts@.len(),
            total_count(counts@) <= u32::MAX,
            total as nat == total_count(counts@.subrange(0, i as int)),
        decreases counts@.len() - i,
    {
        proof {
            assert(counts@.subrange(0, i + 1).drop_last() =~= counts@.subrange(0, i as int));
            lemma_total_prefix(counts@, i + 1);
        }
        total = total + counts[i].1;
        i = i + 1;
    }
    assert(counts@.subrange(0, counts@.len() as int) =~= counts@);
    let active = if total >= closed { total - closed } else { 0 };
    if active == 0 {
        return None;
    }
    let mut label = String::from_str("beads ");
    label.append(u64_text(in_progress as u64).as_str());
    label.append("/");
    label.append(u64_text(active as u64).as_str());
    label.append(" in progress");
    Some((in_progress, active, label))
}

proof fn lemma_total_prefix(counts: Seq<(String, u32)>, k: int)
    requires
        0 <= k <= counts.len(),
    ensures
        total_count(counts.subrange(0, k)) <= total_count(counts),
    decreases counts.len() - k,
{
    if k < counts.len() {
        lemma_total_prefix(counts, k + 1);
        assert(counts.subrange(0, k + 1).drop_last() =~= counts.subrange(0, k));
    } else {
        assert(counts.subrange(0, k) =~= counts);
    }
}

/// The `bead:` key of a `cmux list-status` line (`key=value`), if it has a
/// safe one. Surrounding white space (a `\r` too) is ignored.
pub open spec fn key_of_line(line: Seq<char>) -> Option<Seq<char>> {
    let t = trimmed(line);
    if t.len() == 0 || !has_infix(t, "="@) {
        None
    } else {
        let key = trimmed(before_first(t, "="@));
        if has_prefix(key, "bead:"@) && safe_id(key.skip(5)) {
            Some(key)
        } else {
            None
        }
    }
}

/// The keys of `lines`, in order.
pub open spec fn keys_of(lines: Seq<Seq<char>>) -> Seq<Seq<char>>
    decreases lines.len(),
{
    if lines.len() == 0 {
        seq![]
    } else {
        let prev = keys_of(lines.drop_last());
        match key_of_line(lines.last()) {
            Some(k) => prev.push(k),
            None => prev,
        }
    }
}

/// The `bead:` keys of `cmux list-status` output, line by line.
pub open spec fn status_keys_spec(raw: Seq<char>) -> Seq<Seq<char>> {
    keys_of(lines_of(raw))
}

proof fn lemma_keys_prefixed(lines: Seq<Seq<char>>)
    ensures
        forall|k: int|
            0 <= k < keys_of(lines).len() ==> has_prefix(#[trigger] keys_of(lines)[k], "bead:"@),
    decreases lines.len(),
{
    if lines.len() > 0 {
        let prev = keys_of(lines.drop_last());
        lemma_keys_prefixed(lines.drop_last());
        match key_of_line(lines.last()) {
            Some(key) => {
                assert(keys_of(lines) == prev.push(key));
                assert forall|k: int| 0 <= k < keys_of(lines).len() implies has_prefix(
                    #[trigger] keys_of(lines)[k],
                    "bead:"@,
                ) by {
                    if k < prev.len() {
                        assert(keys_of(lines)[k] == prev[k]);
                    }
                }
            },
            None => {},
        }
    }
}

/// Every key that `parse_status_keys` reports starts with `bead:`.
pub proof fn lemma_status_keys_prefixed(raw: Seq<char>)
    ensures
        forall|k: int|
            0 <= k < status_keys_spec(raw).len() ==> has_prefix(
                #[trigger] status_keys_spec(raw)[k],
                "bead:"@,
            ),
{
    lemma_keys_prefixed(lines_of(raw));
}

fn key_of_line_exec(line: &Vec<char>) -> (r: Option<String>)
    ensures
        match r {
            Some(k) => key_of_line(line@) == Some(k@),
            None => key_of_line(line@) is None,
        },
{
    let text = string_of(line);
    let t = trim_str(text.as_str());
    if t.is_empty() || !crate::text::contains_str(t, "=") {
        return None;
    }
    let before = crate::text::before_first_ref(t, "=");
    let key = trim_str(before);
    proof {
        reveal_strlit("bead:");
    }
    if starts_with_str(key, STATUS_PREFIX) {
        let n = key.unicode_len();
        let rest = key.substring_char(5, n);
        assert(rest@ =~= key@.skip(5));
        if is_safe_id(rest) {
            return Some(String::from_str(key));
        }
    }
    None
}

/// Extract `bead:*` keys from `cmux list-status` stdout (`key=value` lines).
pub fn parse_status_keys(raw: &str) -> (r: Vec<String>)
    ensures
        views(r@) == status_keys_spec(raw@),
{
    let cs = chars_of(raw);
    let mut keys: Vec<String> = Vec::new();
    let mut line: Vec<char> = Vec::new();
    let mut i: usize = 0;
    assert(raw@.subrange(0, 0) =~= Seq::<char>::empty());
    assert(lines_of(Seq::<char>::empty()).drop_last() =~= Seq::<Seq<char>>::empty());
    while i < cs.len()
        invariant
            cs@ == raw@,
            i <= cs@.len(),
            lines_of(raw@.subrange(0, i as int)).len() >= 1,
            views(keys@) == keys_of(lines_of(raw@.subrange(0, i as int)).drop_last()),
            line@ == lines_of(raw@.subrange(0, i as int)).last(),
        decreases cs@.len() - i,
    {
        let c = cs[i];
        let ghost pre = raw@.subrange(0, i as int);
        let ghost cur = raw@.subrange(0, i + 1);
        assert(cur.drop_last() =~= pre);
        assert(cur.last() == c);
        proof {
            lemma_lines_nonempty(pre);
        }
        if c == '\n' {
            let found = key_of_line_exec(&line);
            match found {
                Some(k) => crate::bd::push_arg(&mut keys, k),
                None => {},
            }
            proof {
                let ls = lines_of(pre);
                assert(lines_of(cur) == ls.push(Seq::<char>::empty()));
                assert(lines_of(cur).drop_last() =~= ls);
                assert(ls.drop_last().push(ls.last()) =~= ls);
                assert(keys_of(ls) == (match key_of_line(ls.last()) {
                    Some(k) => keys_of(ls.drop_last()).push(k),
                    None => keys_of(ls.drop_last()),
                }));
            }
            line = Vec::new();
        } else {
            line.push(c);
            proof {
                let ls = lines_of(pre);
                let ls2 = lines_of(cur);
                assert(ls2 == ls.update(ls.len() - 1, ls.last().push(c)));
                assert(ls2.drop_last() =~= ls.drop_last());
            }
        }
        i = i + 1;
    }
    assert(raw@.subrange(0, cs@.len() as int) =~= raw@);
    proof {
        lemma_lines_nonempty(raw@);
        let ls = lines_of(raw@);
        assert(ls.drop_last().push(ls.last()) =~= ls);
    }
    let found = key_of_line_exec(&line);
    match found {
        Some(k) => crate::bd::push_arg(&mut keys, k),
        None => {},
    }
    keys
}

/// The value under `key` when `v` is an object.
pub open spec fn json_get(v: JsonValue, key: Seq<char>) -> Option<JsonValue> {
    match v {
        JsonValue::Object(entries) => obj_get(entries@, key),
        _ => None,
    }
}

/// The trimmed text of a non-blank string under `key` of `v`.
pub open spec fn trimmed_text_at(v: JsonValue, key: Seq<char>) -> Option<Seq<char>> {
    match json_get(v, key) {
        Some(JsonValue::String(t)) => if trimmed(t@).len() > 0 { Some(trimmed(t@)) } else { None },
        _ => None,
    }
}

/// The workspace an identify object names: `workspace_ref`, else
/// `workspace_id` (trimmed, non-blank).
pub open spec fn workspace_of(v: JsonValue) -> Option<Seq<char>> {
    match trimmed_text_at(v, "workspace_ref"@) {
        Some(w) => Some(w),
        None => trimmed_text_at(v, "workspace_id"@),
    }
}

/// The workspace of `cmux identify --json`: from its `caller` section, else
/// its `focused` section, else the top level.
pub open spec fn identify_workspace(v: JsonValue) -> Option<Seq<char>> {
    let from_caller = match json_get(v, "caller"@) {
        Some(c) => workspace_of(c),
        None => None,
    };
    let from_focused = match json_get(v, "focused"@) {
        Some(f) => workspace_of(f),
        None => None,
    };
    match from_caller {
        Some(w) => Some(w),
        None => match from_focused {
            Some(w) => Some(w),
            None => workspace_of(v),
        },
    }
}

fn json_lookup<'a>(v: &'a JsonValue, key: &str) -> (r: Option<&'a JsonValue>)
    ensures
        match r {
            Some(x) => json_get(*v, key@) == Some(*x),
            None => json_get(*v, key@) is None,
        },
{
    match v {
        JsonValue::Object(entries) => obj_lookup(entries, key),
        _ => None,
    }
}

fn trimmed_text_exec(v: &JsonValue, key: &str) -> (r: Option<String>)
    ensures
        match r {
            Some(w) => trimmed_text_at(*v, key@) == Some(w@),
            None => trimmed_text_at(*v, key@) is None,
        },
{
    match json_lookup(v, key) {
        Some(JsonValue::String(t)) => {
            let trimmed_t = trim_str(t.as_str());
            if trimmed_t.is_empty() {
                None
            } else {
                Some(String::from_str(trimmed_t))
            }
        },
        _ => None,
    }
}

/// Read `workspace_ref` / `workspace_id` from one identify object.
fn workspace_from_object(v: &JsonValue) -> (r: Option<String>)
    ensures
        match r {
            Some(w) => workspace_of(*v) == Some(w@),
            None => workspace_of(*v) is None,
        },
{
    match trimmed_text_exec(v, "workspace_ref") {
        Some(w) => Some(w),
        None => trimmed_text_exec(v, "workspace_id"),
    }
}

/// The workspace named by a parsed `cmux identify --json` document.
pub fn workspace_from_identify(v: &JsonValue) -> (r: Option<String>)
    ensures
        match r {
            Some(w) => identify_workspace(*v) == Some(w@),
            None => identify_workspace(*v) is None,
        },
{
    let from_caller = match json_lookup(v, "caller") {
        Some(c) => workspace_from_object(c),
        None => None,
    };
    if from_caller.is_some() {
        return from_caller;
    }
    let from_focused = match json_lookup(v, "focused") {
        Some(f) => workspace_from_object(f),
        None => None,
    };
    if from_focused.is_some() {
        return from_focused;
    }
    workspace_from_object(v)
}

/// Read `workspace_id` / `workspace_ref` from `cmux identify --json`.
pub fn parse_identify_workspace(raw: &str) -> (r: Option<String>)
    ensures
        match r {
            Some(w) => json_parse(raw@) is Some && identify_workspace(json_parse(raw@)->0) == Some(w@),
            None => json_parse(raw@) is None || identify_workspace(json_parse(raw@)->0) is None,
        },
{
    match parse_json(raw) {
        Some(v) => workspace_from_identify(&v),
        None => None,
    }
}

/// The trimmed text of `o` when it is not blank.
pub open spec fn nonblank(o: Option<Seq<char>>) -> Option<Seq<char>> {
    match o {
        Some(s) => if trimmed(s).len() > 0 { Some(trimmed(s)) } else { None },
        None => None,
    }
}

/// The workspace to project into: the explicit one, else the environment's,
/// each trimmed and only when not blank. Never a guess.
pub open spec fn resolve_workspace_spec(explicit: Option<Seq<char>>, env_ws: Option<Seq<char>>) -> Option<Seq<char>> {
    match nonblank(explicit) {
        Some(w) => Some(w),
        None => nonblank(env_ws),
    }
}

fn nonblank_exec(o: Option<&str>) -> (r: Option<String>)
    ensures
        match r {
            Some(w) => nonblank(match o { Some(s) => Some(s@), None => None }) == Some(w@),
            None => nonblank(match o { Some(s) => Some(s@), None => None }) is None,
        },
{
    match o {
        Some(s) => {
            let t = trim_str(s);
            if t.is_empty() {
                None
            } else {
                Some(String::from_str(t))
            }
        },
        None => None,
    }
}

/// `--workspace` wins, then `CMUX_WORKSPACE_ID`. Never invent a host.
pub fn resolve_workspace(explicit: Option<&str>, env_ws: Option<&str>) -> (r: Option<String>)
    ensures
        match r {
            Some(w) => resolve_workspace_spec(
                match explicit { Some(s) => Some(s@), None => None },
                match env_ws { Some(s) => Some(s@), None => None },
            ) == Some(w@),
            None => resolve_workspace_spec(
                match explicit { Some(s) => Some(s@), None => None },
                match env_ws { Some(s) => Some(s@), None => None },
            ) is None,
        },
{
    match nonblank_exec(explicit) {
        Some(w) => Some(w),
        None => nonblank_exec(env_ws),
    }
}

/// `cmux set-progress` argv: the fraction as printed (three decimals) and
/// the label, each one argv element.
pub fn progress_argv(value: &str, label: &str) -> (r: Vec<String>)
    ensures
        views(r@) == seq!["set-progress"@, value@, "--label"@, label@],
{
    let mut r: Vec<String> = Vec::new();
    crate::bd::push_arg(&mut r, String::from_str("set-progress"));
    crate::bd::push_arg(&mut r, String::from_str(value));
    crate::bd::push_arg(&mut r, String::from_str("--label"));
    crate::bd::push_arg(&mut r, String::from_str(label));
    assert(views(r@) =~= seq!["set-progress"@, value@, "--label"@, label@]);
    r
}

/// The named statuses and the icons differ in their first two characters.
proof fn lemma_chip_texts()
    ensures
        "in_progress"@[0] == 'i' && "blocked"@[0] == 'b' && "deferred"@[0] == 'd' && "pinned"@[0] == 'p'
            && "hooked"@[0] == 'h' && "closed"@[0] == 'c',
        "hammer"@[0] == 'h' && "exclamationmark.triangle"@[0] == 'e' && "pause.circle"@[0] == 'p'
            && "pin.fill"@[0] == 'p' && "link"@[0] == 'l' && "checkmark.circle"@[0] == 'c'
            && "circle"@[0] == 'c',
        "pause.circle"@[1] == 'a' && "pin.fill"@[1] == 'i' && "checkmark.circle"@[1] == 'h'
            && "circle"@[1] == 'i',
{
    reveal_strlit("in_progress");
    reveal_strlit("blocked");
    reveal_strlit("deferred");
    reveal_strlit("pinned");
    reveal_strlit("hooked");
    reveal_strlit("closed");
    reveal_strlit("hammer");
    reveal_strlit("exclamationmark.triangle");
    reveal_strlit("pause.circle");
    reveal_strlit("pin.fill");
    reveal_strlit("link");
    reveal_strlit("checkmark.circle");
    reveal_strlit("circle");
}

/// The statuses that have a chip of their own.
pub open spec fn named_status(s: Seq<char>) -> bool {
    s == "in_progress"@ || s == "blocked"@ || s == "deferred"@ || s == "pinned"@ || s == "hooked"@
        || s == "closed"@
}

/// Each named status shows an icon that no other status shows; every other
/// status shares the open chip.
pub proof fn law_status_icons_distinct(s: Seq<char>, t: Seq<char>)
    requires
        named_status(s),
        s != t,
    ensures
        style_spec(s).0 != style_spec(t).0,
{
    lemma_chip_texts();
}

/// The chip weights rank the statuses: blocked, in progress, pinned,
/// hooked, then open and every other status, then deferred, then closed.
pub proof fn law_status_weights(other: Seq<char>)
    requires
        !named_status(other),
    ensures
        style_spec("blocked"@).2 > style_spec("in_progress"@).2,
        style_spec("in_progress"@).2 > style_spec("pinned"@).2,
        style_spec("pinned"@).2 > style_spec("hooked"@).2,
        style_spec("hooked"@).2 > style_spec(other).2,
        style_spec(other).2 > style_spec("deferred"@).2,
        style_spec("deferred"@).2 > style_spec("closed"@).2,
{
    lemma_chip_texts();
}

/// The chip colours: blocked is the only red one, in progress and pinned
/// share orange, deferred and closed share grey, and open (with every other
/// status) is green, unlike deferred and closed.
pub proof fn law_status_colors(other: Seq<char>, s: Seq<char>)
    requires
        !named_status(other),
        s != "blocked"@,
    ensures
        style_spec("blocked"@).1 != style_spec(s).1,
        style_spec("in_progress"@).1 == style_spec("pinned"@).1,
        style_spec("deferred"@).1 == style_spec("closed"@).1,
        style_spec(other).1 != style_spec("deferred"@).1,
        style_spec(other).1 != style_spec("in_progress"@).1,
{
    lemma_chip_texts();
    reveal_strlit("#ff3b30");
    reveal_strlit("#ff9500");
    reveal_strlit("#8e8e93");
    reveal_strlit("#bf5af2");
    reveal_strlit("#34c759");
    assert("#ff3b30"@[3] == '3' && "#ff9500"@[3] == '9' && "#8e8e93"@[1] == '8' && "#bf5af2"@[1] == 'b'
        && "#34c759"@[1] == '3' && "#ff3b30"@[1] == 'f' && "#ff9500"@[1] == 'f');
}

} // verus!
