//! Pure board presentation: filter, group, views, and selection helpers.

use vstd::prelude::*;

use crate::bd::types::Bead;
use crate::bd::KNOWN_STATUSES;
use crate::text::{
    contains_str, has_infix, lemma_lex_basics, lemma_lex_trans, lex_order, lex_order_str,
    lowercase, str_eq, to_lowercase, trim_str, trimmed,
};

verus! {

/// In-process view. Switching does not respawn or reload `bd`.
#[derive(Debug, Clone, Copy, PartialEq, Eq, Structural)]
pub enum BoardView {
    List,
    Table,
    Kanban,
}

impl BoardView {
    pub open spec fn next_spec(self) -> Self {
        match self {
            BoardView::List => BoardView::Table,
            BoardView::Table => BoardView::Kanban,
            BoardView::Kanban => BoardView::List,
        }
    }

    pub open spec fn prev_spec(self) -> Self {
        match self {
            BoardView::List => BoardView::Kanban,
            BoardView::Table => BoardView::List,
            BoardView::Kanban => BoardView::Table,
        }
    }

    pub open spec fn title_spec(self) -> Seq<char> {
        match self {
            BoardView::List => "List"@,
            BoardView::Table => "Table"@,
            BoardView::Kanban => "Kanban"@,
        }
    }

    /// Cycle List, Table, Kanban, List.
    pub fn next(self) -> (r: Self)
        ensures
            r == self.next_spec(),
    {
        match self {
            BoardView::List => BoardView::Table,
            BoardView::Table => BoardView::Kanban,
            BoardView::Kanban => BoardView::List,
        }
    }

    /// Cycle backwards.
    pub fn prev(self) -> (r: Self)
        ensures
            r == self.prev_spec(),
    {
        match self {
            BoardView::List => BoardView::Kanban,
            BoardView::Table => BoardView::List,
            BoardView::Kanban => BoardView::Table,
        }
    }

    /// Header label.
    pub fn title(self) -> (r: &'static str)
        ensures
            r@ == self.title_spec(),
    {
        match self {
            BoardView::List => "List",
            BoardView::Table => "Table",
            BoardView::Kanban => "Kanban",
        }
    }
}

/// The view cycle is closed: three steps forward come back to the start,
/// and a step back undoes a step forward (and the other way round).
pub proof fn law_view_cycle(v: BoardView)
    ensures
        v.next_spec().next_spec().next_spec() == v,
        v.next_spec().prev_spec() == v,
        v.prev_spec().next_spec() == v,
        v.next_spec() != v,
{
}

/// Table sort key.
#[derive(Debug, Clone, Copy, PartialEq, Eq, Structural)]
pub enum SortKey {
    Status,
    Priority,
    Changed,
}

impl SortKey {
    pub open spec fn next_spec(self) -> Self {
        match self {
            SortKey::Status => SortKey::Priority,
            SortKey::Priority => SortKey::Changed,
            SortKey::Changed => SortKey::Status,
        }
    }

    pub open spec fn label_spec(self) -> Seq<char> {
        match self {
            SortKey::Status => "status"@,
            SortKey::Priority => "priority"@,
            SortKey::Changed => "changed"@,
        }
    }

    pub fn next(self) -> (r: Self)
        ensures
            r == self.next_spec(),
    {
        match self {
            SortKey::Status => SortKey::Priority,
            SortKey::Priority => SortKey::Changed,
            SortKey::Changed => SortKey::Status,
        }
    }

    pub fn label(self) -> (r: &'static str)
        ensures
            r@ == self.label_spec(),
    {
        match self {
            SortKey::Status => "status",
            SortKey::Priority => "priority",
            SortKey::Changed => "changed",
        }
    }
}

/// Whether `bead` matches a `/` query: a blank query matches everything,
/// otherwise the lower-cased query must occur in the lower-cased haystack.
pub open spec fn matches_spec(bead: Bead, query: Seq<char>) -> bool {
    let q = trimmed(query);
    q.len() == 0 || has_infix(lowercase(bead.haystack_text()), lowercase(q))
}

/// Whether `bead` matches a `/` query. Empty query matches everything.
pub fn matches_filter(bead: &Bead, query: &str) -> (r: bool)
    ensures
        r == matches_spec(*bead, query@),
{
    let q = trim_str(query);
    if q.is_empty() {
        return true;
    }
    let hay = bead.haystack();
    let needle = to_lowercase(q);
    contains_str(hay.as_str(), needle.as_str())
}

/// The known statuses, by their characters.
pub open spec fn known_statuses() -> Seq<Seq<char>> {
    KNOWN_STATUSES@.map_values(|s: &str| s@)
}

/// First position of `s` in `list`.
pub open spec fn position_of(list: Seq<Seq<char>>, s: Seq<char>) -> Option<nat>
    decreases list.len(),
{
    if list.len() == 0 {
        None
    } else if list.last() == s {
        match position_of(list.drop_last(), s) {
            Some(i) => Some(i),
            None => Some((list.len() - 1) as nat),
        }
    } else {
        position_of(list.drop_last(), s)
    }
}

/// Sort key of a status: known statuses by their board position, then
/// custom names (all after the known ones) by name.
pub open spec fn rank_spec(status: Seq<char>) -> (nat, Seq<char>) {
    match position_of(known_statuses(), status) {
        Some(i) => (i, Seq::<char>::empty()),
        None => (7, status),
    }
}

/// Stable status sort key: known statuses first, then custom names.
pub fn status_rank(status: &str) -> (r: (u8, String))
    ensures
        r.0 as nat == rank_spec(status@).0,
        r.1@ == rank_spec(status@).1,
{
    let mut i: usize = 0;
    let ghost ks = known_statuses();
    assert(ks.len() == 7);
    while i < 7
        invariant
            i <= 7,
            ks == known_statuses(),
            forall|j: int| 0 <= j < i ==> ks[j] != status@,
        decreases 7 - i,
    {
        assert(ks[i as int] == KNOWN_STATUSES@[i as int]@);
        if str_eq(KNOWN_STATUSES[i], status) {
            proof {
                lemma_position_first(ks, status@, i as int);
            }
            return (i as u8, String::new());
        }
        i = i + 1;
    }
    proof {
        lemma_position_absent(ks, status@);
    }
    (7, String::from_str(status))
}

proof fn lemma_position_first(list: Seq<Seq<char>>, s: Seq<char>, i: int)
    requires
        0 <= i < list.len(),
        list[i] == s,
        forall|j: int| 0 <= j < i ==> list[j] != s,
    ensures
        position_of(list, s) == Some(i as nat),
    decreases list.len(),
{
    if i < list.len() - 1 {
        lemma_position_first(list.drop_last(), s, i);
    } else {
        lemma_position_absent(list.drop_last(), s);
    }
}

proof fn lemma_position_absent(list: Seq<Seq<char>>, s: Seq<char>)
    requires
        forall|j: int| 0 <= j < list.len() ==> list[j] != s,
    ensures
        position_of(list, s) is None,
    decreases list.len(),
{
    if list.len() > 0 {
        lemma_position_absent(list.drop_last(), s);
    }
}

/// Three-way comparison of integers: -1, 0 or 1.
pub open spec fn int_order(x: int, y: int) -> int {
    if x < y {
        -1
    } else if x > y {
        1
    } else {
        0
    }
}

/// Lexicographic combination of two comparisons: the first unless it ties.
pub open spec fn chain_order(first: int, second: int) -> int {
    if first != 0 {
        first
    } else {
        second
    }
}

/// Order of optional texts: `None` first, then by `lex_order`.
pub open spec fn opt_text_order(a: Option<Seq<char>>, b: Option<Seq<char>>) -> int {
    match (a, b) {
        (None, None) => 0,
        (None, Some(_)) => -1,
        (Some(_), None) => 1,
        (Some(x), Some(y)) => lex_order(x, y),
    }
}

/// How two beads compare under a table sort: by status rank, priority
/// and id; by priority and id; or by last change (newest first) and id.
pub open spec fn key_order(sort: SortKey, a: Bead, b: Bead) -> int {
    let id_order = lex_order(a.id@, b.id@);
    match sort {
        SortKey::Status => chain_order(
            int_order(rank_spec(a.status@).0 as int, rank_spec(b.status@).0 as int),
            chain_order(
                lex_order(rank_spec(a.status@).1, rank_spec(b.status@).1),
                chain_order(int_order(a.priority as int, b.priority as int), id_order),
            ),
        ),
        SortKey::Priority => chain_order(int_order(a.priority as int, b.priority as int), id_order),
        SortKey::Changed => chain_order(
            opt_text_order(
                crate::bd::types::opt_view(b.updated_at),
                crate::bd::types::opt_view(a.updated_at),
            ),
            id_order,
        ),
    }
}

/// Whether the bead at index `i` sorts before the one at index `j`: by the
/// sort key, and by position on the board where keys tie (a stable sort).
pub open spec fn sorts_before(sort: SortKey, beads: Seq<Bead>, i: int, j: int) -> bool {
    let c = key_order(sort, beads[i], beads[j]);
    c < 0 || (c == 0 && i < j)
}

proof fn lemma_opt_text_order(a: Option<Seq<char>>, b: Option<Seq<char>>, c: Option<Seq<char>>)
    ensures
        opt_text_order(a, b) == -opt_text_order(b, a),
        -1 <= opt_text_order(a, b) <= 1,
        opt_text_order(a, b) <= 0 && opt_text_order(b, c) <= 0 ==> opt_text_order(a, c) <= 0,
        opt_text_order(a, b) <= 0 && opt_text_order(b, c) <= 0 && (opt_text_order(a, b) < 0
            || opt_text_order(b, c) < 0) ==> opt_text_order(a, c) < 0,
{
    if a is Some && b is Some {
        lemma_lex_basics(a->0, b->0);
    }
    if a is Some && b is Some && c is Some {
        lemma_lex_basics(b->0, c->0);
        lemma_lex_basics(a->0, c->0);
        if lex_order(a->0, b->0) <= 0 && lex_order(b->0, c->0) <= 0 {
            lemma_lex_trans(a->0, b->0, c->0);
        }
    }
}

proof fn lemma_lex_three(x: Seq<char>, y: Seq<char>, z: Seq<char>)
    ensures
        lex_order(x, y) == -lex_order(y, x),
        -1 <= lex_order(x, y) <= 1,
        lex_order(x, y) <= 0 && lex_order(y, z) <= 0 ==> lex_order(x, z) <= 0,
        lex_order(x, y) <= 0 && lex_order(y, z) <= 0 && (lex_order(x, y) < 0 || lex_order(y, z)
            < 0) ==> lex_order(x, z) < 0,
{
    lemma_lex_basics(x, y);
    if lex_order(x, y) <= 0 && lex_order(y, z) <= 0 {
        lemma_lex_trans(x, y, z);
    }
}

/// `key_order` is a total preorder: it flips sign when the arguments are
/// swapped and it is transitive.
pub proof fn lemma_key_order(sort: SortKey, a: Bead, b: Bead, c: Bead)
    ensures
        key_order(sort, a, b) == -key_order(sort, b, a),
        -1 <= key_order(sort, a, b) <= 1,
        key_order(sort, a, b) <= 0 && key_order(sort, b, c) <= 0 ==> key_order(sort, a, c) <= 0,
        key_order(sort, a, b) <= 0 && key_order(sort, b, c) <= 0 && (key_order(sort, a, b) < 0
            || key_order(sort, b, c) < 0) ==> key_order(sort, a, c) < 0,
{
    lemma_lex_three(a.id@, b.id@, c.id@);
    lemma_lex_three(b.id@, c.id@, a.id@);
    lemma_lex_three(c.id@, a.id@, b.id@);
    lemma_lex_three(a.id@, c.id@, b.id@);
    match sort {
        SortKey::Status => {
            let (ra, rb, rc) = (rank_spec(a.status@).1, rank_spec(b.status@).1, rank_spec(c.status@).1);
            lemma_lex_three(ra, rb, rc);
            lemma_lex_three(rb, rc, ra);
            lemma_lex_three(rc, ra, rb);
            lemma_lex_three(ra, rc, rb);
        },
        SortKey::Priority => {},
        SortKey::Changed => {
            let (ua, ub, uc) = (
                crate::bd::types::opt_view(a.updated_at),
                crate::bd::types::opt_view(b.updated_at),
                crate::bd::types::opt_view(c.updated_at),
            );
            lemma_opt_text_order(uc, ub, ua);
            lemma_opt_text_order(ub, ua, uc);
            lemma_opt_text_order(ua, uc, ub);
            lemma_opt_text_order(uc, ua, ub);
        },
    }
}

/// `sorts_before` is a strict total order on the positions of a board.
pub proof fn lemma_sorts_before(sort: SortKey, beads: Seq<Bead>, i: int, j: int, k: int)
    ensures
        !sorts_before(sort, beads, i, i),
        i != j ==> (sorts_before(sort, beads, i, j) || sorts_before(sort, beads, j, i)),
        sorts_before(sort, beads, i, j) ==> !sorts_before(sort, beads, j, i),
        sorts_before(sort, beads, i, j) && sorts_before(sort, beads, j, k) ==> sorts_before(
            sort,
            beads,
            i,
            k,
        ),
{
    lemma_key_order(sort, beads[i], beads[i], beads[i]);
    lemma_key_order(sort, beads[i], beads[j], beads[k]);
    lemma_key_order(sort, beads[j], beads[i], beads[k]);
    lemma_key_order(sort, beads[i], beads[k], beads[j]);
    lemma_key_order(sort, beads[k], beads[i], beads[j]);
}

fn int_compare(x: u8, y: u8) -> (r: i8)
    ensures
        r as int == int_order(x as int, y as int),
{
    if x < y {
        -1
    } else if x > y {
        1
    } else {
        0
    }
}

fn opt_text_compare(a: &Option<String>, b: &Option<String>) -> (r: i8)
    ensures
        r as int == opt_text_order(crate::bd::types::opt_view(*a), crate::bd::types::opt_view(*b)),
{
    match (a, b) {
        (None, None) => 0,
        (None, Some(_)) => -1,
        (Some(_), None) => 1,
        (Some(x), Some(y)) => lex_order_str(x.as_str(), y.as_str()),
    }
}

/// Compares two beads by the key of a table sort.
pub fn key_compare(sort: SortKey, a: &Bead, b: &Bead) -> (r: i8)
    ensures
        r as int == key_order(sort, *a, *b),
{
    let id_order = lex_order_str(a.id.as_str(), b.id.as_str());
    match sort {
        SortKey::Status => {
            let ra = status_rank(a.status.as_str());
            let rb = status_rank(b.status.as_str());
            let c1 = int_compare(ra.0, rb.0);
            if c1 != 0 {
                return c1;
            }
            let c2 = lex_order_str(ra.1.as_str(), rb.1.as_str());
            if c2 != 0 {
                return c2;
            }
            let c3 = int_compare(a.priority, b.priority);
            if c3 != 0 {
                return c3;
            }
            id_order
        },
        SortKey::Priority => {
            let c = int_compare(a.priority, b.priority);
            if c != 0 {
                c
            } else {
                id_order
            }
        },
        SortKey::Changed => {
            let c = opt_text_compare(&b.updated_at, &a.updated_at);
            if c != 0 {
                c
            } else {
                id_order
            }
        },
    }
}

/// `r` lists board positions in sort order, each once.
pub open spec fn sorted_by(sort: SortKey, beads: Seq<Bead>, r: Seq<usize>) -> bool {
    forall|k1: int, k2: int|
        0 <= k1 < k2 < r.len() ==> #[trigger] sorts_before(sort, beads, r[k1] as int, r[k2] as int)
}

/// `r` is the positions of `cand` in sort order.
pub open spec fn sorted_positions(sort: SortKey, beads: Seq<Bead>, cand: Seq<usize>, r: Seq<usize>) -> bool {
    &&& r.len() == cand.len()
    &&& forall|x: usize| r.contains(x) <==> cand.contains(x)
    &&& sorted_by(sort, beads, r)
}

/// Positions listed in increasing order, all on the board.
pub open spec fn increasing_positions(cand: Seq<usize>, len: nat) -> bool {
    &&& forall|k: int| 0 <= k < cand.len() ==> (cand[k] as int) < len
    &&& forall|k1: int, k2: int| 0 <= k1 < k2 < cand.len() ==> cand[k1] < cand[k2]
}

fn sorts_before_exec(sort: SortKey, beads: &[Bead], i: usize, j: usize) -> (r: bool)
    requires
        i < beads@.len(),
        j < beads@.len(),
    ensures
        r == sorts_before(sort, beads@, i as int, j as int),
{
    let c = key_compare(sort, &beads[i], &beads[j]);
    c < 0 || (c == 0 && i < j)
}

/// The positions `cand` (increasing, on the board) in sort order: a stable
/// sort by the key of `sort`.
pub fn sort_positions(sort: SortKey, beads: &[Bead], cand: &Vec<usize>) -> (r: Vec<usize>)
    requires
        increasing_positions(cand@, beads@.len()),
    ensures
        sorted_positions(sort, beads@, cand@, r@),
        forall|k: int| 0 <= k < r@.len() ==> (r@[k] as int) < beads@.len(),
{
    let mut r: Vec<usize> = Vec::new();
    let mut t: usize = 0;
    while t < cand.len()
        invariant
            increasing_positions(cand@, beads@.len()),
            t <= cand.len(),
            r@.len() == t,
            forall|x: usize| r@.contains(x) <==> cand@.subrange(0, t as int).contains(x),
            forall|k: int| 0 <= k < r@.len() ==> (r@[k] as int) < beads@.len(),
            sorted_by(sort, beads@, r@),
        decreases cand.len() - t,
    {
        let x = cand[t];
        // every element of `r` is an earlier candidate, hence a smaller position
        assert forall|k: int| 0 <= k < r@.len() implies r@[k] < x by {
            assert(r@.contains(r@[k]));
            assert(cand@.subrange(0, t as int).contains(r@[k]));
            let m = choose|m: int| 0 <= m < t && cand@.subrange(0, t as int)[m] == r@[k];
            assert(cand@[m] == r@[k]);
        }
        let mut p: usize = 0;
        while p < r.len() && !sorts_before_exec(sort, beads, x, r[p])
            invariant
                p <= r@.len(),
                (x as int) < beads@.len(),
                forall|k: int| 0 <= k < r@.len() ==> (r@[k] as int) < beads@.len(),
                forall|k: int| 0 <= k < r@.len() ==> r@[k] < x,
                forall|k: int| 0 <= k < p ==> #[trigger] sorts_before(sort, beads@, r@[k] as int, x as int),
            decreases r@.len() - p,
        {
            proof {
                lemma_sorts_before(sort, beads@, x as int, r@[p as int] as int, x as int);
            }
            p = p + 1;
        }
        let ghost old_r = r@;
        r.insert(p, x);
        proof {
            assert(r@ =~= old_r.subrange(0, p as int).push(x) + old_r.subrange(p as int, old_r.len() as int));
            assert forall|k1: int, k2: int| 0 <= k1 < k2 < r@.len() implies #[trigger] sorts_before(
                sort,
                beads@,
                r@[k1] as int,
                r@[k2] as int,
            ) by {
                if k2 < p {
                    assert(sorts_before(sort, beads@, old_r[k1] as int, old_r[k2] as int));
                } else if k2 == p {
                    assert(r@[k1] == old_r[k1]);
                } else if k1 < p {
                    assert(r@[k1] == old_r[k1] && r@[k2] == old_r[k2 - 1]);
                    assert(sorts_before(sort, beads@, old_r[k1] as int, old_r[k2 - 1] as int));
                } else if k1 == p {
                    assert(r@[k2] == old_r[k2 - 1]);
                    assert(sorts_before(sort, beads@, x as int, old_r[p as int] as int));
                    if k2 - 1 > p {
                        assert(sorts_before(sort, beads@, old_r[p as int] as int, old_r[k2 - 1] as int));
                        lemma_sorts_before(
                            sort,
                            beads@,
                            x as int,
                            old_r[p as int] as int,
                            old_r[k2 - 1] as int,
                        );
                    }
                } else {
                    assert(r@[k1] == old_r[k1 - 1] && r@[k2] == old_r[k2 - 1]);
                    assert(sorts_before(sort, beads@, old_r[k1 - 1] as int, old_r[k2 - 1] as int));
                }
            }
            let ghost c0 = cand@.subrange(0, t as int);
            let ghost c1 = cand@.subrange(0, t + 1);
            assert forall|y: usize| r@.contains(y) implies c1.contains(y) by {
                let k = choose|k: int| 0 <= k < r@.len() && r@[k] == y;
                if k == p {
                    assert(c1[t as int] == y);
                } else {
                    let k0 = if k < p { k } else { k - 1 };
                    assert(old_r[k0] == y);
                    assert(old_r.contains(y));
                    assert(c0.contains(y));
                    let m = choose|m: int| 0 <= m < c0.len() && c0[m] == y;
                    assert(c1[m] == y);
                }
            }
            assert forall|y: usize| c1.contains(y) implies r@.contains(y) by {
                let m = choose|m: int| 0 <= m < c1.len() && c1[m] == y;
                if m == t {
                    assert(r@[p as int] == y);
                } else {
                    assert(c0[m] == y);
                    assert(c0.contains(y));
                    assert(old_r.contains(y));
                    let k = choose|k: int| 0 <= k < old_r.len() && old_r[k] == y;
                    if k < p {
                        assert(r@[k] == y);
                    } else {
                        assert(r@[k + 1] == y);
                    }
                }
            }
        }
        t = t + 1;
    }
    assert(cand@.subrange(0, cand@.len() as int) =~= cand@);
    r
}

/// `r` is the visible rows of the board for `query` under `sort`: exactly
/// the matching positions, each once, in sort order.
pub open spec fn visible_positions(beads: Seq<Bead>, query: Seq<char>, sort: SortKey, r: Seq<usize>) -> bool {
    &&& forall|k: int| 0 <= k < r.len() ==> (#[trigger] r[k] as int) < beads.len()
    &&& forall|k: int| 0 <= k < r.len() ==> matches_spec(beads[#[trigger] r[k] as int], query)
    &&& forall|i: int| 0 <= i < beads.len() && matches_spec(beads[i], query) ==> r.contains(i as usize)
    &&& sorted_by(sort, beads, r)
}

/// Positions of the beads in `beads` that satisfy `keep`, in increasing order.
fn positions_where(beads: &[Bead], query: &str, status: Option<&str>) -> (r: Vec<usize>)
    ensures
        increasing_positions(r@, beads@.len()),
        forall|i: int|
            0 <= i < beads@.len() ==> (r@.contains(i as usize) <==> (matches_spec(beads@[i], query@)
                && match status {
                Some(st) => beads@[i].status@ == st@,
                None => true,
            })),
{
    let mut r: Vec<usize> = Vec::new();
    let mut i: usize = 0;
    while i < beads.len()
        invariant
            i <= beads@.len(),
            forall|k: int| 0 <= k < r@.len() ==> (r@[k] as int) < i,
            increasing_positions(r@, beads@.len()),
            forall|j: int|
                0 <= j < i ==> (r@.contains(j as usize) <==> (matches_spec(beads@[j], query@)
                    && match status {
                    Some(st) => beads@[j].status@ == st@,
                    None => true,
                })),
        decreases beads@.len() - i,
    {
        let keep = match status {
            Some(st) => str_eq(beads[i].status.as_str(), st) && matches_filter(&beads[i], query),
            None => matches_filter(&beads[i], query),
        };
        let ghost old_r = r@;
        if keep {
            r.push(i);
        }
        proof {
            assert forall|j: int| 0 <= j < i + 1 implies (r@.contains(j as usize) <==> (matches_spec(
                beads@[j],
                query@,
            ) && match status {
                Some(st) => beads@[j].status@ == st@,
                None => true,
            })) by {
                if j < i {
                    if r@.contains(j as usize) {
                        let k = choose|k: int| 0 <= k < r@.len() && r@[k] == j as usize;
                        if k < old_r.len() {
                            assert(old_r[k] == j as usize);
                            assert(old_r.contains(j as usize));
                        }
                    }
                    if old_r.contains(j as usize) {
                        let k = choose|k: int| 0 <= k < old_r.len() && old_r[k] == j as usize;
                        assert(r@[k] == j as usize);
                    }
                } else {
                    if keep {
                        assert(r@[r@.len() - 1] == i);
                    } else {
                        if r@.contains(j as usize) {
                            let k = choose|k: int| 0 <= k < r@.len() && r@[k] == j as usize;
                            assert(old_r[k] < i);
                        }
                    }
                }
            }
        }
        i = i + 1;
    }
    r
}

/// The visible rows: positions of matching beads, in sort order.
pub fn visible_indices(beads: &[Bead], query: &str, sort: SortKey) -> (r: Vec<usize>)
    ensures
        visible_positions(beads@, query@, sort, r@),
{
    let cand = positions_where(beads, query, None);
    let r = sort_positions(sort, beads, &cand);
    assert forall|k: int| 0 <= k < r@.len() implies (#[trigger] r@[k] as int) < beads@.len()
        && matches_spec(beads@[r@[k] as int], query@) by {
        assert(r@.contains(r@[k]));
        assert(cand@.contains(r@[k]));
    }
    assert forall|i: int| 0 <= i < beads@.len() && matches_spec(beads@[i], query@) implies r@.contains(
        i as usize,
    ) by {
        assert(cand@.contains(i as usize));
    }
    r
}

/// Visible beads: filtered, then ordered by the active sort.
pub fn visible_beads<'a>(beads: &'a [Bead], query: &str, sort: SortKey) -> (r: Vec<&'a Bead>)
    ensures
        exists|idx: Seq<usize>|
            visible_positions(beads@, query@, sort, idx) && idx.len() == r@.len() && forall|k: int|
                0 <= k < r@.len() ==> *r@[k] == beads@[#[trigger] idx[k] as int],
{
    let idx = visible_indices(beads, query, sort);
    let mut r: Vec<&'a Bead> = Vec::new();
    let mut k: usize = 0;
    while k < idx.len()
        invariant
            k <= idx@.len(),
            r@.len() == k,
            visible_positions(beads@, query@, sort, idx@),
            forall|t: int| 0 <= t < k ==> *r@[t] == beads@[#[trigger] idx@[t] as int],
        decreases idx@.len() - k,
    {
        r.push(&beads[idx[k]]);
        k = k + 1;
    }
    assert(visible_positions(beads@, query@, sort, idx@) && idx@.len() == r@.len());
    r
}

/// Index of `id` in `rows`, if present.
pub fn index_of(rows: &[&Bead], id: &str) -> (r: Option<usize>)
    ensures
        match r {
            Some(k) => k < rows@.len() && rows@[k as int].id@ == id@ && forall|j: int|
                0 <= j < k ==> rows@[j].id@ != id@,
            None => forall|j: int| 0 <= j < rows@.len() ==> rows@[j].id@ != id@,
        },
{
    let mut k: usize = 0;
    while k < rows.len()
        invariant
            k <= rows@.len(),
            forall|j: int| 0 <= j < k ==> rows@[j].id@ != id@,
        decreases rows@.len() - k,
    {
        if str_eq(rows[k].id.as_str(), id) {
            return Some(k);
        }
        k = k + 1;
    }
    None
}

/// A status that is neither empty nor one of the known statuses.
pub open spec fn is_custom(s: Seq<char>) -> bool {
    s.len() > 0 && !known_statuses().contains(s)
}

/// Whether some bead of `beads` has the status `s`.
pub open spec fn on_board(beads: Seq<Bead>, s: Seq<char>) -> bool {
    exists|k: int| 0 <= k < beads.len() && #[trigger] beads[k].status@ == s
}

/// Strictly increasing by name.
pub open spec fn ascending(names: Seq<Seq<char>>) -> bool {
    forall|i: int, j: int|
        0 <= i < j < names.len() ==> lex_order(#[trigger] names[i], #[trigger] names[j]) < 0
}

/// The custom statuses on the board, each once, in name order.
#[verifier::opaque]
pub open spec fn custom_choices(beads: Seq<Bead>) -> Seq<Seq<char>> {
    choose|names: Seq<Seq<char>>|
        ascending(names) && forall|s: Seq<char>| #[trigger]
            names.contains(s) <==> is_custom(s) && on_board(beads, s)
}

/// The status picker's choices, in rank order: the known statuses in their
/// board order, then the custom statuses on the board, each once, by name.
pub open spec fn status_choices_spec(beads: Seq<Bead>) -> Seq<Seq<char>> {
    known_statuses() + custom_choices(beads)
}

/// Two name-ordered lists with the same names are the same list.
proof fn lemma_ascending_unique(a: Seq<Seq<char>>, b: Seq<Seq<char>>)
    requires
        ascending(a),
        ascending(b),
        forall|s: Seq<char>| a.contains(s) <==> b.contains(s),
    ensures
        a == b,
    decreases a.len(),
{
    if a.len() == 0 {
        if b.len() > 0 {
            assert(b.contains(b[0]));
        }
        assert(a =~= b);
    } else {
        assert(a.contains(a[0]));
        assert(b.contains(a[0]));
        let k = choose|k: int| 0 <= k < b.len() && b[k] == a[0];
        assert(b.contains(b[0]));
        assert(a.contains(b[0]));
        let m = choose|m: int| 0 <= m < a.len() && a[m] == b[0];
        if k > 0 && m > 0 {
            assert(lex_order(b[0], b[k]) < 0);
            assert(lex_order(a[0], a[m]) < 0);
            lemma_lex_basics(a[0], b[0]);
        }
        assert(a[0] == b[0]);
        let ta = a.drop_first();
        let tb = b.drop_first();
        assert forall|i: int, j: int| 0 <= i < j < ta.len() implies lex_order(
            #[trigger] ta[i],
            #[trigger] ta[j],
        ) < 0 by {
            assert(lex_order(a[i + 1], a[j + 1]) < 0);
        }
        assert forall|i: int, j: int| 0 <= i < j < tb.len() implies lex_order(
            #[trigger] tb[i],
            #[trigger] tb[j],
        ) < 0 by {
            assert(lex_order(b[i + 1], b[j + 1]) < 0);
        }
        assert forall|s: Seq<char>| ta.contains(s) <==> tb.contains(s) by {
            if ta.contains(s) {
                let i = choose|i: int| 0 <= i < ta.len() && ta[i] == s;
                assert(a[i + 1] == s);
                assert(a.contains(s));
                let j = choose|j: int| 0 <= j < b.len() && b[j] == s;
                if j == 0 {
                    assert(lex_order(a[0], a[i + 1]) < 0);
                    lemma_lex_basics(a[0], a[i + 1]);
                }
                assert(tb[j - 1] == s);
            }
            if tb.contains(s) {
                let j = choose|j: int| 0 <= j < tb.len() && tb[j] == s;
                assert(b[j + 1] == s);
                assert(b.contains(s));
                let i = choose|i: int| 0 <= i < a.len() && a[i] == s;
                if i == 0 {
                    assert(lex_order(b[0], b[j + 1]) < 0);
                    lemma_lex_basics(b[0], b[j + 1]);
                }
                assert(ta[i - 1] == s);
            }
        }
        lemma_ascending_unique(ta, tb);
        assert(a =~= seq![a[0]] + ta);
        assert(b =~= seq![b[0]] + tb);
    }
}

/// Put `s` into the name-ordered `names`, unless it is there already.
fn insert_name(names: &mut Vec<String>, s: &str)
    requires
        ascending(crate::text::views(old(names)@)),
    ensures
        ascending(crate::text::views(final(names)@)),
        forall|t: Seq<char>| #[trigger] crate::text::views(final(names)@).contains(t)
            <==> crate::text::views(old(names)@).contains(t) || t == s@,
{
    let ghost before = crate::text::views(names@);
    let mut p: usize = 0;
    while p < names.len() && lex_order_str(names[p].as_str(), s) < 0
        invariant
            p <= names@.len(),
            crate::text::views(names@) == before,
            ascending(before),
            forall|i: int| 0 <= i < p ==> lex_order(#[trigger] before[i], s@) < 0,
        decreases names@.len() - p,
    {
        p = p + 1;
    }
    if p < names.len() && str_eq(names[p].as_str(), s) {
        assert(before[p as int] == s@);
        assert(before.contains(s@));
        return;
    }
    proof {
        if p < names@.len() {
            lemma_lex_basics(before[p as int], s@);
            assert(lex_order(s@, before[p as int]) < 0);
        }
    }
    names.insert(p, String::from_str(s));
    let ghost after = crate::text::views(names@);
    assert(after =~= before.insert(p as int, s@));
    assert forall|i: int, j: int| 0 <= i < j < after.len() implies lex_order(
        #[trigger] after[i],
        #[trigger] after[j],
    ) < 0 by {
        if j < p {
            assert(after[i] == before[i] && after[j] == before[j]);
        } else if j == p {
            assert(after[i] == before[i]);
        } else if i < p {
            assert(after[i] == before[i] && after[j] == before[j - 1]);
        } else if i == p {
            assert(after[j] == before[j - 1]);
            if j - 1 > p {
                assert(lex_order(before[p as int], before[j - 1]) < 0);
                lemma_lex_trans(s@, before[p as int], before[j - 1]);
            }
        } else {
            assert(after[i] == before[i - 1] && after[j] == before[j - 1]);
        }
    }
    assert forall|t: Seq<char>| #[trigger] after.contains(t) <==> before.contains(t) || t == s@ by {
        if after.contains(t) {
            let i = choose|i: int| 0 <= i < after.len() && after[i] == t;
            if i < p {
                assert(before[i] == t);
            } else if i > p {
                assert(before[i - 1] == t);
            }
        }
        if before.contains(t) {
            let i = choose|i: int| 0 <= i < before.len() && before[i] == t;
            if i < p {
                assert(after[i] == t);
            } else {
                assert(after[i + 1] == t);
            }
        }
        if t == s@ {
            assert(after[p as int] == t);
        }
    }
}

fn contains_text(list: &Vec<String>, s: &str) -> (r: bool)
    ensures
        r == crate::text::views(list@).contains(s@),
{
    let mut k: usize = 0;
    while k < list.len()
        invariant
            k <= list@.len(),
            forall|j: int| 0 <= j < k ==> list@[j]@ != s@,
        decreases list@.len() - k,
    {
        if str_eq(list[k].as_str(), s) {
            assert(crate::text::views(list@)[k as int] == s@);
            return true;
        }
        k = k + 1;
    }
    assert(!crate::text::views(list@).contains(s@)) by {
        if crate::text::views(list@).contains(s@) {
            let j = choose|j: int| 0 <= j < list@.len() && crate::text::views(list@)[j] == s@;
            assert(list@[j]@ == s@);
        }
    }
    false
}

/// Statuses present on the board plus the known set, de-duplicated, in rank order.
pub fn status_choices(beads: &[Bead]) -> (r: Vec<String>)
    ensures
        crate::text::views(r@) == status_choices_spec(beads@),
        crate::text::views(r@).take(7) == known_statuses(),
        ascending(crate::text::views(r@).skip(7)),
        forall|s: Seq<char>| #[trigger] crate::text::views(r@).skip(7).contains(s)
            <==> is_custom(s) && on_board(beads@, s),
{
    let mut choices: Vec<String> = Vec::new();
    let mut i: usize = 0;
    while i < 7
        invariant
            i <= 7,
            crate::text::views(choices@) == known_statuses().subrange(0, i as int),
        decreases 7 - i,
    {
        crate::bd::push_arg(&mut choices, String::from_str(KNOWN_STATUSES[i]));
        assert(known_statuses().subrange(0, i + 1) =~= known_statuses().subrange(0, i as int).push(
            KNOWN_STATUSES@[i as int]@,
        ));
        i = i + 1;
    }
    assert(known_statuses().subrange(0, 7) =~= known_statuses());
    let mut customs: Vec<String> = Vec::new();
    let mut j: usize = 0;
    while j < beads.len()
        invariant
            j <= beads@.len(),
            crate::text::views(choices@) == known_statuses(),
            known_statuses().len() == 7,
            ascending(crate::text::views(customs@)),
            forall|s: Seq<char>| #[trigger] crate::text::views(customs@).contains(s)
                <==> is_custom(s) && on_board(beads@.subrange(0, j as int), s),
        decreases beads@.len() - j,
    {
        let st = beads[j].status.as_str();
        let ghost pre = beads@.subrange(0, j as int);
        let ghost next = beads@.subrange(0, j + 1);
        assert forall|s: Seq<char>| on_board(next, s) <==> on_board(pre, s) || s == st@ by {
            if on_board(next, s) {
                let k = choose|k: int| 0 <= k < next.len() && #[trigger] next[k].status@ == s;
                if k < j {
                    assert(pre[k].status@ == s);
                }
            }
            if on_board(pre, s) {
                let k = choose|k: int| 0 <= k < pre.len() && #[trigger] pre[k].status@ == s;
                assert(next[k].status@ == s);
            }
            if s == st@ {
                assert(next[j as int].status@ == s);
            }
        }
        if !st.is_empty() && !contains_text(&choices, st) {
            insert_name(&mut customs, st);
        }
        j = j + 1;
    }
    assert(beads@.subrange(0, beads@.len() as int) =~= beads@);
    let ghost w = crate::text::views(customs@);
    let ghost before = choices@;
    choices.append(&mut customs);
    assert(crate::text::views(choices@) =~= known_statuses() + w);
    assert(crate::text::views(choices@).take(7) =~= known_statuses());
    assert(crate::text::views(choices@).skip(7) =~= w);
    proof {
        reveal(custom_choices);
        let c = custom_choices(beads@);
        assert(ascending(c) && forall|s: Seq<char>| #[trigger]
            c.contains(s) <==> is_custom(s) && on_board(beads@, s));
        lemma_ascending_unique(w, c);
    }
    choices
}

/// The kanban columns: the status choices, without `closed` unless closed
/// issues are shown.
pub open spec fn column_statuses(beads: Seq<Bead>, include_closed: bool) -> Seq<Seq<char>> {
    status_choices_spec(beads).filter(|s: Seq<char>| include_closed || s != "closed"@)
}

/// `r` is the cards of the column for `status`: the matching beads with that
/// status, each once, by priority then id (stable).
pub open spec fn column_positions(beads: Seq<Bead>, query: Seq<char>, status: Seq<char>, r: Seq<usize>) -> bool {
    &&& forall|k: int| 0 <= k < r.len() ==> (#[trigger] r[k] as int) < beads.len()
    &&& forall|k: int|
        0 <= k < r.len() ==> beads[#[trigger] r[k] as int].status@ == status && matches_spec(
            beads[r[k] as int],
            query,
        )
    &&& forall|i: int|
        0 <= i < beads.len() && beads[i].status@ == status && matches_spec(beads[i], query)
            ==> r.contains(i as usize)
    &&& sorted_by(SortKey::Priority, beads, r)
}

/// Kanban columns as board positions: each status that should be shown,
/// with the positions of its cards.
pub fn kanban_positions(beads: &[Bead], query: &str, include_closed: bool) -> (r: Vec<(String, Vec<usize>)>)
    ensures
        r@.len() == column_statuses(beads@, include_closed).len(),
        forall|c: int|
            0 <= c < r@.len() ==> (#[trigger] r@[c]).0@ == column_statuses(beads@, include_closed)[c]
                && column_positions(beads@, query@, r@[c].0@, r@[c].1@),
{
    let choices = status_choices(beads);
    let ghost all = crate::text::views(choices@);
    let ghost pred = |s: Seq<char>| include_closed || s != "closed"@;
    let mut out: Vec<(String, Vec<usize>)> = Vec::new();
    let mut i: usize = 0;
    assert(all.subrange(0, 0).filter(pred) =~= Seq::<Seq<char>>::empty()) by {
        reveal(Seq::filter);
    }
    while i < choices.len()
        invariant
            i <= choices@.len(),
            all == crate::text::views(choices@),
            pred == (|s: Seq<char>| include_closed || s != "closed"@),
            out@.len() == all.subrange(0, i as int).filter(pred).len(),
            forall|c: int|
                0 <= c < out@.len() ==> (#[trigger] out@[c]).0@ == all.subrange(0, i as int).filter(
                    pred,
                )[c] && column_positions(beads@, query@, out@[c].0@, out@[c].1@),
        decreases choices@.len() - i,
    {
        let st = choices[i].as_str();
        proof {
            all.subrange(0, i as int).lemma_filter_push(all[i as int], pred);
            assert(all.subrange(0, i + 1) =~= all.subrange(0, i as int).push(all[i as int]));
            reveal_strlit("closed");
        }
        if include_closed || !str_eq(st, "closed") {
            let cand = positions_where(beads, query, Some(st));
            let cards = sort_positions(SortKey::Priority, beads, &cand);
            proof {
                assert forall|k: int| 0 <= k < cards@.len() implies beads@[#[trigger] cards@[k] as int].status@
                    == st@ && matches_spec(beads@[cards@[k] as int], query@) by {
                    assert(cards@.contains(cards@[k]));
                    assert(cand@.contains(cards@[k]));
                }
                assert forall|j: int|
                    0 <= j < beads@.len() && beads@[j].status@ == st@ && matches_spec(
                        beads@[j],
                        query@,
                    ) implies cards@.contains(j as usize) by {
                    assert(cand@.contains(j as usize));
                }
            }
            out.push((String::from_str(st), cards));
        }
        i = i + 1;
    }
    assert(all.subrange(0, choices@.len() as int) =~= all);
    out
}

/// Kanban columns: each status that should be shown, with its cards.
#[verifier::spinoff_prover]
pub fn kanban_columns<'a>(beads: &'a [Bead], query: &str, include_closed: bool) -> (r: Vec<(String, Vec<&'a Bead>)>)
    ensures
        r@.len() == column_statuses(beads@, include_closed).len(),
        forall|c: int|
            0 <= c < r@.len() ==> (#[trigger] r@[c]).0@ == column_statuses(beads@, include_closed)[c]
                && exists|idx: Seq<usize>|
                column_positions(beads@, query@, r@[c].0@, idx) && idx.len() == r@[c].1@.len()
                    && forall|k: int|
                    0 <= k < idx.len() ==> *r@[c].1@[k] == beads@[#[trigger] idx[k] as int],
{
    let cols = kanban_positions(beads, query, include_closed);
    let mut out: Vec<(String, Vec<&'a Bead>)> = Vec::new();
    let mut c: usize = 0;
    while c < cols.len()
        invariant
            c <= cols@.len(),
            out@.len() == c,
            cols@.len() == column_statuses(beads@, include_closed).len(),
            forall|d: int|
                0 <= d < cols@.len() ==> (#[trigger] cols@[d]).0@ == column_statuses(
                    beads@,
                    include_closed,
                )[d] && column_positions(beads@, query@, cols@[d].0@, cols@[d].1@),
            forall|d: int|
                0 <= d < c ==> (#[trigger] out@[d]).0@ == cols@[d].0@ && out@[d].1@.len()
                    == cols@[d].1@.len() && forall|k: int|
                    0 <= k < cols@[d].1@.len() ==> *out@[d].1@[k] == beads@[
                        #[trigger] cols@[d].1@[k] as int
                    ],
        decreases cols@.len() - c,
    {
        let idx = &cols[c].1;
        assert(column_positions(beads@, query@, cols@[c as int].0@, idx@));
        let mut cards: Vec<&'a Bead> = Vec::new();
        let mut k: usize = 0;
        while k < idx.len()
            invariant
                k <= idx@.len(),
                cards@.len() == k,
                forall|t: int| 0 <= t < idx@.len() ==> (#[trigger] idx@[t] as int) < beads@.len(),
                forall|t: int| 0 <= t < k ==> *cards@[t] == beads@[#[trigger] idx@[t] as int],
            decreases idx@.len() - k,
        {
            cards.push(&beads[idx[k]]);
            k = k + 1;
        }
        out.push((cols[c].0.clone(), cards));
        c = c + 1;
    }
    assert forall|d: int| 0 <= d < out@.len() implies (#[trigger] out@[d]).0@ == column_statuses(
        beads@,
        include_closed,
    )[d] && exists|idx: Seq<usize>|
        column_positions(beads@, query@, out@[d].0@, idx) && idx.len() == out@[d].1@.len()
            && forall|k: int| 0 <= k < idx.len() ==> *out@[d].1@[k] == beads@[#[trigger] idx[k] as int] by {
        let idx = cols@[d].1@;
        assert(column_positions(beads@, query@, out@[d].0@, idx));
    }
    out
}

/// The column `delta` steps from the column of `current`, held at the first
/// and the last column.
pub open spec fn adjacent_spec(statuses: Seq<Seq<char>>, current: Seq<char>, delta: int) -> Option<Seq<char>> {
    match statuses.index_of_first(current) {
        Some(i) => {
            let moved = if i + delta < 0 { 0 } else { i + delta };
            let j = if moved > statuses.len() - 1 { statuses.len() - 1 } else { moved };
            Some(statuses[j])
        },
        None => None,
    }
}

/// Adjacent status in kanban order.
pub fn adjacent_status<T>(columns: &[(String, T)], current: &str, delta: i32) -> (r: Option<String>)
    ensures
        match r {
            Some(s) => adjacent_spec(columns@.map_values(|c: (String, T)| c.0@), current@, delta as int)
                == Some(s@),
            None => adjacent_spec(columns@.map_values(|c: (String, T)| c.0@), current@, delta as int)
                is None,
        },
{
    let ghost names = columns@.map_values(|c: (String, T)| c.0@);
    let mut i: usize = 0;
    while i < columns.len()
        invariant
            i <= columns@.len(),
            names == columns@.map_values(|c: (String, T)| c.0@),
            forall|j: int| 0 <= j < i ==> names[j] != current@,
        decreases columns@.len() - i,
    {
        if str_eq(columns[i].0.as_str(), current) {
            proof {
                names.index_of_first_ensures(current@);
                assert(names[i as int] == current@);
            }
            let len = columns.len();
            let j: usize = if delta < 0 {
                let back = (0 - (delta as i64)) as usize;
                if back > i { 0 } else { i - back }
            } else {
                let fwd = delta as usize;
                if fwd > len - 1 - i { len - 1 } else { i + fwd }
            };
            return Some(columns[j].0.clone());
        }
        i = i + 1;
    }
    proof {
        names.index_of_first_ensures(current@);
    }
    None
}

/// Sorted by last change, the newer change comes first: of two beads that
/// both carry a change date, the one changed later sorts before the other.
pub proof fn law_changed_sort_newest_first(a: Bead, b: Bead)
    requires
        a.updated_at is Some,
        b.updated_at is Some,
        lex_order(a.updated_at->0@, b.updated_at->0@) < 0,
    ensures
        key_order(SortKey::Changed, b, a) < 0,
        key_order(SortKey::Changed, a, b) > 0,
{
    lemma_lex_basics(a.updated_at->0@, b.updated_at->0@);
}

/// Sorted by last change, beads changed at the same time, or both never,
/// keep id order.
pub proof fn law_changed_sort_ties_by_id(a: Bead, b: Bead)
    requires
        crate::bd::types::opt_view(a.updated_at) == crate::bd::types::opt_view(b.updated_at),
        lex_order(a.id@, b.id@) < 0,
    ensures
        key_order(SortKey::Changed, a, b) < 0,
{
    if a.updated_at is Some {
        lemma_lex_basics(a.updated_at->0@, b.updated_at->0@);
    }
}

/// In the table sorted by last change, no row has an older change date than
/// a row below it, and rows without a date come after every row with one.
pub proof fn law_changed_rows_newest_first(
    beads: Seq<Bead>,
    query: Seq<char>,
    rows: Seq<usize>,
    k1: int,
    k2: int,
)
    requires
        visible_positions(beads, query, SortKey::Changed, rows),
        0 <= k1 < k2 < rows.len(),
    ensures
        ({
            let upper = beads[rows[k1] as int].updated_at;
            let lower = beads[rows[k2] as int].updated_at;
            &&& upper is Some && lower is Some ==> lex_order(upper->0@, lower->0@) >= 0
            &&& upper is None ==> lower is None
        }),
{
    assert(sorts_before(SortKey::Changed, beads, rows[k1] as int, rows[k2] as int));
    let a = beads[rows[k1] as int];
    let b = beads[rows[k2] as int];
    let c = opt_text_order(
        crate::bd::types::opt_view(b.updated_at),
        crate::bd::types::opt_view(a.updated_at),
    );
    assert(c <= 0);
    if a.updated_at is Some && b.updated_at is Some {
        lemma_lex_basics(a.updated_at->0@, b.updated_at->0@);
    }
}

} // verus!
