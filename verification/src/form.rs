//! Multi-field create / edit form. Fields match `bd create` / `bd update`.

use vstd::prelude::*;

use crate::bd::ISSUE_TYPES;
use crate::text::{chars_of, pop_char, push_char, string_of};

verus! {

pub const F_TYPE: u8 = 0;
pub const F_PRIORITY: u8 = 1;
pub const F_TITLE: u8 = 2;
pub const F_DESC: u8 = 3;
pub const F_ASSIGNEE: u8 = 4;
pub const F_EPIC: u8 = 5;
pub const F_LABELS: u8 = 6;
pub const F_BACKLOG: u8 = 7;
pub const FIELDS: u8 = 8;

/// In-progress `bd create` / `bd update` form.
#[derive(Debug, Clone)]
pub struct BeadForm {
    pub title: String,
    pub description: String,
    pub assignee: String,
    pub labels: String,
    pub type_index: usize,
    pub priority: u8,
    /// 0 = no epic; otherwise index + 1 into `epics`.
    pub epic_idx: usize,
    pub deferred: bool,
    pub field: u8,
    pub epics: Vec<(String, String)>,
    /// `Some(id)` when editing an existing bead.
    pub edit_id: Option<String>,
}

/// The issue types, by their characters.
pub open spec fn issue_types() -> Seq<Seq<char>> {
    ISSUE_TYPES@.map_values(|s: &str| s@)
}

/// `a` and `b` agree on every field but the text fields.
pub open spec fn same_choices(a: BeadForm, b: BeadForm) -> bool {
    &&& a.type_index == b.type_index
    &&& a.priority == b.priority
    &&& a.epic_idx == b.epic_idx
    &&& a.deferred == b.deferred
    &&& a.field == b.field
    &&& a.epics == b.epics
    &&& a.edit_id == b.edit_id
}

/// `a` and `b` agree on every text field.
pub open spec fn same_texts(a: BeadForm, b: BeadForm) -> bool {
    &&& a.title == b.title
    &&& a.description == b.description
    &&& a.assignee == b.assignee
    &&& a.labels == b.labels
}

/// The text field that `field` edits, if it is one.
pub open spec fn text_of(f: BeadForm, field: u8) -> Option<Seq<char>> {
    if field == F_TITLE {
        Some(f.title@)
    } else if field == F_DESC {
        Some(f.description@)
    } else if field == F_ASSIGNEE {
        Some(f.assignee@)
    } else if field == F_LABELS {
        Some(f.labels@)
    } else {
        None
    }
}

/// `b` is `a` with the text field `field` replaced by `text`.
pub open spec fn text_replaced(a: BeadForm, b: BeadForm, field: u8, text: Seq<char>) -> bool {
    &&& same_choices(a, b)
    &&& text_of(b, field) == Some(text)
    &&& (field != F_TITLE ==> b.title == a.title)
    &&& (field != F_DESC ==> b.description == a.description)
    &&& (field != F_ASSIGNEE ==> b.assignee == a.assignee)
    &&& (field != F_LABELS ==> b.labels == a.labels)
}

/// `b` is `a` after typing `ch`: a text field gains it, the priority field
/// takes a digit 0 to 4, the backlog field flips on a space.
pub open spec fn typed(a: BeadForm, b: BeadForm, ch: char) -> bool {
    match text_of(a, a.field) {
        Some(t) => text_replaced(a, b, a.field, t.push(ch)),
        None => same_texts(a, b) && b.type_index == a.type_index && b.epic_idx == a.epic_idx
            && b.field == a.field && b.epics == a.epics && b.edit_id == a.edit_id && b.priority == (
        if a.field == F_PRIORITY && '0' <= ch && ch <= '4' {
            (ch as int - '0' as int) as u8
        } else {
            a.priority
        }) && b.deferred == (if a.field == F_BACKLOG && ch == ' ' {
            !a.deferred
        } else {
            a.deferred
        }),
    }
}

/// `b` is `a` after a backspace: the text field under the cursor loses its
/// last character.
pub open spec fn erased(a: BeadForm, b: BeadForm) -> bool {
    match text_of(a, a.field) {
        Some(t) => text_replaced(a, b, a.field, if t.len() > 0 { t.drop_last() } else { t }),
        None => b == a,
    }
}

impl BeadForm {
    /// Empty create form.
    pub fn new(epics: Vec<(String, String)>) -> (r: Self)
        ensures
            r.title@.len() == 0,
            r.description@.len() == 0,
            r.assignee@.len() == 0,
            r.labels@.len() == 0,
            r.type_index == 0,
            r.priority == 2,
            r.epic_idx == 0,
            !r.deferred,
            r.field == F_TITLE,
            r.epics == epics,
            r.edit_id is None,
    {
        BeadForm {
            title: String::new(),
            description: String::new(),
            assignee: String::new(),
            labels: String::new(),
            type_index: 0,
            priority: 2,
            epic_idx: 0,
            deferred: false,
            field: F_TITLE,
            epics,
            edit_id: None,
        }
    }

    /// Position of the current type in `ISSUE_TYPES`, held at the last one.
    pub open spec fn type_position(self) -> int {
        if self.type_index < 7 { self.type_index as int } else { 7 }
    }

    /// Current type name from [`ISSUE_TYPES`].
    pub fn issue_type(&self) -> (r: &'static str)
        ensures
            r@ == issue_types()[self.type_position()],
    {
        let i = if self.type_index < 7 { self.type_index } else { 7 };
        ISSUE_TYPES[i]
    }

    /// The selected parent epic's id: empty for "no epic" or an index past
    /// the list.
    pub open spec fn parent_spec(self) -> Seq<char> {
        if self.epic_idx == 0 || self.epic_idx > self.epics@.len() {
            Seq::<char>::empty()
        } else {
            self.epics@[self.epic_idx - 1].0@
        }
    }

    /// Selected parent epic id, or empty.
    pub fn parent_id(&self) -> (r: &str)
        ensures
            r@ == self.parent_spec(),
    {
        proof {
            reveal_strlit("");
        }
        if self.epic_idx == 0 || self.epic_idx > self.epics.len() {
            ""
        } else {
            self.epics[self.epic_idx - 1].0.as_str()
        }
    }

    /// The epic picker line: `No epic`, or `{id} - {title}` with the title cut
    /// to its first 28 characters.
    pub open spec fn epic_label_spec(self) -> Seq<char> {
        if self.epic_idx == 0 || self.epic_idx > self.epics@.len() {
            "No epic"@
        } else {
            let (id, title) = self.epics@[self.epic_idx - 1];
            id@ + " - "@ + title@.subrange(0, if title@.len() < 28 { title@.len() as int } else { 28 })
        }
    }

    /// One-line epic picker label.
    pub fn epic_label(&self) -> (r: String)
        ensures
            r@ == self.epic_label_spec(),
    {
        if self.epic_idx == 0 || self.epic_idx > self.epics.len() {
            return String::from_str("No epic");
        }
        let (id, title) = (&self.epics[self.epic_idx - 1].0, &self.epics[self.epic_idx - 1].1);
        let cs = chars_of(title.as_str());
        let n: usize = if cs.len() < 28 { cs.len() } else { 28 };
        let mut head: Vec<char> = Vec::new();
        let mut i: usize = 0;
        while i < n
            invariant
                n <= cs@.len(),
                i <= n,
                head@ == cs@.subrange(0, i as int),
            decreases n - i,
        {
            head.push(cs[i]);
            i = i + 1;
        }
        let mut out = id.clone();
        out.append(" - ");
        out.append(string_of(&head).as_str());
        out
    }

    /// Tab: the next field, wrapping to the first.
    pub fn next_field(&mut self)
        requires
            old(self).field < 255,
        ensures
            final(self).field == (old(self).field + 1) % 8,
            same_texts(*old(self), *final(self)),
            final(self).type_index == old(self).type_index,
            final(self).priority == old(self).priority,
            final(self).epic_idx == old(self).epic_idx,
            final(self).deferred == old(self).deferred,
            final(self).epics == old(self).epics,
            final(self).edit_id == old(self).edit_id,
    {
        self.field = (self.field + 1) % FIELDS;
    }

    /// Shift-Tab: the previous field, wrapping to the last.
    pub fn prev_field(&mut self)
        requires
            old(self).field <= 247,
        ensures
            final(self).field == (old(self).field + 7) % 8,
            same_texts(*old(self), *final(self)),
            final(self).type_index == old(self).type_index,
            final(self).priority == old(self).priority,
            final(self).epic_idx == old(self).epic_idx,
            final(self).deferred == old(self).deferred,
            final(self).epics == old(self).epics,
            final(self).edit_id == old(self).edit_id,
    {
        self.field = (self.field + FIELDS - 1) % FIELDS;
    }

    /// The value `nudge` leaves in the field under the cursor, as the
    /// arithmetic computes it (with its `i32` conversions).
    pub open spec fn nudged(self, delta: i32) -> BeadForm {
        if self.field == F_TYPE {
            BeadForm { type_index: ((((self.type_index as i32) as int + delta) % 8) as i32) as usize, ..self }
        } else if self.field == F_PRIORITY {
            let v = (self.priority as i32) as int + delta;
            BeadForm { priority: (if v < 0 { 0 } else if v > 4 { 4 } else { v }) as u8, ..self }
        } else if self.field == F_EPIC {
            let len = ((self.epics@.len() + 1) as usize) as i32;
            BeadForm { epic_idx: ((((self.epic_idx as i32) as int + delta) % (len as int)) as i32) as usize, ..self }
        } else {
            self
        }
    }

    /// Whether `nudge(delta)` stays inside its `i32` arithmetic.
    pub open spec fn nudge_ok(self, delta: i32) -> bool {
        &&& self.field == F_TYPE ==> i32::MIN <= (self.type_index as i32) as int + delta <= i32::MAX
        &&& self.field == F_PRIORITY ==> (self.priority as i32) as int + delta <= i32::MAX
        &&& self.field == F_EPIC ==> {
            let len = ((self.epics@.len() + 1) as usize) as i32;
            let v = (self.epic_idx as i32) as int + delta;
            &&& self.epics@.len() < usize::MAX
            &&& i32::MIN <= v <= i32::MAX
            &&& len != 0
            &&& !(v == i32::MIN && len == -1)
        }
    }

    /// Whether a Left / Right step of `delta` stays within the integer
    /// ranges of the field under the cursor.
    pub fn can_nudge(&self, delta: i32) -> (r: bool)
        ensures
            r == self.nudge_ok(delta),
    {
        if self.field == F_TYPE {
            let v = self.type_index as i32 as i64 + delta as i64;
            i32::MIN as i64 <= v && v <= i32::MAX as i64
        } else if self.field == F_PRIORITY {
            self.priority as i32 as i64 + delta as i64 <= i32::MAX as i64
        } else if self.field == F_EPIC {
            if self.epics.len() == usize::MAX {
                return false;
            }
            let len = (self.epics.len() + 1) as i32;
            let v = self.epic_idx as i32 as i64 + delta as i64;
            i32::MIN as i64 <= v && v <= i32::MAX as i64 && len != 0 && !(v == i32::MIN as i64 && len == -1)
        } else {
            true
        }
    }

    /// Left / Right on the field under the cursor: the issue type and the
    /// epic wrap around their lists, the priority stays within 0..=4.
    pub fn nudge(&mut self, delta: i32)
        requires
            old(self).nudge_ok(delta),
        ensures
            *final(self) == old(self).nudged(delta),
    {
        if self.field == F_TYPE {
            let v = self.type_index as i32 + delta;
            let r = v.checked_rem_euclid(8);
            match r {
                Some(x) => {
                    self.type_index = x as usize;
                },
                None => {},
            }
        } else if self.field == F_PRIORITY {
            let v = self.priority as i32 + delta;
            self.priority = if v < 0 { 0 } else if v > 4 { 4 } else { v as u8 };
        } else if self.field == F_EPIC {
            let len = (self.epics.len() + 1) as i32;
            let v = self.epic_idx as i32 + delta;
            let r = v.checked_rem_euclid(len);
            match r {
                Some(x) => {
                    self.epic_idx = x as usize;
                },
                None => {},
            }
        }
    }

    /// A typed character: text fields gain it, the priority field takes a
    /// digit 0 to 4, the backlog field flips on a space; other keys change
    /// nothing.
    pub fn input_char(&mut self, ch: char)
        ensures
            typed(*old(self), *final(self), ch),
    {
        if self.field == F_TITLE {
            push_char(&mut self.title, ch);
        } else if self.field == F_DESC {
            push_char(&mut self.description, ch);
        } else if self.field == F_ASSIGNEE {
            push_char(&mut self.assignee, ch);
        } else if self.field == F_LABELS {
            push_char(&mut self.labels, ch);
        } else if self.field == F_PRIORITY {
            if '0' <= ch && ch <= '4' {
                self.priority = (ch as u32 - '0' as u32) as u8;
            }
        } else if self.field == F_BACKLOG && ch == ' ' {
            self.deferred = !self.deferred;
        }
    }

    /// Backspace: the text field under the cursor loses its last character.
    pub fn backspace(&mut self)
        ensures
            erased(*old(self), *final(self)),
    {
        if self.field == F_TITLE {
            pop_char(&mut self.title);
        } else if self.field == F_DESC {
            pop_char(&mut self.description);
        } else if self.field == F_ASSIGNEE {
            pop_char(&mut self.assignee);
        } else if self.field == F_LABELS {
            pop_char(&mut self.labels);
        }
    }
}

} // verus!
