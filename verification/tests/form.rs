use cmux_beads::bd::ISSUE_TYPES;
use cmux_beads::form::{BeadForm, F_BACKLOG, F_DESC, F_EPIC, F_PRIORITY, F_TITLE, F_TYPE};

#[test]
fn tab_cycles_and_nudge_wraps_type() {
    let mut form = BeadForm::new(vec![("e-1".into(), "Epic".into())]);
    assert_eq!(form.field, F_TITLE);
    form.next_field();
    assert_eq!(form.field, F_DESC);
    form.field = F_TYPE;
    form.nudge(-1);
    assert_eq!(form.issue_type(), *ISSUE_TYPES.last().unwrap());
    form.field = F_EPIC;
    form.nudge(1);
    assert_eq!(form.parent_id(), "e-1");
}

#[test]
fn typing_edits_the_field_under_the_cursor() {
    let mut form = BeadForm::new(Vec::new());
    form.input_char('h');
    form.input_char('i');
    assert_eq!(form.title, "hi");
    form.backspace();
    assert_eq!(form.title, "h");
    form.field = F_PRIORITY;
    form.input_char('4');
    form.input_char('9');
    assert_eq!(form.priority, 4);
    form.nudge(5);
    assert_eq!(form.priority, 4);
    form.nudge(-9);
    assert_eq!(form.priority, 0);
    form.field = F_BACKLOG;
    form.input_char(' ');
    assert!(form.deferred);
    form.prev_field();
    assert_eq!(form.field, 6);
    form.field = 7;
    form.next_field();
    assert_eq!(form.field, F_TYPE);
}

#[test]
fn epic_label_cuts_long_titles() {
    let mut form = BeadForm::new(vec![("e-1".into(), "A very long epic title that keeps going".into())]);
    assert_eq!(form.epic_label(), "No epic");
    assert_eq!(form.parent_id(), "");
    form.epic_idx = 1;
    assert_eq!(form.epic_label(), "e-1 - A very long epic title that ");
    form.epic_idx = 2;
    assert_eq!(form.parent_id(), "");
}
