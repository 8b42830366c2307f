use reactive_ui::render::{plan_rows, RowOp};
use reactive_ui::todo::{TodoItem, TodoList};

fn row(id: u64, text: &str, completed: bool) -> TodoItem {
    TodoItem { id, text: String::from(text), completed }
}

#[test]
fn unchanged_rows_are_all_reused() {
    let old = vec![row(0, "a", false), row(1, "b", true)];
    let new = vec![row(0, "a", false), row(1, "b", true)];
    let plan = plan_rows(&old, &new);
    assert_eq!(plan.ops, vec![RowOp::Keep, RowOp::Keep]);
    assert!(plan.removed.is_empty());
}

#[test]
fn a_toggled_row_is_patched_and_the_rest_reused() {
    let old = vec![row(0, "a", false), row(1, "b", false)];
    let new = vec![row(0, "a", true), row(1, "b", false)];
    let plan = plan_rows(&old, &new);
    assert_eq!(plan.ops, vec![RowOp::Patch, RowOp::Keep]);
    assert!(plan.removed.is_empty());
}

#[test]
fn an_added_row_is_mounted_at_its_position() {
    let old = vec![row(0, "a", false)];
    let new = vec![row(0, "a", false), row(1, "b", false)];
    let plan = plan_rows(&old, &new);
    assert_eq!(plan.ops, vec![RowOp::Keep, RowOp::Mount]);
    assert!(plan.removed.is_empty());
}

#[test]
fn a_deleted_row_is_unmounted_and_the_rest_reused() {
    let old = vec![row(0, "a", true), row(1, "b", false), row(2, "c", false)];
    let new = vec![row(0, "a", true), row(2, "c", false)];
    let plan = plan_rows(&old, &new);
    assert_eq!(plan.ops, vec![RowOp::Keep, RowOp::Keep]);
    assert_eq!(plan.removed, vec![1]);
}

#[test]
fn first_render_mounts_everything() {
    let old: Vec<TodoItem> = Vec::new();
    let new = vec![row(0, "a", false), row(1, "b", false)];
    let plan = plan_rows(&old, &new);
    assert_eq!(plan.ops, vec![RowOp::Mount, RowOp::Mount]);
    assert!(plan.removed.is_empty());
}

#[test]
fn plan_follows_the_list_through_its_transitions() {
    let mut l = TodoList::new();
    l.add(String::from("a"));
    l.add(String::from("b"));
    let before = l.items().clone();
    l.toggle(0);
    l.add(String::from("c"));
    l.delete(1);
    let plan = plan_rows(&before, l.items());
    assert_eq!(plan.ops, vec![RowOp::Patch, RowOp::Mount]);
    assert_eq!(plan.removed, vec![1]);
}
