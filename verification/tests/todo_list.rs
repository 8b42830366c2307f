use reactive_ui::todo::{TodoItem, TodoList};

fn ids(l: &TodoList) -> Vec<u64> {
    l.items().iter().map(|t| t.id).collect()
}

#[test]
fn blank_text_never_changes_the_list() {
    let mut l = TodoList::new();
    l.add(String::new());
    assert_eq!(l.total_count(), 0);
    l.add(String::from("   "));
    assert_eq!(l.total_count(), 0);
    l.add(String::from(" \t\r\n "));
    assert_eq!(l.total_count(), 0);
    l.add(String::from("\u{a0}\u{2003}\u{3000}"));
    assert_eq!(l.total_count(), 0);
    assert_eq!(l.next_id(), 0);
    l.add(String::from("real task"));
    assert_eq!(l.total_count(), 1);
    l.add(String::from("   "));
    assert_eq!(l.total_count(), 1);
}

#[test]
fn add_appends_one_uncompleted_item() {
    let mut l = TodoList::new();
    l.add(String::from("buy milk"));
    assert_eq!(l.total_count(), 1);
    let item = l.item_at(0);
    assert_eq!(item.id, 0);
    assert_eq!(item.text, "buy milk");
    assert!(!item.completed);
    assert_eq!(l.next_id(), 1);
}

#[test]
fn submit_takes_the_input_buffer_and_clears_it() {
    let mut l = TodoList::new();
    l.set_input(String::from("first"));
    assert_eq!(l.input_value(), "first");
    l.submit_input();
    assert_eq!(l.total_count(), 1);
    assert_eq!(l.item_at(0).text, "first");
    assert_eq!(l.input_value(), "");
    l.set_input(String::from("  "));
    l.submit_input();
    assert_eq!(l.total_count(), 1);
    assert_eq!(l.input_value(), "  ");
}

#[test]
fn toggle_twice_restores_the_flag() {
    let mut l = TodoList::new();
    l.add(String::from("a"));
    l.add(String::from("b"));
    assert!(!l.item_at(0).completed);
    l.toggle(0);
    assert!(l.item_at(0).completed);
    assert!(!l.item_at(1).completed);
    l.toggle(0);
    assert!(!l.item_at(0).completed);
    assert!(!l.item_at(1).completed);
}

#[test]
fn toggle_of_absent_id_is_a_no_op() {
    let mut l = TodoList::new();
    l.add(String::from("a"));
    l.toggle(7);
    assert_eq!(l.total_count(), 1);
    assert!(!l.item_at(0).completed);
}

#[test]
fn delete_removes_exactly_the_item_with_that_id() {
    let mut l = TodoList::new();
    l.add(String::from("a"));
    l.add(String::from("b"));
    l.add(String::from("c"));
    l.delete(1);
    assert_eq!(l.total_count(), 2);
    assert_eq!(ids(&l), vec![0, 2]);
    assert_eq!(l.item_at(0).text, "a");
    assert_eq!(l.item_at(1).text, "c");
}

#[test]
fn delete_is_idempotent() {
    let mut l = TodoList::new();
    l.add(String::from("a"));
    l.add(String::from("b"));
    l.delete(0);
    assert_eq!(ids(&l), vec![1]);
    l.delete(0);
    assert_eq!(ids(&l), vec![1]);
}

#[test]
fn ids_stay_stable_and_unique_across_mutations() {
    let mut l = TodoList::new();
    l.add(String::from("a"));
    l.add(String::from("b"));
    l.delete(0);
    l.add(String::from("c"));
    assert_eq!(ids(&l), vec![1, 2]);
    l.add(String::from("d"));
    assert_eq!(ids(&l), vec![1, 2, 3]);
}

#[test]
fn completed_count_never_exceeds_total_count() {
    let mut l = TodoList::new();
    for (i, text) in ["a", "b", "c", "d"].iter().enumerate() {
        l.add(String::from(*text));
        if i % 2 == 0 {
            l.toggle(i as u64);
        }
        assert!(l.completed_count() <= l.total_count());
    }
    assert_eq!(l.completed_count(), 2);
    assert_eq!(l.total_count(), 4);
    l.delete(0);
    assert!(l.completed_count() <= l.total_count());
    assert_eq!(l.completed_count(), 1);
}

#[test]
fn empty_state_visible_iff_no_items() {
    let mut l = TodoList::new();
    assert!(l.empty_state_visible());
    l.add(String::from("a"));
    assert!(!l.empty_state_visible());
    l.delete(0);
    assert!(l.empty_state_visible());
}

#[test]
fn scenario_add_toggle_delete() {
    let mut l = TodoList::new();
    l.add(String::from("a"));
    l.add(String::from("b"));
    let snapshot: Vec<(u64, String, bool)> =
        l.items().iter().map(|t| (t.id, t.text.clone(), t.completed)).collect();
    assert_eq!(
        snapshot,
        vec![(0, String::from("a"), false), (1, String::from("b"), false)]
    );
    l.toggle(0);
    let snapshot: Vec<(u64, String, bool)> =
        l.items().iter().map(|t| (t.id, t.text.clone(), t.completed)).collect();
    assert_eq!(
        snapshot,
        vec![(0, String::from("a"), true), (1, String::from("b"), false)]
    );
    assert_eq!(l.completed_count(), 1);
    l.delete(1);
    let snapshot: Vec<(u64, String, bool)> =
        l.items().iter().map(|t| (t.id, t.text.clone(), t.completed)).collect();
    assert_eq!(snapshot, vec![(0, String::from("a"), true)]);
}

#[test]
fn item_clone_copies_all_fields() {
    let item = TodoItem { id: 3, text: String::from("x"), completed: true };
    let copy = item.clone();
    assert_eq!(copy.id, 3);
    assert_eq!(copy.text, "x");
    assert!(copy.completed);
}
