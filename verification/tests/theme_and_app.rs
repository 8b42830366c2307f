use reactive_ui::app_state::{App, AppEvent};
use reactive_ui::counter::CounterOp;
use reactive_ui::theme::Theme;

#[test]
fn theme_toggle_is_an_involution() {
    let mut t = Theme::initial();
    assert_eq!(t, Theme::Light);
    t.toggle();
    assert_eq!(t, Theme::Dark);
    t.toggle();
    assert_eq!(t, Theme::Light);
}

#[test]
fn theme_value_stays_in_the_two_string_domain() {
    let mut t = Theme::initial();
    for _ in 0..5 {
        assert!(t.label() == "light" || t.label() == "dark");
        t.toggle();
    }
}

#[test]
fn theme_labels_and_classes() {
    let mut t = Theme::initial();
    assert_eq!(t.label(), "light");
    assert_eq!(t.toggle_caption(), "\u{1f319} Dark");
    assert_eq!(t.class(), "bg-gray-50 text-gray-900 min-h-screen");
    t.toggle();
    assert_eq!(t.label(), "dark");
    assert_eq!(t.toggle_caption(), "\u{2600}\u{fe0f} Light");
    assert_eq!(t.class(), "bg-gray-900 text-white min-h-screen");
}

#[test]
fn dispatch_routes_each_event_to_its_component() {
    let mut app = App::new();
    app.dispatch(AppEvent::Counter(CounterOp::Increment));
    app.dispatch(AppEvent::Counter(CounterOp::Increment));
    assert_eq!(app.counter.count(), 2);
    assert_eq!(app.todos.total_count(), 0);
    assert_eq!(app.theme, Theme::Light);

    app.dispatch(AppEvent::InputChanged(String::from("write tests")));
    assert_eq!(app.todos.input_value(), "write tests");
    app.dispatch(AppEvent::SubmitTodo);
    assert_eq!(app.todos.total_count(), 1);
    assert_eq!(app.todos.input_value(), "");
    assert_eq!(app.todos.item_at(0).text, "write tests");

    app.dispatch(AppEvent::ToggleTodo(0));
    assert!(app.todos.item_at(0).completed);
    app.dispatch(AppEvent::DeleteTodo(0));
    assert_eq!(app.todos.total_count(), 0);

    app.dispatch(AppEvent::SwitchTheme);
    assert_eq!(app.theme, Theme::Dark);
    assert_eq!(app.counter.count(), 2);
}

#[test]
fn dispatch_with_blank_input_changes_nothing() {
    let mut app = App::new();
    app.dispatch(AppEvent::InputChanged(String::from("   ")));
    app.dispatch(AppEvent::SubmitTodo);
    assert_eq!(app.todos.total_count(), 0);
    assert_eq!(app.todos.input_value(), "   ");
    assert_eq!(app.todos.next_id(), 0);
}

#[test]
fn counter_reset_event() {
    let mut app = App::new();
    for _ in 0..4 {
        app.dispatch(AppEvent::Counter(CounterOp::Increment));
    }
    app.dispatch(AppEvent::Counter(CounterOp::Reset));
    assert_eq!(app.counter.count(), 0);
}
