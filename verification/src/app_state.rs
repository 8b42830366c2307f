//! The composition root: one state value holding the counter, the todo
//! list and the theme, and one dispatcher that performs the state
//! transition each UI event asks for. The rendering shell owns the
//! event loop; every decision runs here.

use vstd::prelude::*;

use crate::counter::{op_step, Counter, CounterOp};
use crate::theme::Theme;
use crate::todo::{blank, toggled, without, ItemModel, TodoList};

verus! {

/// One user interaction, as the event handlers receive it.
pub enum AppEvent {
    /// A click on one of the counter buttons.
    Counter(CounterOp),
    /// The todo input field changed to this text.
    InputChanged(String),
    /// Enter was pressed, or the Add button clicked.
    SubmitTodo,
    /// The checkbox of the entry with this id changed.
    ToggleTodo(u64),
    /// The delete button of the entry with this id was clicked.
    DeleteTodo(u64),
    /// A click on the theme toggle.
    SwitchTheme,
}

/// The whole application state. The theme is owned here and handed to
/// the toggle control; the counter and the list each own their cells.
pub struct App {
    pub counter: Counter,
    pub todos: TodoList,
    pub theme: Theme,
}

impl App {
    pub open spec fn wf(self) -> bool {
        self.todos.wf()
    }

    /// The state at startup: count 0, no todos, empty input, light
    /// theme.
    pub fn new() -> (a: App)
        ensures
            a.wf(),
            a.counter@ == 0,
            a.todos@.items.len() == 0,
            a.todos@.input.len() == 0,
            a.todos@.next_id == 0,
            a.theme == Theme::Light,
    {
        App { counter: Counter::new(), todos: TodoList::new(), theme: Theme::initial() }
    }

    /// Perform the transition one event asks for. Each event touches
    /// the one component it concerns and leaves the other two exactly
    /// as they were.
    pub fn dispatch(&mut self, event: AppEvent)
        requires
            old(self).wf(),
            event matches AppEvent::Counter(op) ==> (op == CounterOp::Increment ==> old(
                self,
            ).counter@ < i64::MAX) && (op == CounterOp::Decrement ==> old(self).counter@
                > i64::MIN),
            event matches AppEvent::SubmitTodo ==> old(self).todos@.next_id < u64::MAX,
        ensures
            final(self).wf(),
            match event {
                AppEvent::Counter(op) => {
                    &&& final(self).counter@ == op_step(old(self).counter@, op)
                    &&& final(self).todos@ == old(self).todos@
                    &&& final(self).theme == old(self).theme
                },
                AppEvent::InputChanged(text) => {
                    &&& final(self).todos@.items == old(self).todos@.items
                    &&& final(self).todos@.input == text@
                    &&& final(self).todos@.next_id == old(self).todos@.next_id
                    &&& final(self).counter@ == old(self).counter@
                    &&& final(self).theme == old(self).theme
                },
                AppEvent::SubmitTodo => {
                    &&& blank(old(self).todos@.input) ==> final(self).todos@ == old(self).todos@
                    &&& !blank(old(self).todos@.input) ==> {
                        &&& final(self).todos@.items == old(self).todos@.items.push(
                            ItemModel {
                                id: old(self).todos@.next_id,
                                text: old(self).todos@.input,
                                completed: false,
                            },
                        )
                        &&& final(self).todos@.next_id == old(self).todos@.next_id + 1
                        &&& final(self).todos@.input.len() == 0
                    }
                    &&& final(self).counter@ == old(self).counter@
                    &&& final(self).theme == old(self).theme
                },
                AppEvent::ToggleTodo(id) => {
                    &&& final(self).todos@.items == toggled(old(self).todos@.items, id)
                    &&& final(self).todos@.input == old(self).todos@.input
                    &&& final(self).todos@.next_id == old(self).todos@.next_id
                    &&& final(self).counter@ == old(self).counter@
                    &&& final(self).theme == old(self).theme
                },
                AppEvent::DeleteTodo(id) => {
                    &&& final(self).todos@.items == without(old(self).todos@.items, id)
                    &&& final(self).todos@.input == old(self).todos@.input
                    &&& final(self).todos@.next_id == old(self).todos@.next_id
                    &&& final(self).counter@ == old(self).counter@
                    &&& final(self).theme == old(self).theme
                },
                AppEvent::SwitchTheme => {
                    &&& final(self).theme == old(self).theme.spec_toggled()
                    &&& final(self).counter@ == old(self).counter@
                    &&& final(self).todos@ == old(self).todos@
                },
            },
    {
        match event {
            AppEvent::Counter(op) => self.counter.apply(op),
            AppEvent::InputChanged(text) => self.todos.set_input(text),
            AppEvent::SubmitTodo => self.todos.submit_input(),
            AppEvent::ToggleTodo(id) => self.todos.toggle(id),
            AppEvent::DeleteTodo(id) => self.todos.delete(id),
            AppEvent::SwitchTheme => self.theme.toggle(),
        }
    }
}

} // verus!
