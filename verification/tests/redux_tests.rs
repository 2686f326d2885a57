use std::sync::{Arc, Mutex};

use redux_store::redux::{
    reducer, Action, State, Store, Todo, TodoAction, VisibilityFilter,
};

#[test]
fn todo_scenario() {
    let mut store: Store<fn(State, Action) -> State, fn(State)> = Store::create_store(reducer);

    let initial = store.get_state();
    assert_eq!(initial.todos.len(), 0);
    assert_eq!(initial.visibility_filter, VisibilityFilter::ShowAll);

    store.dispatch(Action::Todos(TodoAction::Add("buy milk".to_string())));
    let after_add = store.get_state();
    assert_eq!(after_add.todos.len(), 1);
    assert_eq!(after_add.todos[0].id, 1);
    assert_eq!(after_add.todos[0].title, "buy milk");
    assert!(!after_add.todos[0].completed);
    assert!(!after_add.todos[0].deleted);
    assert_eq!(after_add.visibility_filter, VisibilityFilter::ShowAll);

    store.dispatch(Action::Todos(TodoAction::Toggle(1)));
    let after_toggle = store.get_state();
    assert!(after_toggle.todos[0].completed);
    assert!(!after_toggle.todos[0].deleted);

    store.dispatch(Action::Todos(TodoAction::Remove(1)));
    let after_remove = store.get_state();
    assert_eq!(after_remove.todos.len(), 1);
    assert!(after_remove.todos[0].deleted);

    store.dispatch(Action::Visibility(VisibilityFilter::ShowCompleted));
    let after_filter = store.get_state();
    assert_eq!(after_filter.visibility_filter, VisibilityFilter::ShowCompleted);
    assert_eq!(after_filter.todos.len(), 1);
    assert_eq!(after_filter.todos[0].title, "buy milk");
    assert!(after_filter.todos[0].completed);
    assert!(after_filter.todos[0].deleted);
}

#[test]
fn listeners_run_in_registration_order() {
    let log: Arc<Mutex<Vec<i32>>> = Arc::new(Mutex::new(Vec::new()));
    let make = |tag: i32| {
        let log = Arc::clone(&log);
        move |_state: State| {
            log.lock().unwrap().push(tag);
        }
    };

    let mut store = Store::create_store(reducer as fn(State, Action) -> State);
    store.subscribe(make(1));
    store.subscribe(make(2));

    store.dispatch(Action::Todos(TodoAction::Add("walk the dog".to_string())));

    assert_eq!(*log.lock().unwrap(), vec![1, 2]);
}

#[test]
fn listeners_see_the_committed_state() {
    let seen: Arc<Mutex<Vec<usize>>> = Arc::new(Mutex::new(Vec::new()));
    let make = |_tag: i32| {
        let seen = Arc::clone(&seen);
        move |state: State| {
            seen.lock().unwrap().push(state.todos.len());
        }
    };

    let mut store = Store::create_store(reducer as fn(State, Action) -> State);
    store.subscribe(make(0));

    store.dispatch(Action::Todos(TodoAction::Add("one".to_string())));
    store.dispatch(Action::Todos(TodoAction::Add("two".to_string())));

    assert_eq!(*seen.lock().unwrap(), vec![1, 2]);
}

#[test]
fn unknown_id_is_a_no_op() {
    let start = State::with_defaults();
    let one = reducer(start, Action::Todos(TodoAction::Add("task".to_string())));
    let toggled = reducer(one, Action::Todos(TodoAction::Toggle(99)));
    assert_eq!(toggled.todos.len(), 1);
    assert!(!toggled.todos[0].completed);
    assert!(!toggled.todos[0].deleted);

    let removed = reducer(toggled, Action::Todos(TodoAction::Remove(42)));
    assert!(!removed.todos[0].deleted);
}

#[test]
fn added_ids_count_up_from_one() {
    let mut state = State::with_defaults();
    state = reducer(state, Action::Todos(TodoAction::Add("a".to_string())));
    state = reducer(state, Action::Todos(TodoAction::Add("b".to_string())));
    state = reducer(state, Action::Todos(TodoAction::Add("c".to_string())));
    let ids: Vec<i16> = state.todos.iter().map(|t| t.id).collect();
    assert_eq!(ids, vec![1, 2, 3]);
}

#[test]
fn visibility_changes_only_the_filter() {
    let mut state = State::with_defaults();
    state = reducer(state, Action::Todos(TodoAction::Add("a".to_string())));
    let before = state.clone();
    let after = reducer(state, Action::Visibility(VisibilityFilter::ShowActive));
    assert_eq!(after.visibility_filter, VisibilityFilter::ShowActive);
    assert_eq!(after.todos.len(), before.todos.len());
    assert_eq!(after.todos[0].title, before.todos[0].title);
    assert_eq!(after.todos[0].completed, before.todos[0].completed);
}

#[test]
fn with_defaults_is_empty_and_shows_all() {
    let state = State::with_defaults();
    assert_eq!(state.todos.len(), 0);
    assert_eq!(state.visibility_filter, VisibilityFilter::ShowAll);
}

#[test]
fn new_todo_is_fresh() {
    let todo = Todo::new(5, "call home".to_string());
    assert_eq!(todo.id, 5);
    assert_eq!(todo.title, "call home");
    assert!(!todo.completed);
    assert!(!todo.deleted);
}

#[test]
fn get_state_twice_returns_equal_values() {
    let mut store: Store<fn(State, Action) -> State, fn(State)> = Store::create_store(reducer);
    store.dispatch(Action::Todos(TodoAction::Add("water plants".to_string())));

    let first = store.get_state();
    let second = store.get_state();
    assert_eq!(first.todos.len(), second.todos.len());
    assert_eq!(first.todos[0].title, second.todos[0].title);
    assert_eq!(first.visibility_filter, second.visibility_filter);
}
