use redux_store::api::Action;
use redux_store::builtin::{BatchThunk, OneShot, Passthrough, Swallow};
use redux_store::counter::{CounterAction, CounterRecorder, CounterReducer, CounterState};
use redux_store::store::Store;

type Thunk = BatchThunk<CounterAction>;
type CounterStore<L, M> = Store<CounterState, CounterAction, Thunk, CounterReducer, L, M>;

#[test]
fn test_store() {
    let initial_state = CounterState { counter: 0 };
    let mut store: CounterStore<CounterRecorder, Passthrough> =
        Store::new(CounterReducer, initial_state).with_middleware(vec![Passthrough]);

    store.dispatch(Action::Plain(CounterAction::Increment));
    assert_eq!(store.get_state().counter, 1);

    store.dispatch(Action::Plain(CounterAction::Decrement));
    assert_eq!(store.get_state().counter, 0);
}

#[test]
fn test_subscribe() {
    let initial_state = CounterState { counter: 0 };
    let mut store: CounterStore<CounterRecorder, Passthrough> =
        Store::new(CounterReducer, initial_state).with_middleware(vec![Passthrough]);

    store.subscribe(CounterRecorder { seen: Vec::new() });

    store.dispatch(Action::Plain(CounterAction::Increment));
    store.dispatch(Action::Plain(CounterAction::Increment));
    store.dispatch(Action::Plain(CounterAction::Decrement));

    assert_eq!(store.subscribers()[0].seen, vec![1, 2, 1]);
}

#[test]
fn both_subscribers_observe_committed_state() {
    let mut store: CounterStore<CounterRecorder, Passthrough> =
        Store::new(CounterReducer, CounterState { counter: 0 });
    store.subscribe(CounterRecorder { seen: Vec::new() });
    store.subscribe(CounterRecorder { seen: Vec::new() });

    store.dispatch(Action::Plain(CounterAction::Increment));

    assert_eq!(store.subscribers()[0].seen, vec![1]);
    assert_eq!(store.subscribers()[1].seen, vec![1]);
}

#[test]
fn swallowing_middleware_short_circuits() {
    let mut store: CounterStore<CounterRecorder, Swallow> =
        Store::new(CounterReducer, CounterState { counter: 7 }).with_middleware(vec![Swallow]);
    store.subscribe(CounterRecorder { seen: Vec::new() });

    store.dispatch(Action::Plain(CounterAction::Increment));

    assert_eq!(store.get_state().counter, 7);
    assert_eq!(store.subscribers()[0].seen, Vec::<i32>::new());
}

#[test]
fn passthrough_middleware_is_identity() {
    let mut with_mid: CounterStore<CounterRecorder, Passthrough> =
        Store::new(CounterReducer, CounterState { counter: 0 })
            .with_middleware(vec![Passthrough]);
    let mut without: CounterStore<CounterRecorder, Passthrough> =
        Store::new(CounterReducer, CounterState { counter: 0 });

    let actions = [
        CounterAction::Increment,
        CounterAction::Increment,
        CounterAction::Decrement,
        CounterAction::Increment,
    ];
    for a in actions.iter() {
        with_mid.dispatch(Action::Plain(*a));
        without.dispatch(Action::Plain(*a));
    }

    assert_eq!(*with_mid.get_state(), *without.get_state());
    assert_eq!(with_mid.get_state().counter, 2);
}

#[test]
fn reentrant_dispatch_applies_both_actions() {
    let mut store: CounterStore<OneShot<CounterAction, Thunk>, Passthrough> =
        Store::new(CounterReducer, CounterState { counter: 0 });
    store.subscribe(OneShot { pending: Some(Action::Plain(CounterAction::Increment)) });

    store.dispatch(Action::Plain(CounterAction::Increment));

    assert_eq!(store.get_state().counter, 2);
    assert!(store.subscribers()[0].pending.is_none());
}

#[test]
fn deferred_round_trip_matches_plain_dispatch() {
    let mut deferred: CounterStore<CounterRecorder, Passthrough> =
        Store::new(CounterReducer, CounterState { counter: 0 });
    let mut plain: CounterStore<CounterRecorder, Passthrough> =
        Store::new(CounterReducer, CounterState { counter: 0 });

    deferred.dispatch(Action::Deferred(BatchThunk {
        actions: vec![CounterAction::Increment],
    }));
    plain.dispatch(Action::Plain(CounterAction::Increment));

    assert_eq!(*deferred.get_state(), *plain.get_state());
    assert_eq!(deferred.get_state().counter, 1);
}

#[test]
fn deferred_batch_runs_all_actions_in_order() {
    let mut store: CounterStore<CounterRecorder, Passthrough> =
        Store::new(CounterReducer, CounterState { counter: 0 });
    store.subscribe(CounterRecorder { seen: Vec::new() });

    store.dispatch(Action::Deferred(BatchThunk {
        actions: vec![
            CounterAction::Increment,
            CounterAction::Increment,
            CounterAction::Decrement,
        ],
    }));

    assert_eq!(store.get_state().counter, 1);
    assert_eq!(store.subscribers()[0].seen, vec![1, 2, 1]);
}

#[test]
fn get_state_is_idempotent() {
    let mut store: CounterStore<CounterRecorder, Passthrough> =
        Store::new(CounterReducer, CounterState { counter: 3 });
    store.dispatch(Action::Plain(CounterAction::Increment));

    let first = *store.get_state();
    let second = *store.get_state();
    assert_eq!(first, second);
}

#[test]
fn counter_saturates_at_the_bounds() {
    let mut store: CounterStore<CounterRecorder, Passthrough> =
        Store::new(CounterReducer, CounterState { counter: i32::MAX });
    store.dispatch(Action::Plain(CounterAction::Increment));
    assert_eq!(store.get_state().counter, i32::MAX);

    let mut low: CounterStore<CounterRecorder, Passthrough> =
        Store::new(CounterReducer, CounterState { counter: i32::MIN });
    low.dispatch(Action::Plain(CounterAction::Decrement));
    assert_eq!(low.get_state().counter, i32::MIN);
}

#[test]
fn middleware_registration_order_is_kept() {
    let mut store: CounterStore<CounterRecorder, Passthrough> =
        Store::new(CounterReducer, CounterState { counter: 0 });
    store.add_middleware(Passthrough);
    store.add_middleware(Passthrough);

    store.dispatch(Action::Plain(CounterAction::Increment));
    assert_eq!(store.get_state().counter, 1);
}
