//! A minimal counter domain for the store: one integer state, incremented
//! and decremented, with a recording subscriber.

use vstd::prelude::*;

use crate::api::{queue_weight, Action, Reducer, Subscriber, Thunk};

verus! {

/// The counter's whole state.
#[derive(Clone, Copy, PartialEq, Eq, Structural, Debug)]
pub struct CounterState {
    pub counter: i32,
}

impl View for CounterState {
    type V = CounterState;

    open spec fn view(&self) -> CounterState {
        *self
    }
}

/// What can happen to the counter.
#[derive(Clone, Copy, PartialEq, Eq, Structural, Debug)]
pub enum CounterAction {
    Increment,
    Decrement,
}

/// The counter's transition function. It is total: at the bounds of `i32`
/// the counter stays put instead of overflowing.
pub struct CounterReducer;

impl Reducer<CounterState, CounterAction> for CounterReducer {
    open spec fn spec_reduce(&self, s: CounterState, a: CounterAction) -> CounterState {
        match a {
            CounterAction::Increment => CounterState {
                counter: if s.counter == i32::MAX {
                    i32::MAX
                } else {
                    (s.counter + 1) as i32
                },
            },
            CounterAction::Decrement => CounterState {
                counter: if s.counter == i32::MIN {
                    i32::MIN
                } else {
                    (s.counter - 1) as i32
                },
            },
        }
    }

    fn reduce(&self, s: &CounterState, a: &CounterAction) -> (r: CounterState) {
        match a {
            CounterAction::Increment => {
                if s.counter == i32::MAX {
                    *s
                } else {
                    CounterState { counter: s.counter + 1 }
                }
            },
            CounterAction::Decrement => {
                if s.counter == i32::MIN {
                    *s
                } else {
                    CounterState { counter: s.counter - 1 }
                }
            },
        }
    }
}

/// A subscriber that records every counter value it observes, in order.
pub struct CounterRecorder {
    pub seen: Vec<i32>,
}

impl View for CounterRecorder {
    type V = Seq<i32>;

    open spec fn view(&self) -> Seq<i32> {
        self.seen@
    }
}

impl<T: Thunk<CounterAction>> Subscriber<CounterState, CounterAction, T> for CounterRecorder {
    open spec fn on_notify(v: Seq<i32>, s: CounterState) -> Seq<i32> {
        v.push(s.counter)
    }

    open spec fn follow(v: Seq<i32>, s: CounterState) -> Seq<Action<CounterAction, T>> {
        Seq::empty()
    }

    open spec fn budget(v: Seq<i32>) -> nat {
        0
    }

    proof fn budget_bound(v: Seq<i32>, s: CounterState) {
        assert(queue_weight(Seq::<Action<CounterAction, T>>::empty()) == 0);
    }

    fn notify(&mut self, s: &CounterState) -> (r: Vec<Action<CounterAction, T>>) {
        self.seen.push(s.counter);
        Vec::new()
    }
}

} // verus!
