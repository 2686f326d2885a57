//! Ready-made store parts: a middleware that forwards everything, one that
//! swallows everything, deferred work that dispatches a fixed batch, and a
//! subscriber that re-dispatches a single stored action once.

use vstd::prelude::*;

use crate::api::{action_weight, queue_weight, Action, Middleware, Subscriber, Thunk};

verus! {

/// Middleware that hands every action on unchanged.
pub struct Passthrough;

impl<P, T: Thunk<P>> Middleware<P, T> for Passthrough {
    open spec fn spec_decide(&self, a: Action<P, T>) -> Option<Action<P, T>> {
        Some(a)
    }

    proof fn decide_weight(&self, a: Action<P, T>) {
    }

    fn decide(&self, a: Action<P, T>) -> (r: Option<Action<P, T>>) {
        Some(a)
    }
}

/// Middleware that never calls the next stage: every action is swallowed,
/// so no transition and no notification happen while it is registered.
pub struct Swallow;

impl<P, T: Thunk<P>> Middleware<P, T> for Swallow {
    open spec fn spec_decide(&self, a: Action<P, T>) -> Option<Action<P, T>> {
        None
    }

    proof fn decide_weight(&self, a: Action<P, T>) {
    }

    fn decide(&self, a: Action<P, T>) -> (r: Option<Action<P, T>>) {
        None
    }
}

/// Deferred work that dispatches a fixed batch of plain actions.
pub struct BatchThunk<P> {
    pub actions: Vec<P>,
}

impl<P> Thunk<P> for BatchThunk<P> {
    open spec fn spec_actions(&self) -> Seq<P> {
        self.actions@
    }

    fn run(self) -> (r: Vec<P>) {
        self.actions
    }
}

/// A subscriber that re-dispatches one stored action the first time it is
/// notified, and does nothing afterwards.
pub struct OneShot<P, T> {
    pub pending: Option<Action<P, T>>,
}

impl<P, T> View for OneShot<P, T> {
    type V = Option<Action<P, T>>;

    open spec fn view(&self) -> Option<Action<P, T>> {
        self.pending
    }
}

impl<S: View, P, T: Thunk<P>> Subscriber<S, P, T> for OneShot<P, T> {
    open spec fn on_notify(v: Option<Action<P, T>>, s: <S as View>::V) -> Option<Action<P, T>> {
        None
    }

    open spec fn follow(v: Option<Action<P, T>>, s: <S as View>::V) -> Seq<Action<P, T>> {
        match v {
            Some(a) => seq![a],
            None => Seq::empty(),
        }
    }

    open spec fn budget(v: Option<Action<P, T>>) -> nat {
        match v {
            Some(a) => action_weight(a),
            None => 0,
        }
    }

    proof fn budget_bound(v: Option<Action<P, T>>, s: <S as View>::V) {
        let e = Seq::<Action<P, T>>::empty();
        assert(queue_weight(e) == 0);
        match v {
            Some(a) => {
                assert(seq![a].drop_first() =~= e);
                assert(queue_weight(seq![a]) == action_weight(a) + queue_weight(e));
            },
            None => {},
        }
    }

    fn notify(&mut self, s: &S) -> (r: Vec<Action<P, T>>) {
        match self.pending.take() {
            Some(a) => {
                let mut v = Vec::new();
                v.push(a);
                proof {
                    assert(v@ =~= seq![a]);
                }
                v
            },
            None => Vec::new(),
        }
    }
}

} // verus!
