//! The state container itself.
//!
//! A [`Store`] owns the current state, the transition function, the
//! subscribers and the middleware chain. Its abstract value is a
//! [`Config`]; every operation's contract says exactly what it does to that
//! value, and `dispatch` is proved equal to the model's [`run`].

use core::marker::PhantomData;

use vstd::prelude::*;

use crate::api::{Action, Middleware, Reducer, Subscriber, Thunk};
use crate::model::{chain_decide, notify_all, potential, run, step, Config, NotifyEvent};

verus! {

/// A reactive state container: one state value, changed only by the
/// transition function `R`, watched by subscribers `L`, with every dispatch
/// intercepted by the middleware chain `M`. `P` is the plain action payload
/// and `T` the deferred work type.
pub struct Store<S: View, P, T, R, L, M> {
    state: S,
    reducer: R,
    subscribers: Vec<L>,
    middlewares: Vec<M>,
    log: Ghost<Seq<NotifyEvent<<S as View>::V>>>,
    marker: PhantomData<(P, T)>,
}

impl<
    S: View,
    P,
    T: Thunk<P>,
    R: Reducer<S, P>,
    L: Subscriber<S, P, T>,
    M: Middleware<P, T>,
> Store<S, P, T, R, L, M> {
    /// The views of the registered subscribers, in registration order.
    pub closed spec fn subscriber_views(&self) -> Seq<<L as View>::V> {
        self.subscribers@.map_values(|l: L| l@)
    }

    /// The store's abstract value: state, subscribers, notification history
    /// and transition function, with no dispatch in flight.
    pub closed spec fn model(&self) -> Config<S, P, T, R, L> {
        Config {
            reducer: self.reducer,
            state: self.state@,
            subs: self.subscriber_views(),
            log: self.log@,
            queue: Seq::empty(),
        }
    }

    /// The abstract value with a queue of pending actions.
    spec fn model_with(&self, q: Seq<Action<P, T>>) -> Config<S, P, T, R, L> {
        Config { queue: q, ..self.model() }
    }

    /// The middleware chain, in registration order.
    pub closed spec fn mids(&self) -> Seq<M> {
        self.middlewares@
    }

    /// Create a store around a transition function and an initial state,
    /// with no subscribers and no middleware.
    pub fn new(reducer: R, initial_state: S) -> (r: Self)
        ensures
            r.model() == (Config::<S, P, T, R, L> {
                reducer,
                state: initial_state@,
                subs: Seq::empty(),
                log: Seq::empty(),
                queue: Seq::empty(),
            }),
            r.mids() == Seq::<M>::empty(),
    {
        let r = Store {
            state: initial_state,
            reducer,
            subscribers: Vec::new(),
            middlewares: Vec::new(),
            log: Ghost(Seq::empty()),
            marker: PhantomData,
        };
        proof {
            assert(r.subscriber_views() =~= Seq::<<L as View>::V>::empty());
        }
        r
    }

    /// Append one interceptor to the middleware chain; the order of calls is
    /// the order the chain runs in.
    pub fn add_middleware(&mut self, middleware: M)
        ensures
            final(self).mids() == old(self).mids().push(middleware),
            final(self).model() == old(self).model(),
    {
        self.middlewares.push(middleware);
    }

    /// Replace the middleware chain wholesale.
    pub fn with_middleware(self, middlewares: Vec<M>) -> (r: Self)
        ensures
            r.mids() == middlewares@,
            r.model() == self.model(),
    {
        Store { middlewares, ..self }
    }

    /// Register one observer; it is notified after every committed
    /// transition, in registration order.
    pub fn subscribe(&mut self, listener: L)
        ensures
            final(self).model() == (Config {
                subs: old(self).model().subs.push(listener@),
                ..old(self).model()
            }),
            final(self).mids() == old(self).mids(),
    {
        let ghost v = listener@;
        self.subscribers.push(listener);
        proof {
            assert(self.subscriber_views() =~= old(self).subscriber_views().push(v));
            assert(self.model() =~= (Config { subs: old(self).model().subs.push(v), ..old(self).model() }));
        }
    }

    /// A snapshot of the current state: always a committed value, never a
    /// partial one.
    pub fn get_state(&self) -> (r: &S)
        ensures
            r@ == self.model().state,
    {
        &self.state
    }

    /// The registered observers, for inspection.
    pub fn subscribers(&self) -> (r: &Vec<L>)
        ensures
            r@.map_values(|l: L| l@) == self.model().subs,
    {
        &self.subscribers
    }

    /// Run one action through the middleware chain, front to back.
    #[verifier::loop_isolation(false)]
    fn apply_chain(&self, action: Action<P, T>) -> (r: Option<Action<P, T>>)
        ensures
            r == chain_decide(self.mids(), action),
    {
        let ghost a0 = action;
        let ghost mids = self.middlewares@;
        let mut current = action;
        let mut i: usize = 0;
        proof {
            assert(mids.skip(0) =~= mids);
        }
        while i < self.middlewares.len()
            invariant
                i <= mids.len(),
                self.middlewares@ == mids,
                chain_decide(mids, a0) == chain_decide(mids.skip(i as int), current),
            decreases mids.len() - i,
        {
            let ghost cur0 = current;
            proof {
                assert(mids.skip(i as int)[0] == mids[i as int]);
                assert(mids.skip(i as int).drop_first() =~= mids.skip(i as int + 1));
            }
            match self.middlewares[i].decide(current) {
                Some(next) => {
                    proof {
                        assert(chain_decide(mids.skip(i as int), cur0) == chain_decide(
                            mids.skip(i as int + 1),
                            next,
                        ));
                    }
                    current = next;
                },
                None => {
                    proof {
                        assert(chain_decide(mids.skip(i as int), cur0) == None::<Action<P, T>>);
                    }
                    return None;
                },
            }
            i = i + 1;
        }
        proof {
            assert(mids.skip(i as int) =~= Seq::<M>::empty());
        }
        Some(current)
    }

    /// Notify every subscriber, in registration order, of the current state;
    /// returns the actions the subscribers re-dispatch, in notification
    /// order.
    fn notify_subscribers(&mut self) -> (fw: Vec<Action<P, T>>)
        ensures
            ({
                let nr = notify_all::<S, P, T, L>(
                    old(self).model().subs,
                    old(self).model().state,
                    0,
                );
                &&& final(self).model() == (Config {
                    subs: nr.0,
                    log: old(self).model().log + nr.2,
                    ..old(self).model()
                })
                &&& fw@ == nr.1
                &&& final(self).mids() == old(self).mids()
            }),
    {
        let ghost subs0 = self.subscribers@;
        let ghost s0 = self.state@;
        let ghost log0 = self.log@;
        let ghost red0 = self.reducer;
        let ghost mids0 = self.middlewares@;
        let mut fw: Vec<Action<P, T>> = Vec::new();
        let mut i: usize = 0;
        while i < self.subscribers.len()
            invariant
                i <= subs0.len(),
                self.subscribers@.len() == subs0.len(),
                forall|k: int| i <= k < subs0.len() ==> self.subscribers@[k] == subs0[k],
                self.state@ == s0,
                self.reducer == red0,
                self.middlewares@ == mids0,
                ({
                    let nr = notify_all::<S, P, T, L>(
                        subs0.take(i as int).map_values(|l: L| l@),
                        s0,
                        0,
                    );
                    &&& self.subscriber_views() == nr.0 + subs0.skip(i as int).map_values(
                        |l: L| l@,
                    )
                    &&& fw@ == nr.1
                    &&& self.log@ == log0 + nr.2
                }),
            decreases subs0.len() - i,
        {
            proof {
                assert(self.subscribers@[i as int] == subs0[i as int]);
            }
            let ghost subs_prev = self.subscribers@;
            let sub = &mut self.subscribers[i];
            let mut extra = sub.notify(&self.state);
            proof {
                assert(self.subscribers@.len() == subs_prev.len());
                assert(forall|k: int|
                    0 <= k < subs_prev.len() && k != i ==> self.subscribers@[k] == subs_prev[k]);
                assert(self.subscribers@[i as int]@ == L::on_notify(subs_prev[i as int]@, s0));
            }
            fw.append(&mut extra);
            self.log = Ghost(self.log@.push(NotifyEvent { subscriber: i as nat, state: s0 }));
            proof {
                let f = |l: L| l@;
                let upd = L::on_notify(subs0[i as int]@, s0);
                let prev_taken = subs0.take(i as int).map_values(f);
                let taken = subs0.take(i as int + 1).map_values(f);
                let nr_prev = notify_all::<S, P, T, L>(prev_taken, s0, 0);
                let nr = notify_all::<S, P, T, L>(taken, s0, 0);
                crate::model::lemma_notify_budget::<S, P, T, L>(prev_taken, s0, 0);
                assert(prev_taken.len() == i);
                assert(nr_prev.0.len() == i);
                assert(subs0.take(i as int + 1).drop_last() =~= subs0.take(i as int));
                assert(taken.drop_last() =~= prev_taken);
                assert(taken.last() == subs0[i as int]@);
                assert(taken.len() == i + 1);
                assert(nr.0 == nr_prev.0.push(upd));
                assert(nr.1 == nr_prev.1 + L::follow(subs0[i as int]@, s0));
                assert(nr.2 == nr_prev.2.push(NotifyEvent { subscriber: i as nat, state: s0 }));
                assert(self.subscriber_views() =~= subs_prev.map_values(f).update(i as int, upd));
                assert(subs_prev.map_values(f) == nr_prev.0 + subs0.skip(i as int).map_values(f));
                assert(subs0.skip(i as int)[0] == subs0[i as int]);
                assert(forall|k: int|
                    0 <= k < subs0.len() - i - 1 ==> #[trigger] subs0.skip(i as int + 1)[k]
                        == subs0.skip(i as int)[k + 1]);
                assert(self.subscriber_views() =~= nr.0 + subs0.skip(i as int + 1).map_values(f));
            }
            i = i + 1;
        }
        proof {
            let f = |l: L| l@;
            assert(subs0.take(i as int) =~= subs0);
            assert(subs0.skip(i as int).map_values(f) =~= Seq::<<L as View>::V>::empty());
            let nr = notify_all::<S, P, T, L>(subs0.map_values(f), s0, 0);
            assert(self.subscriber_views() =~= nr.0);
            assert(old(self).model().subs == subs0.map_values(f));
            assert(self.model() =~= (Config {
                subs: nr.0,
                log: old(self).model().log + nr.2,
                ..old(self).model()
            }));
        }
        fw
    }

    /// Dispatch one action: run it through the middleware chain, apply the
    /// transition function if a plain action survives, execute surviving
    /// deferred work, notify subscribers after each committed transition,
    /// and keep going until every re-dispatched action has been processed.
    /// The whole effect equals the model's [`run`] on a queue holding just
    /// `action`.
    pub fn dispatch(&mut self, action: Action<P, T>)
        ensures
            final(self).mids() == old(self).mids(),
            final(self).model() == run(old(self).mids(), (Config {
                queue: seq![action],
                ..old(self).model()
            })),
    {
        let ghost m0 = self.middlewares@;
        let ghost c0 = self.model_with(seq![action]);
        let mut queue: Vec<Action<P, T>> = Vec::new();
        queue.push(action);
        proof {
            assert(queue@ =~= seq![action]);
        }
        while queue.len() > 0
            invariant
                self.middlewares@ == m0,
                run(m0, c0) == run(m0, self.model_with(queue@)),
            decreases potential(self.model_with(queue@)),
        {
            let ghost cb = self.model_with(queue@);
            proof {
                crate::model::lemma_step_potential(m0, cb);
            }
            let a = queue.remove(0);
            proof {
                assert(queue@ =~= cb.queue.drop_first());
            }
            let decided = self.apply_chain(a);
            match decided {
                None => {
                    proof {
                        assert(self.model_with(queue@) =~= step(m0, cb));
                    }
                },
                Some(Action::Plain(p)) => {
                    let s2 = self.reducer.reduce(&self.state, &p);
                    self.state = s2;
                    let mut extra = self.notify_subscribers();
                    queue.append(&mut extra);
                    proof {
                        assert(self.model_with(queue@) =~= step(m0, cb));
                    }
                },
                Some(Action::Deferred(t)) => {
                    let mut extra = t.run();
                    let ghost ps = extra@;
                    let ghost q0 = queue@;
                    proof {
                        assert(queue@ =~= q0 + ps.take(0).map_values(
                            |p: P| Action::<P, T>::Plain(p),
                        ));
                    }
                    let ghost mut j: int = 0;
                    while extra.len() > 0
                        invariant
                            j == ps.len() - extra@.len(),
                            0 <= j <= ps.len(),
                            extra@ == ps.skip(j),
                            queue@ == q0 + ps.take(j).map_values(
                                |p: P| Action::<P, T>::Plain(p),
                            ),
                        decreases extra@.len(),
                    {
                        proof {
                            assert(ps.skip(j)[0] == ps[j]);
                        }
                        let p = extra.remove(0);
                        queue.push(Action::Plain(p));
                        proof {
                            let f = |p: P| Action::<P, T>::Plain(p);
                            assert(extra@ =~= ps.skip(j + 1));
                            assert(ps.take(j + 1) =~= ps.take(j).push(ps[j]));
                            assert(ps.take(j + 1).map_values(f) =~= ps.take(j).map_values(f).push(
                                f(ps[j]),
                            ));
                            assert(queue@ =~= q0 + ps.take(j + 1).map_values(f));
                            j = j + 1;
                        }
                    }
                    proof {
                        let f = |p: P| Action::<P, T>::Plain(p);
                        assert(ps.take(j) =~= ps);
                        assert(queue@ == q0 + ps.map_values(f));
                        assert(self.model_with(queue@) =~= step(m0, cb));
                    }
                },
            }
            proof {
                assert(run(m0, cb) == run(m0, step(m0, cb)));
            }
        }
        proof {
            assert(queue@ =~= Seq::<Action<P, T>>::empty());
            assert(self.model_with(queue@) =~= self.model());
            assert(run(m0, self.model()) == self.model());
        }
    }
}

} // verus!
