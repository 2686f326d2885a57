//! The container's laws, proved over the dispatch model.
//!
//! Each lemma here states a global property of [`run`], the model that
//! `Store::dispatch` is proved to implement, so the property carries over to
//! the executable store.

use vstd::prelude::*;

use crate::api::{Action, Middleware, Reducer, Subscriber, Thunk};
use crate::model::{
    chain_decide, lemma_run_log_prefix, lemma_step_potential, notify_all, potential, run, step,
    Config, NotifyEvent,
};

verus! {

/// Ordering of notifications: in a store with two subscribers and no
/// middleware, dispatching one plain action notifies the first-registered
/// subscriber with the post-transition state strictly before the second:
/// their notification events stand in exactly that order in the log.
pub proof fn lemma_notification_order<
    S: View,
    P,
    T: Thunk<P>,
    R: Reducer<S, P>,
    L: Subscriber<S, P, T>,
    M: Middleware<P, T>,
>(mids: Seq<M>, c: Config<S, P, T, R, L>, p: P)
    requires
        mids.len() == 0,
        c.subs.len() == 2,
        c.queue == seq![Action::<P, T>::Plain(p)],
    ensures
        ({
            let s2 = c.reducer.spec_reduce(c.state, p);
            let d = run(mids, c);
            &&& d.log.len() >= c.log.len() + 2
            &&& d.log[c.log.len() as int] == (NotifyEvent { subscriber: 0, state: s2 })
            &&& d.log[c.log.len() as int + 1] == (NotifyEvent { subscriber: 1, state: s2 })
        }),
{
    let s2 = c.reducer.spec_reduce(c.state, p);
    let vs = c.subs;
    let vs1 = vs.drop_last();
    let nr1 = notify_all::<S, P, T, L>(vs1, s2, 0);
    let nr = notify_all::<S, P, T, L>(vs, s2, 0);
    assert(c.queue[0] == Action::<P, T>::Plain(p));
    assert(chain_decide(mids, Action::<P, T>::Plain(p)) == Some(Action::<P, T>::Plain(p)));
    let ve = Seq::<<L as View>::V>::empty();
    let ne = notify_all::<S, P, T, L>(ve, s2, 0);
    assert(ne.2 == Seq::<NotifyEvent<<S as View>::V>>::empty());
    assert(vs1.len() == 1);
    assert(vs1.drop_last() =~= ve);
    assert(nr1.2 == ne.2.push(NotifyEvent { subscriber: 0, state: s2 }));
    assert(nr1.2 =~= seq![NotifyEvent { subscriber: 0, state: s2 }]);
    assert(nr.2 == nr1.2.push(NotifyEvent { subscriber: 1, state: s2 }));
    assert(nr.2 =~= seq![
        NotifyEvent { subscriber: 0, state: s2 },
        NotifyEvent { subscriber: 1, state: s2 },
    ]);
    let d1 = step(mids, c);
    assert(d1.log == c.log + nr.2);
    assert(d1.log.len() == c.log.len() + 2);
    assert(run(mids, c) == run(mids, d1));
    lemma_run_log_prefix(mids, d1);
    let d = run(mids, d1);
    assert(d.log[c.log.len() as int] == d.log.take(d1.log.len() as int)[c.log.len() as int]);
    assert(d.log[c.log.len() as int + 1] == d.log.take(d1.log.len() as int)[c.log.len() as int + 1]);
    assert(d1.log[c.log.len() as int] == nr.2[0]);
    assert(d1.log[c.log.len() as int + 1] == nr.2[1]);
}

/// A middleware that forwards nothing swallows the whole chain.
pub proof fn lemma_chain_swallow<P, T: Thunk<P>, M: Middleware<P, T>>(
    mids: Seq<M>,
    a: Action<P, T>,
    i: int,
)
    requires
        0 <= i < mids.len(),
        forall|b: Action<P, T>| #[trigger] mids[i].spec_decide(b) is None,
    ensures
        chain_decide(mids, a) is None,
    decreases i,
{
    if i == 0 {
        assert(mids[0].spec_decide(a) is None);
    } else {
        match mids[0].spec_decide(a) {
            Some(b) => {
                assert(mids.drop_first()[i - 1] == mids[i]);
                lemma_chain_swallow(mids.drop_first(), b, i - 1);
            },
            None => {},
        }
    }
}

/// Middleware short-circuit: if some middleware in the chain never calls the
/// next stage, a dispatch of any single action leaves the state, the
/// subscribers and the notification log exactly as they were — no transition
/// runs and nobody is notified.
pub proof fn lemma_short_circuit<
    S: View,
    P,
    T: Thunk<P>,
    R: Reducer<S, P>,
    L: Subscriber<S, P, T>,
    M: Middleware<P, T>,
>(mids: Seq<M>, c: Config<S, P, T, R, L>, a: Action<P, T>, i: int)
    requires
        c.queue == seq![a],
        0 <= i < mids.len(),
        forall|b: Action<P, T>| #[trigger] mids[i].spec_decide(b) is None,
    ensures
        run(mids, c) == (Config { queue: Seq::empty(), ..c }),
{
    lemma_chain_swallow(mids, a, i);
    assert(c.queue[0] == a);
    let d1 = step(mids, c);
    assert(c.queue.drop_first() =~= Seq::<Action<P, T>>::empty());
    assert(d1 =~= (Config { queue: Seq::<Action<P, T>>::empty(), ..c }));
    assert(run(mids, c) == run(mids, d1));
}

/// Pass-through identity, one dispatch: a chain holding exactly one
/// middleware that forwards every action unchanged behaves like the empty
/// chain, from any configuration.
pub proof fn lemma_passthrough_identity<
    S: View,
    P,
    T: Thunk<P>,
    R: Reducer<S, P>,
    L: Subscriber<S, P, T>,
    M: Middleware<P, T>,
    N: Middleware<P, T>,
>(m: M, none: Seq<N>, c: Config<S, P, T, R, L>)
    requires
        forall|a: Action<P, T>| #[trigger] m.spec_decide(a) == Some(a),
        none.len() == 0,
    ensures
        run(seq![m], c) == run(none, c),
    decreases potential(c),
{
    if c.queue.len() > 0 {
        let a = c.queue[0];
        let em = Seq::<M>::empty();
        assert(chain_decide(em, a) == Some(a));
        assert(seq![m].drop_first() =~= em);
        assert(seq![m][0] == m);
        assert(chain_decide(seq![m], a) == chain_decide(em, a));
        assert(chain_decide(none, a) == Some(a));
        assert(step(seq![m], c) =~= step(none, c));
        lemma_step_potential(none, c);
        assert(run(seq![m], c) == run(seq![m], step(seq![m], c)));
        assert(run(none, c) == run(none, step(none, c)));
        lemma_passthrough_identity(m, none, step(none, c));
    }
}

/// Dispatch a sequence of actions, one full dispatch each, left to right.
pub open spec fn run_each<
    S: View,
    P,
    T: Thunk<P>,
    R: Reducer<S, P>,
    L: Subscriber<S, P, T>,
    M: Middleware<P, T>,
>(mids: Seq<M>, c: Config<S, P, T, R, L>, actions: Seq<Action<P, T>>) -> Config<S, P, T, R, L>
    decreases actions.len(),
{
    if actions.len() == 0 {
        c
    } else {
        run_each(
            mids,
            run(mids, Config { queue: seq![actions[0]], ..c }),
            actions.drop_first(),
        )
    }
}

/// Pass-through identity: a store whose only middleware forwards every
/// action unchanged and a store with no middleware at all, given the same
/// sequence of actions from the same starting point, reach identical final
/// configurations — the same state, the same subscribers, the same log.
pub proof fn lemma_passthrough_identity_each<
    S: View,
    P,
    T: Thunk<P>,
    R: Reducer<S, P>,
    L: Subscriber<S, P, T>,
    M: Middleware<P, T>,
    N: Middleware<P, T>,
>(m: M, none: Seq<N>, c: Config<S, P, T, R, L>, actions: Seq<Action<P, T>>)
    requires
        forall|a: Action<P, T>| #[trigger] m.spec_decide(a) == Some(a),
        none.len() == 0,
    ensures
        run_each(seq![m], c, actions) == run_each(none, c, actions),
    decreases actions.len(),
{
    if actions.len() > 0 {
        let c1 = Config { queue: seq![actions[0]], ..c };
        lemma_passthrough_identity(m, none, c1);
        lemma_passthrough_identity_each(m, none, run(none, c1), actions.drop_first());
    }
}

/// Re-entrant dispatch safety: with one subscriber and no middleware, if the
/// subscriber re-dispatches exactly one plain action `p2` on seeing the
/// state committed for `p`, and nothing further on seeing the state
/// committed for `p2`, then a dispatch of `p` applies both transitions in
/// order — no state is lost — and the subscriber observes both committed
/// states.
pub proof fn lemma_reentrant_dispatch<
    S: View,
    P,
    T: Thunk<P>,
    R: Reducer<S, P>,
    L: Subscriber<S, P, T>,
    M: Middleware<P, T>,
>(mids: Seq<M>, c: Config<S, P, T, R, L>, p: P, p2: P)
    requires
        mids.len() == 0,
        c.subs.len() == 1,
        c.queue == seq![Action::<P, T>::Plain(p)],
        L::follow(c.subs[0], c.reducer.spec_reduce(c.state, p)) == seq![Action::<P, T>::Plain(p2)],
        L::follow(
            L::on_notify(c.subs[0], c.reducer.spec_reduce(c.state, p)),
            c.reducer.spec_reduce(c.reducer.spec_reduce(c.state, p), p2),
        ) == Seq::<Action<P, T>>::empty(),
    ensures
        ({
            let s1 = c.reducer.spec_reduce(c.state, p);
            let s2 = c.reducer.spec_reduce(s1, p2);
            run(mids, c) == (Config {
                state: s2,
                subs: seq![L::on_notify(L::on_notify(c.subs[0], s1), s2)],
                log: c.log + seq![
                    NotifyEvent { subscriber: 0, state: s1 },
                    NotifyEvent { subscriber: 0, state: s2 },
                ],
                queue: Seq::empty(),
                ..c
            })
        }),
{
    let s1 = c.reducer.spec_reduce(c.state, p);
    let s2 = c.reducer.spec_reduce(s1, p2);
    let v0 = c.subs[0];
    let v1 = L::on_notify(v0, s1);
    let v2 = L::on_notify(v1, s2);
    assert(c.queue[0] == Action::<P, T>::Plain(p));
    assert(chain_decide(mids, Action::<P, T>::Plain(p)) == Some(Action::<P, T>::Plain(p)));
    assert(chain_decide(mids, Action::<P, T>::Plain(p2)) == Some(Action::<P, T>::Plain(p2)));

    let ve = Seq::<<L as View>::V>::empty();
    let ne1 = notify_all::<S, P, T, L>(ve, s1, 0);
    assert(ne1.0 == ve);
    let nr1 = notify_all::<S, P, T, L>(c.subs, s1, 0);
    assert(c.subs.drop_last() =~= ve);
    assert(c.subs.last() == v0);
    assert(nr1.0 == ne1.0.push(v1));
    assert(nr1.0 =~= seq![v1]);
    assert(nr1.1 == ne1.1 + L::follow(v0, s1));
    assert(nr1.1 =~= seq![Action::<P, T>::Plain(p2)]);
    assert(nr1.2 =~= seq![NotifyEvent { subscriber: 0, state: s1 }]);

    let d1 = step(mids, c);
    assert(c.queue.drop_first() =~= Seq::<Action<P, T>>::empty());
    assert(d1.queue =~= seq![Action::<P, T>::Plain(p2)]);
    assert(d1.state == s1);
    assert(d1.subs == seq![v1]);

    let ne2 = notify_all::<S, P, T, L>(ve, s2, 0);
    assert(ne2.0 == ve);
    let nr2 = notify_all::<S, P, T, L>(d1.subs, s2, 0);
    assert(d1.subs.drop_last() =~= ve);
    assert(d1.subs.last() == v1);
    assert(nr2.0 == ne2.0.push(v2));
    assert(nr2.0 =~= seq![v2]);
    assert(nr2.1 == ne2.1 + L::follow(v1, s2));
    assert(nr2.1 =~= Seq::<Action<P, T>>::empty());
    assert(nr2.2 =~= seq![NotifyEvent { subscriber: 0, state: s2 }]);

    let d2 = step(mids, d1);
    assert(d1.queue[0] == Action::<P, T>::Plain(p2));
    assert(d1.queue.drop_first() =~= Seq::<Action<P, T>>::empty());
    assert(d2.queue =~= Seq::<Action<P, T>>::empty());
    assert(run(mids, c) == run(mids, d1));
    assert(run(mids, d1) == run(mids, d2));
    assert(run(mids, d2) == d2);
    assert(d2.log =~= c.log + seq![
        NotifyEvent { subscriber: 0, state: s1 },
        NotifyEvent { subscriber: 0, state: s2 },
    ]);
    assert(run(mids, c) =~= (Config {
        state: s2,
        subs: seq![v2],
        log: c.log + seq![
            NotifyEvent { subscriber: 0, state: s1 },
            NotifyEvent { subscriber: 0, state: s2 },
        ],
        queue: Seq::empty(),
        ..c
    }));
}

/// Deferred action round trip: dispatching a deferred action whose work
/// yields exactly the plain action `p` has, with no middleware registered,
/// exactly the effect of dispatching `p` directly.
pub proof fn lemma_deferred_round_trip<
    S: View,
    P,
    T: Thunk<P>,
    R: Reducer<S, P>,
    L: Subscriber<S, P, T>,
    M: Middleware<P, T>,
>(mids: Seq<M>, c: Config<S, P, T, R, L>, t: T, p: P)
    requires
        mids.len() == 0,
        t.spec_actions() == seq![p],
    ensures
        run(mids, Config { queue: seq![Action::Deferred(t)], ..c }) == run(
            mids,
            Config { queue: seq![Action::Plain(p)], ..c },
        ),
{
    let cd = Config { queue: seq![Action::<P, T>::Deferred(t)], ..c };
    let cp = Config { queue: seq![Action::<P, T>::Plain(p)], ..c };
    assert(cd.queue[0] == Action::<P, T>::Deferred(t));
    assert(chain_decide(mids, Action::<P, T>::Deferred(t)) == Some(
        Action::<P, T>::Deferred(t),
    ));
    assert(cd.queue.drop_first() =~= Seq::<Action<P, T>>::empty());
    assert(t.spec_actions().map_values(|q: P| Action::<P, T>::Plain(q)) =~= seq![
        Action::<P, T>::Plain(p),
    ]);
    assert(step(mids, cd) =~= cp);
    assert(run(mids, cd) == run(mids, step(mids, cd)));
}

/// Idempotence of reading the state: reads do not change the store, so any
/// two state snapshots taken from the same configuration — two `get_state`
/// calls with no dispatch between them — are equal.
pub proof fn lemma_get_state_idempotent<
    S: View,
    P,
    T: Thunk<P>,
    R: Reducer<S, P>,
    L: Subscriber<S, P, T>,
>(c: Config<S, P, T, R, L>, r1: <S as View>::V, r2: <S as View>::V)
    requires
        r1 == c.state,
        r2 == c.state,
    ensures
        r1 == r2,
{
}

} // verus!
