//! The mathematical model of dispatch.
//!
//! A [`Config`] is the abstract value of a store, together with the queue of
//! actions still to process in the current dispatch. [`step`] performs one
//! queue entry — run it through the middleware chain, then either drop it,
//! expand its deferred work, or commit a transition and notify every
//! subscriber — and [`run`] iterates `step` until the queue is empty. `run`
//! terminates because every queue entry is paid for: the queue's weight plus
//! the subscribers' remaining budgets ([`potential`]) strictly decreases with
//! each step.
//!
//! The store's executable `dispatch` is proved equal to `run`; the laws of
//! the container are proved about `run`.

use vstd::prelude::*;

use crate::api::{
    action_weight, lemma_queue_weight_concat, lemma_queue_weight_plain, queue_weight, Action,
    Middleware, Reducer, Subscriber, Thunk,
};

verus! {

/// One notification: the subscriber at position `subscriber` (in
/// registration order) observed committed state `state`. The store's log of
/// these, oldest first, is the order in which notifications happened.
pub struct NotifyEvent<SV> {
    pub subscriber: nat,
    pub state: SV,
}

/// The abstract value of a store: its state view, its subscribers' views in
/// registration order, the history of notifications, the transition
/// function, and the queue of actions still to process.
#[verifier::ext_equal]
pub struct Config<S: View, P, T, R, L: View> {
    pub reducer: R,
    pub state: <S as View>::V,
    pub subs: Seq<<L as View>::V>,
    pub log: Seq<NotifyEvent<<S as View>::V>>,
    pub queue: Seq<Action<P, T>>,
}

/// What the middleware chain, applied front to back, does with one action:
/// `Some(b)` means `b` survives to the end of the chain, `None` means some
/// stage swallowed it.
pub open spec fn chain_decide<P, T: Thunk<P>, M: Middleware<P, T>>(
    mids: Seq<M>,
    a: Action<P, T>,
) -> Option<Action<P, T>>
    decreases mids.len(),
{
    if mids.len() == 0 {
        Some(a)
    } else {
        match mids[0].spec_decide(a) {
            Some(b) => chain_decide(mids.drop_first(), b),
            None => None,
        }
    }
}

/// Notify every subscriber, in order, of committed state `s`. Yields the
/// subscribers' views afterwards, the actions they re-dispatch (concatenated
/// in notification order), and the notification events (`base` is the
/// position of the first subscriber).
pub open spec fn notify_all<S: View, P, T: Thunk<P>, L: Subscriber<S, P, T>>(
    subs: Seq<<L as View>::V>,
    s: <S as View>::V,
    base: nat,
) -> (Seq<<L as View>::V>, Seq<Action<P, T>>, Seq<NotifyEvent<<S as View>::V>>)
    decreases subs.len(),
{
    if subs.len() == 0 {
        (Seq::empty(), Seq::empty(), Seq::empty())
    } else {
        let prev = notify_all::<S, P, T, L>(subs.drop_last(), s, base);
        let v = subs.last();
        (
            prev.0.push(L::on_notify(v, s)),
            prev.1 + L::follow(v, s),
            prev.2.push(NotifyEvent { subscriber: (base + subs.len() - 1) as nat, state: s }),
        )
    }
}

/// Process the first queued action: run it through the middleware chain;
/// a swallowed action is dropped, surviving deferred work is expanded into
/// its plain actions at the back of the queue, and a surviving plain action
/// is applied to the state, after which every subscriber is notified and its
/// re-dispatches are queued.
pub open spec fn step<
    S: View,
    P,
    T: Thunk<P>,
    R: Reducer<S, P>,
    L: Subscriber<S, P, T>,
    M: Middleware<P, T>,
>(mids: Seq<M>, c: Config<S, P, T, R, L>) -> Config<S, P, T, R, L>
    recommends
        c.queue.len() > 0,
{
    let rest = c.queue.drop_first();
    match chain_decide(mids, c.queue[0]) {
        None => Config { queue: rest, ..c },
        Some(Action::Deferred(t)) => Config {
            queue: rest + t.spec_actions().map_values(|p: P| Action::<P, T>::Plain(p)),
            ..c
        },
        Some(Action::Plain(p)) => {
            let s2 = c.reducer.spec_reduce(c.state, p);
            let nr = notify_all::<S, P, T, L>(c.subs, s2, 0);
            Config { state: s2, subs: nr.0, log: c.log + nr.2, queue: rest + nr.1, ..c }
        },
    }
}

/// The total budget the subscribers still hold for re-dispatching.
pub open spec fn subs_budget<S: View, P, T: Thunk<P>, L: Subscriber<S, P, T>>(
    subs: Seq<<L as View>::V>,
) -> nat
    decreases subs.len(),
{
    if subs.len() == 0 {
        0
    } else {
        L::budget(subs[0]) + subs_budget::<S, P, T, L>(subs.drop_first())
    }
}

/// The work left in a dispatch: the queue's cost plus everything the
/// subscribers may still inject. Strictly decreases with every [`step`].
pub open spec fn potential<S: View, P, T: Thunk<P>, R: Reducer<S, P>, L: Subscriber<S, P, T>>(
    c: Config<S, P, T, R, L>,
) -> nat {
    queue_weight(c.queue) + subs_budget::<S, P, T, L>(c.subs)
}

/// Run [`step`] until the queue is empty: the complete effect of one
/// dispatch (including everything re-entered by subscribers and deferred
/// work) on a store's abstract value.
pub open spec fn run<
    S: View,
    P,
    T: Thunk<P>,
    R: Reducer<S, P>,
    L: Subscriber<S, P, T>,
    M: Middleware<P, T>,
>(mids: Seq<M>, c: Config<S, P, T, R, L>) -> Config<S, P, T, R, L>
    decreases potential(c),
    via run_decreases::<S, P, T, R, L, M>
{
    if c.queue.len() == 0 {
        c
    } else {
        run(mids, step(mids, c))
    }
}

#[via_fn]
proof fn run_decreases<
    S: View,
    P,
    T: Thunk<P>,
    R: Reducer<S, P>,
    L: Subscriber<S, P, T>,
    M: Middleware<P, T>,
>(mids: Seq<M>, c: Config<S, P, T, R, L>) {
    if c.queue.len() > 0 {
        lemma_step_potential(mids, c);
    }
}

/// Budget is additive: appending one subscriber adds its budget.
pub proof fn lemma_subs_budget_snoc<S: View, P, T: Thunk<P>, L: Subscriber<S, P, T>>(
    subs: Seq<<L as View>::V>,
    v: <L as View>::V,
)
    ensures
        subs_budget::<S, P, T, L>(subs.push(v)) == subs_budget::<S, P, T, L>(subs) + L::budget(v),
    decreases subs.len(),
{
    if subs.len() == 0 {
        assert(subs.push(v)[0] == v);
        assert(subs.push(v).drop_first() =~= Seq::<<L as View>::V>::empty());
        assert(subs_budget::<S, P, T, L>(subs.push(v)) == L::budget(v)
            + subs_budget::<S, P, T, L>(Seq::<<L as View>::V>::empty()));
        assert(subs_budget::<S, P, T, L>(subs) == 0);
    } else {
        assert(subs.push(v)[0] == subs[0]);
        assert(subs.push(v).drop_first() =~= subs.drop_first().push(v));
        lemma_subs_budget_snoc::<S, P, T, L>(subs.drop_first(), v);
        assert(subs_budget::<S, P, T, L>(subs.push(v)) == L::budget(subs[0])
            + subs_budget::<S, P, T, L>(subs.drop_first().push(v)));
        assert(subs_budget::<S, P, T, L>(subs) == L::budget(subs[0])
            + subs_budget::<S, P, T, L>(subs.drop_first()));
    }
}

/// One notification round is paid for out of the subscribers' budgets: the
/// re-dispatched work plus the budgets left never exceed the budgets held
/// before. Also pins the shape of the round's results.
pub proof fn lemma_notify_budget<S: View, P, T: Thunk<P>, L: Subscriber<S, P, T>>(
    subs: Seq<<L as View>::V>,
    s: <S as View>::V,
    base: nat,
)
    ensures
        ({
            let nr = notify_all::<S, P, T, L>(subs, s, base);
            &&& subs_budget::<S, P, T, L>(nr.0) + queue_weight(nr.1)
                <= subs_budget::<S, P, T, L>(subs)
            &&& nr.0.len() == subs.len()
            &&& nr.2.len() == subs.len()
        }),
    decreases subs.len(),
{
    if subs.len() > 0 {
        let prev = notify_all::<S, P, T, L>(subs.drop_last(), s, base);
        let v = subs.last();
        lemma_notify_budget::<S, P, T, L>(subs.drop_last(), s, base);
        L::budget_bound(v, s);
        lemma_subs_budget_snoc::<S, P, T, L>(prev.0, L::on_notify(v, s));
        lemma_queue_weight_concat(prev.1, L::follow(v, s));
        assert(subs.drop_last().push(v) =~= subs);
        lemma_subs_budget_snoc::<S, P, T, L>(subs.drop_last(), v);
    }
}

/// The middleware chain never increases an action's cost.
pub proof fn lemma_chain_weight<P, T: Thunk<P>, M: Middleware<P, T>>(
    mids: Seq<M>,
    a: Action<P, T>,
)
    ensures
        (match chain_decide(mids, a) {
            Some(b) => action_weight(b) <= action_weight(a),
            None => true,
        }),
    decreases mids.len(),
{
    if mids.len() > 0 {
        mids[0].decide_weight(a);
        match mids[0].spec_decide(a) {
            Some(b) => {
                lemma_chain_weight(mids.drop_first(), b);
            },
            None => {},
        }
    }
}

/// Every step strictly decreases the remaining work.
pub proof fn lemma_step_potential<
    S: View,
    P,
    T: Thunk<P>,
    R: Reducer<S, P>,
    L: Subscriber<S, P, T>,
    M: Middleware<P, T>,
>(mids: Seq<M>, c: Config<S, P, T, R, L>)
    requires
        c.queue.len() > 0,
    ensures
        potential(step(mids, c)) < potential(c),
{
    let a = c.queue[0];
    let rest = c.queue.drop_first();
    lemma_chain_weight(mids, a);
    match chain_decide(mids, a) {
        None => {},
        Some(Action::Deferred(t)) => {
            let extra = t.spec_actions().map_values(|p: P| Action::<P, T>::Plain(p));
            lemma_queue_weight_plain::<P, T>(t.spec_actions());
            lemma_queue_weight_concat(rest, extra);
        },
        Some(Action::Plain(p)) => {
            let s2 = c.reducer.spec_reduce(c.state, p);
            lemma_notify_budget::<S, P, T, L>(c.subs, s2, 0);
            let nr = notify_all::<S, P, T, L>(c.subs, s2, 0);
            lemma_queue_weight_concat(rest, nr.1);
        },
    }
}

/// Running a dispatch only appends to the notification log: the log before
/// is a prefix of the log after.
pub proof fn lemma_run_log_prefix<
    S: View,
    P,
    T: Thunk<P>,
    R: Reducer<S, P>,
    L: Subscriber<S, P, T>,
    M: Middleware<P, T>,
>(mids: Seq<M>, c: Config<S, P, T, R, L>)
    ensures
        run(mids, c).log.len() >= c.log.len(),
        run(mids, c).log.take(c.log.len() as int) == c.log,
    decreases potential(c),
{
    if c.queue.len() == 0 {
        assert(run(mids, c).log.take(c.log.len() as int) =~= c.log);
    } else {
        let d = step(mids, c);
        lemma_step_potential(mids, c);
        lemma_run_log_prefix(mids, d);
        assert(d.log.take(c.log.len() as int) =~= c.log);
        assert(run(mids, d).log.take(c.log.len() as int) =~= c.log);
    }
}

} // verus!
