//! The vocabulary of the store: actions and the four capabilities an
//! application plugs into it — a transition function, observers, interceptors
//! and deferred work.
//!
//! Each capability is a trait whose executable method is pinned to a spec
//! function of the same trait, so that the store's dispatch engine is a
//! mathematical function of its inputs. Every capability also carries a
//! well-foundedness obligation (a `weight` or `budget`) bounding how much
//! further work it may inject into a dispatch; this is what makes dispatch
//! terminate even though subscribers and deferred work may re-enter it.

use vstd::prelude::*;

verus! {

/// An action dispatched through a store: either a plain value consumed by the
/// transition function, or a deferred unit of work that, when executed,
/// yields further actions to dispatch.
pub enum Action<P, T> {
    Plain(P),
    Deferred(T),
}

/// The cost of one action: an upper bound on the dispatch work it can cause.
/// A plain action costs one transition; a deferred action costs one step to
/// execute its work plus one transition per action the work yields.
pub open spec fn action_weight<P, T: Thunk<P>>(a: Action<P, T>) -> nat {
    match a {
        Action::Plain(_) => 1,
        Action::Deferred(t) => t.spec_actions().len() + 1,
    }
}

/// The total cost of a queue of pending actions.
pub open spec fn queue_weight<P, T: Thunk<P>>(q: Seq<Action<P, T>>) -> nat
    decreases q.len(),
{
    if q.len() == 0 {
        0
    } else {
        action_weight(q[0]) + queue_weight(q.drop_first())
    }
}

/// A deferred unit of work. Running it consumes it and yields the plain
/// actions it wants dispatched; `spec_actions` pins those actions exactly.
pub trait Thunk<P>: Sized {
    /// The plain actions this work dispatches when executed.
    spec fn spec_actions(&self) -> Seq<P>;

    /// Execute the work, returning exactly the declared actions.
    fn run(self) -> (r: Vec<P>)
        ensures
            r@ == self.spec_actions(),
    ;
}

/// A pure transition function: the only way a store's state ever changes.
/// `spec_reduce` is the mathematical transition on state views; `reduce` is
/// its executable form. It is total: every state and action is accepted.
pub trait Reducer<S: View, P>: Sized {
    /// The next state's view, as a function of the current view and a plain
    /// action.
    spec fn spec_reduce(&self, s: <S as View>::V, p: P) -> <S as View>::V;

    /// Compute the next state.
    fn reduce(&self, s: &S, p: &P) -> (r: S)
        ensures
            r@ == self.spec_reduce(s@, *p),
    ;
}

/// An observer notified with the committed state after each transition. Its
/// abstract state is its [`View`]; `on_notify` says how an observation
/// changes it, and `follow` which actions the observer re-dispatches on that
/// observation. `budget` bounds the total work its re-dispatches can cause
/// over the observer's remaining lifetime.
pub trait Subscriber<S: View, P, T: Thunk<P>>: View + Sized {
    /// The observer's abstract state after it observes `s`.
    spec fn on_notify(v: <Self as View>::V, s: <S as View>::V) -> <Self as View>::V;

    /// The actions the observer re-dispatches when it observes `s`.
    spec fn follow(v: <Self as View>::V, s: <S as View>::V) -> Seq<Action<P, T>>;

    /// A bound on the dispatch work this observer may still inject.
    spec fn budget(v: <Self as View>::V) -> nat;

    /// Re-dispatched work is paid for out of the budget: what is injected
    /// now, plus the budget left afterwards, never exceeds the budget held
    /// before.
    proof fn budget_bound(v: <Self as View>::V, s: <S as View>::V)
        ensures
            queue_weight(Self::follow(v, s)) + Self::budget(Self::on_notify(v, s))
                <= Self::budget(v),
    ;

    /// Observe a committed state; returns the actions to re-dispatch.
    fn notify(&mut self, s: &S) -> (r: Vec<Action<P, T>>)
        ensures
            final(self)@ == Self::on_notify(old(self)@, s@),
            r@ == Self::follow(old(self)@, s@),
    ;
}

/// An interceptor in the dispatch pipeline. For each action it either hands
/// an action (possibly transformed) on to the next stage, or swallows it, in
/// which case no transition and no notification happen for that dispatch.
pub trait Middleware<P, T: Thunk<P>> {
    /// What this stage does with `a`: `Some(b)` forwards `b`, `None`
    /// swallows the action.
    spec fn spec_decide(&self, a: Action<P, T>) -> Option<Action<P, T>>;

    /// A transformed action never costs more than the action it replaces.
    proof fn decide_weight(&self, a: Action<P, T>)
        ensures
            (match self.spec_decide(a) {
                Some(b) => action_weight(b) <= action_weight(a),
                None => true,
            }),
    ;

    /// Apply this stage to one action.
    fn decide(&self, a: Action<P, T>) -> (r: Option<Action<P, T>>)
        ensures
            r == self.spec_decide(a),
    ;
}

/// Queue cost adds up over concatenation.
pub proof fn lemma_queue_weight_concat<P, T: Thunk<P>>(a: Seq<Action<P, T>>, b: Seq<Action<P, T>>)
    ensures
        queue_weight(a + b) == queue_weight(a) + queue_weight(b),
    decreases a.len(),
{
    if a.len() == 0 {
        assert(a + b =~= b);
    } else {
        assert((a + b).drop_first() =~= a.drop_first() + b);
        lemma_queue_weight_concat(a.drop_first(), b);
    }
}

/// A queue of plain actions costs exactly its length.
pub proof fn lemma_queue_weight_plain<P, T: Thunk<P>>(ps: Seq<P>)
    ensures
        queue_weight(ps.map_values(|p: P| Action::<P, T>::Plain(p))) == ps.len(),
    decreases ps.len(),
{
    let q = ps.map_values(|p: P| Action::<P, T>::Plain(p));
    if ps.len() == 0 {
        assert(q =~= Seq::<Action<P, T>>::empty());
    } else {
        assert(q.drop_first() =~= ps.drop_first().map_values(|p: P| Action::<P, T>::Plain(p)));
        lemma_queue_weight_plain::<P, T>(ps.drop_first());
    }
}

} // verus!
