//! The todo domain: a concrete state, its actions, its transition function,
//! and a small single-domain store whose transition function and listeners
//! are arbitrary callables supplied by the application.

use vstd::prelude::*;

use crate::api::Reducer;

verus! {

/// Which todos a front end shows.
#[derive(Clone, Copy, PartialEq, Eq, Structural, Debug)]
pub enum VisibilityFilter {
    ShowActive,
    ShowAll,
    ShowCompleted,
}

/// One todo item. A removed item is only marked `deleted`, never dropped
/// from the list.
#[derive(Debug)]
pub struct Todo {
    pub id: i16,
    pub title: String,
    pub completed: bool,
    pub deleted: bool,
}

impl Clone for Todo {
    fn clone(&self) -> (r: Self)
        ensures
            r == *self,
    {
        Todo {
            id: self.id,
            title: self.title.clone(),
            completed: self.completed,
            deleted: self.deleted,
        }
    }
}

impl Todo {
    /// A fresh todo: not completed, not deleted.
    pub fn new(id: i16, title: String) -> (r: Todo)
        ensures
            r == (Todo { id, title, completed: false, deleted: false }),
    {
        Todo { id, title, completed: false, deleted: false }
    }
}

/// The whole todo application state.
#[derive(Debug)]
pub struct State {
    pub todos: Vec<Todo>,
    pub visibility_filter: VisibilityFilter,
}

/// The mathematical value of a [`State`].
#[verifier::ext_equal]
pub struct StateView {
    pub todos: Seq<Todo>,
    pub visibility_filter: VisibilityFilter,
}

impl View for State {
    type V = StateView;

    open spec fn view(&self) -> StateView {
        StateView { todos: self.todos@, visibility_filter: self.visibility_filter }
    }
}

impl Clone for State {
    fn clone(&self) -> (r: Self)
        ensures
            r@ == self@,
    {
        let todos = self.todos.clone();
        proof {
            assert(forall|i: int| 0 <= i < todos@.len() ==> todos@[i] == self.todos@[i]);
            assert(todos@ =~= self.todos@);
        }
        State { todos, visibility_filter: self.visibility_filter }
    }
}

impl State {
    /// The starting state: no todos, everything shown.
    pub fn with_defaults() -> (r: State)
        ensures
            r@ == (StateView {
                todos: Seq::empty(),
                visibility_filter: VisibilityFilter::ShowAll,
            }),
    {
        let r = State { todos: Vec::new(), visibility_filter: VisibilityFilter::ShowAll };
        proof {
            assert(r@ =~= (StateView {
                todos: Seq::empty(),
                visibility_filter: VisibilityFilter::ShowAll,
            }));
        }
        r
    }
}

/// What can happen to the todo list.
#[derive(Debug)]
pub enum TodoAction {
    Add(String),
    Toggle(i16),
    Remove(i16),
}

impl Clone for TodoAction {
    fn clone(&self) -> (r: Self)
        ensures
            r == *self,
    {
        match self {
            TodoAction::Add(title) => TodoAction::Add(title.clone()),
            TodoAction::Toggle(id) => TodoAction::Toggle(*id),
            TodoAction::Remove(id) => TodoAction::Remove(*id),
        }
    }
}

/// An action of the todo domain: a change to the list, or a change of the
/// visibility filter.
#[derive(Debug)]
pub enum Action {
    Todos(TodoAction),
    Visibility(VisibilityFilter),
}

impl Clone for Action {
    fn clone(&self) -> (r: Self)
        ensures
            r == *self,
    {
        match self {
            Action::Todos(ta) => Action::Todos(ta.clone()),
            Action::Visibility(f) => Action::Visibility(*f),
        }
    }
}

/// One todo under a toggle or remove action: only the todo with the matching
/// id changes; an unknown id changes nothing.
pub open spec fn reduce_todo(t: Todo, ta: TodoAction) -> Todo {
    match ta {
        TodoAction::Add(_) => t,
        TodoAction::Toggle(id) => if t.id == id {
            Todo { completed: !t.completed, ..t }
        } else {
            t
        },
        TodoAction::Remove(id) => if t.id == id {
            Todo { deleted: true, ..t }
        } else {
            t
        },
    }
}

/// The todo domain's transition function, as a mathematical value.
/// `Add` appends a fresh todo whose id is the new length of the list (so ids
/// count up from 1); once the ids would outgrow `i16` the state is returned
/// unchanged. `Toggle` and `Remove` touch exactly the todos with the given
/// id, and `Visibility` changes only the filter.
pub open spec fn reduce_spec(s: StateView, a: Action) -> StateView {
    match a {
        Action::Todos(TodoAction::Add(title)) => if s.todos.len() < i16::MAX as int {
            StateView {
                todos: s.todos.push(Todo {
                    id: (s.todos.len() + 1) as i16,
                    title,
                    completed: false,
                    deleted: false,
                }),
                ..s
            }
        } else {
            s
        },
        Action::Todos(ta) => StateView {
            todos: s.todos.map_values(|t: Todo| reduce_todo(t, ta)),
            ..s
        },
        Action::Visibility(f) => StateView { visibility_filter: f, ..s },
    }
}

/// Apply a toggle or remove action to every todo, keeping the order.
#[verifier::loop_isolation(false)]
fn map_todos(todos: Vec<Todo>, ta: &TodoAction) -> (r: Vec<Todo>)
    ensures
        r@ == todos@.map_values(|t: Todo| reduce_todo(t, *ta)),
{
    let ghost ts = todos@;
    let ghost f = |t: Todo| reduce_todo(t, *ta);
    let mut rest = todos;
    let mut out: Vec<Todo> = Vec::new();
    let ghost mut j: int = 0;
    proof {
        assert(out@ =~= ts.take(0).map_values(f));
    }
    while rest.len() > 0
        invariant
            j == ts.len() - rest@.len(),
            0 <= j <= ts.len(),
            rest@ == ts.skip(j),
            out@ == ts.take(j).map_values(f),
        decreases rest@.len(),
    {
        proof {
            assert(ts.skip(j)[0] == ts[j]);
        }
        let t = rest.remove(0);
        proof {
            assert(t == ts[j]);
        }
        match ta {
            TodoAction::Add(_) => {
                out.push(t);
            },
            TodoAction::Toggle(id) => {
                if t.id == *id {
                    out.push(Todo {
                        id: t.id,
                        title: t.title,
                        completed: !t.completed,
                        deleted: t.deleted,
                    });
                } else {
                    out.push(t);
                }
            },
            TodoAction::Remove(id) => {
                if t.id == *id {
                    out.push(Todo {
                        id: t.id,
                        title: t.title,
                        completed: t.completed,
                        deleted: true,
                    });
                } else {
                    out.push(t);
                }
            },
        }
        proof {
            assert(rest@ =~= ts.skip(j + 1));
            assert(ts.take(j + 1) =~= ts.take(j).push(ts[j]));
            assert(ts.take(j + 1).map_values(f) =~= ts.take(j).map_values(f).push(f(ts[j])));
            assert(out@ =~= ts.take(j + 1).map_values(f));
            j = j + 1;
        }
    }
    proof {
        assert(ts.take(j) =~= ts);
    }
    out
}

/// The todo domain's transition function: pure and total, implementing
/// [`reduce_spec`] exactly.
pub fn reducer(state: State, action: Action) -> (r: State)
    ensures
        r@ == reduce_spec(state@, action),
{
    let ghost s0 = state@;
    let ghost a0 = action;
    match action {
        Action::Todos(ta) => {
            match ta {
                TodoAction::Add(title) => {
                    let State { todos, visibility_filter } = state;
                    let mut todos = todos;
                    if todos.len() < (i16::MAX as usize) {
                        let id = (todos.len() + 1) as i16;
                        todos.push(Todo::new(id, title));
                        let r = State { todos, visibility_filter };
                        proof {
                            assert(r@ =~= reduce_spec(s0, a0));
                        }
                        r
                    } else {
                        let r = State { todos, visibility_filter };
                        proof {
                            assert(r@ =~= reduce_spec(s0, a0));
                        }
                        r
                    }
                },
                other => {
                    let State { todos, visibility_filter } = state;
                    let mapped = map_todos(todos, &other);
                    let r = State { todos: mapped, visibility_filter };
                    proof {
                        assert(r@ =~= reduce_spec(s0, a0));
                    }
                    r
                },
            }
        },
        Action::Visibility(f) => {
            let r = State { todos: state.todos, visibility_filter: f };
            proof {
                assert(r@ =~= reduce_spec(s0, a0));
            }
            r
        },
    }
}

/// What a store driven by [`reducer`] installs is pinned exactly: any result
/// the function may return for a state and an action has the view
/// [`reduce_spec`] gives. Together with `Store::dispatch`'s contract this
/// determines the state after every dispatch.
pub proof fn lemma_reducer_pins_result(s1: State, a: Action, s2: State)
    requires
        call_ensures(reducer, (s1, a), s2),
    ensures
        s2@ == reduce_spec(s1@, a),
{
}

/// The todo transition function packaged as a store capability, for use with
/// the generic container.
pub struct TodoReducer;

impl Reducer<State, Action> for TodoReducer {
    open spec fn spec_reduce(&self, s: StateView, a: Action) -> StateView {
        reduce_spec(s, a)
    }

    fn reduce(&self, s: &State, a: &Action) -> (r: State) {
        reducer(s.clone(), a.clone())
    }
}

/// A single-domain store over the todo state. The transition function and
/// the listeners are arbitrary callables; the store demands only that they
/// accept every state, and promises that each dispatch installs a result of
/// the transition function and leaves the registered listeners as they were.
pub struct Store<F, L> {
    state: State,
    listeners: Vec<L>,
    reducer: F,
}

impl<F: Fn(State, Action) -> State, L: Fn(State)> Store<F, L> {
    /// The transition function accepts every state and action, and every
    /// listener accepts every state.
    pub closed spec fn wf(&self) -> bool {
        &&& forall|s: State, a: Action| #[trigger] call_requires(self.reducer, (s, a))
        &&& forall|i: int, s: State|
            0 <= i < self.listeners@.len() ==> #[trigger] call_requires(
                self.listeners@[i],
                (s,),
            )
    }

    /// The current state value.
    pub closed spec fn current_state(&self) -> State {
        self.state
    }

    /// The registered listeners, in registration order.
    pub closed spec fn spec_listeners(&self) -> Seq<L> {
        self.listeners@
    }

    /// The transition function.
    pub closed spec fn spec_reducer(&self) -> F {
        self.reducer
    }

    /// A store holding the default state, no listeners, and the given
    /// transition function.
    pub fn create_store(reducer: F) -> (r: Store<F, L>)
        requires
            forall|s: State, a: Action| #[trigger] call_requires(reducer, (s, a)),
        ensures
            r.wf(),
            r.current_state()@ == (StateView {
                todos: Seq::empty(),
                visibility_filter: VisibilityFilter::ShowAll,
            }),
            r.spec_listeners() == Seq::<L>::empty(),
            r.spec_reducer() == reducer,
    {
        Store { state: State::with_defaults(), listeners: Vec::new(), reducer }
    }

    /// Register one listener; listeners run after each dispatch, in
    /// registration order.
    pub fn subscribe(&mut self, listener: L)
        requires
            old(self).wf(),
            forall|s: State| #[trigger] call_requires(listener, (s,)),
        ensures
            final(self).wf(),
            final(self).spec_listeners() == old(self).spec_listeners().push(listener),
            final(self).current_state() == old(self).current_state(),
            final(self).spec_reducer() == old(self).spec_reducer(),
    {
        self.listeners.push(listener);
    }

    /// A snapshot of the current state.
    pub fn get_state(&self) -> (r: State)
        ensures
            r@ == self.current_state()@,
    {
        self.state.clone()
    }

    /// Apply the transition function to the current state and the action,
    /// install the result, then hand every listener a snapshot of the new
    /// state, in registration order.
    pub fn dispatch(&mut self, action: Action)
        requires
            old(self).wf(),
        ensures
            final(self).wf(),
            call_ensures(
                old(self).spec_reducer(),
                (old(self).current_state(), action),
                final(self).current_state(),
            ),
            final(self).spec_listeners() == old(self).spec_listeners(),
            final(self).spec_reducer() == old(self).spec_reducer(),
    {
        let mut held = State::with_defaults();
        core::mem::swap(&mut held, &mut self.state);
        self.state = (self.reducer)(held, action);
        let ghost l0 = self.listeners@;
        let ghost s1 = self.state;
        let mut done: Vec<L> = Vec::new();
        proof {
            assert(done@ + self.listeners@ =~= l0);
        }
        while self.listeners.len() > 0
            invariant
                forall|i: int, s: State|
                    0 <= i < l0.len() ==> #[trigger] call_requires(l0[i], (s,)),
                done@ + self.listeners@ == l0,
                self.state == s1,
                self.reducer == old(self).spec_reducer(),
            decreases self.listeners@.len(),
        {
            proof {
                assert(l0[done@.len() as int] == (done@ + self.listeners@)[done@.len() as int]);
            }
            let l = self.listeners.remove(0);
            let snapshot = self.state.clone();
            l(snapshot);
            done.push(l);
            proof {
                assert(done@ + self.listeners@ =~= l0);
            }
        }
        self.listeners = done;
        proof {
            assert(self.listeners@ =~= l0);
        }
    }
}

} // verus!
