//! A generic reactive state container.
//!
//! A [`store::Store`] owns a single state value and changes it only through a
//! pure transition function ([`api::Reducer`]). Every dispatched action runs
//! through an ordered chain of interceptors ([`api::Middleware`]), which may
//! pass it on, transform it, or swallow it; an action that survives the chain
//! is either applied to the state (a plain action) or executed as deferred
//! work ([`api::Thunk`]) whose resulting actions re-enter the dispatch queue.
//! After each committed transition every registered observer
//! ([`api::Subscriber`]) is notified, in registration order, and may itself
//! request further dispatches.
//!
//! The behaviour of one dispatch is a mathematical function, [`model::run`],
//! and the store's contracts equate the executable code with that model.
//! [`laws`] proves the container's global properties over the model.
//! [`redux`] is a concrete todo-list domain served by the container, and
//! [`counter`] a minimal counter domain.

pub mod api;
pub mod builtin;
pub mod counter;
pub mod laws;
pub mod model;
pub mod redux;
pub mod store;
