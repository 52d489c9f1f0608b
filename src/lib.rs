//! Iterators built from a stateful callback and a piece of state that the
//! callback receives by mutable reference on every pull.
//!
//! `ParamFromFnIter::new(data, callback)` wraps any state; `iter_map` wraps an
//! iterator as the state, so that the callback can advance it, skip items or
//! put new items of any type in between.
//!
//! A pull calls the callback exactly once and hands back what it returned.
//! The wrapper adds no filtering, no caching and no end condition of its own:
//! the sequence ends only when the callback says so, and what happens on a
//! pull after that is up to the callback.
//!
//! A pull asks of the callback only that it can be called on every state
//! (`accepts_all_states`): a closure without a `requires` always can.
pub mod param_iter;
pub mod into_iter_map;

pub use param_iter::ParamFromFnIter;
pub use param_iter::accepts_all_states;
pub use into_iter_map::IntoIterMap;
