//! The reducer: the pure function that computes the next state.

use vstd::prelude::*;

verus! {

/// A reducer computes the next state from the previous state and an action.
///
/// It is a pure function: `next` is its mathematical value, and `reduce`
/// computes exactly that value.
pub trait Reducer<S, A> {
    /// The state that follows `state` when `action` is applied.
    spec fn next(&self, state: S, action: A) -> S;

    /// Computes the state that follows `state` on `action`.
    fn reduce(&self, state: S, action: &A) -> (r: S)
        ensures
            r == self.next(state, *action),
    ;
}

/// The left fold of `reducer` over `actions`, starting from `state`:
/// the actions are applied one after the other, the first one first.
pub open spec fn fold_actions<S, A, R: Reducer<S, A>>(reducer: R, state: S, actions: Seq<A>) -> S
    decreases actions.len(),
{
    if actions.len() == 0 {
        state
    } else {
        reducer.next(fold_actions(reducer, state, actions.drop_last()), actions.last())
    }
}

} // verus!
