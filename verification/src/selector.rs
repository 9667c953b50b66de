//! The selector: the pure function that reads a value off the state.

use vstd::prelude::*;

verus! {

/// A selector derives a value from the state without changing it.
///
/// It is a pure function: `pick` is its mathematical value, and `select`
/// computes exactly that value.
pub trait Selector<S> {
    /// What the selector hands back.
    type Result;

    /// The value that the selector derives from `state`.
    spec fn pick(&self, state: S) -> Self::Result;

    /// Computes the value that the selector derives from `state`.
    fn select(&self, state: &S) -> (r: Self::Result)
        ensures
            r == self.pick(*state),
    ;
}

} // verus!
