//! The subscriber: the callback that is told of every new state.

use vstd::prelude::*;

verus! {

/// A subscriber is told of the state after every dispatched action.
///
/// Whatever a subscriber does with a state is modelled as a change of the
/// subscriber's own value: `notified` says what the subscriber is after it
/// has been told of a state, and `notify` performs exactly that change.
pub trait Subscriber<S>: Sized {
    /// The subscriber after it has been told of `state`.
    spec fn notified(self, state: S) -> Self;

    /// Tells the subscriber of `state`.
    fn notify(&mut self, state: &S)
        ensures
            *final(self) == old(self).notified(*state),
    ;
}

/// Every subscriber of `subscribers`, each told once of `state`.
pub open spec fn notify_each<S, L: Subscriber<S>>(subscribers: Seq<L>, state: S) -> Seq<L> {
    Seq::new(subscribers.len(), |i: int| subscribers[i].notified(state))
}

/// The subscriber after it has been told of each state of `states`, the
/// first one first.
pub open spec fn notified_of_all<S, L: Subscriber<S>>(subscriber: L, states: Seq<S>) -> L
    decreases states.len(),
{
    if states.len() == 0 {
        subscriber
    } else {
        notified_of_all(subscriber, states.drop_last()).notified(states.last())
    }
}

} // verus!
