//! The store: the single owner of the state and of the subscriber list.

use vstd::prelude::*;
use vstd::pervasive::cloned;
use std::marker::PhantomData;
use crate::reducer::{Reducer, fold_actions};
use crate::selector::Selector;
use crate::subscriber::{Subscriber, notified_of_all, notify_each};

verus! {

/// One call of a subscriber: which subscriber was told, by its place in the
/// order of registration, and of which state.
pub struct Notice<S> {
    pub subscriber: int,
    pub state: S,
}

/// What a store holds at one instant: the state, the subscribers in the
/// order in which they were registered, and the record of every call of a
/// subscriber so far, in the order in which the calls were made.
pub struct Snapshot<S, L> {
    pub state: S,
    pub subscribers: Seq<L>,
    pub notices: Seq<Notice<S>>,
}

/// The calls of one dispatch: each of `count` subscribers is told of `state`
/// once, in the order of registration.
pub open spec fn round<S>(count: nat, state: S) -> Seq<Notice<S>> {
    Seq::new(count, |i: int| Notice { subscriber: i, state })
}

/// The calls of one dispatch after the other: a round of `count` subscribers
/// for each state of `states`, the first state first.
pub open spec fn rounds<S>(count: nat, states: Seq<S>) -> Seq<Notice<S>>
    decreases states.len(),
{
    if states.len() == 0 {
        Seq::empty()
    } else {
        rounds(count, states.drop_last()) + round(count, states.last())
    }
}

/// A request to the store.
pub enum Message<A, Sel, L> {
    /// Apply the reducer to the state and `action`, then tell every subscriber.
    Dispatch { action: A },
    /// Read a value off the state.
    Select { selector: Sel },
    /// Append `subscriber` to the subscriber list.
    Subscribe { subscriber: L },
}

/// What the store answers to a request.
pub enum Reply<T> {
    /// The request is complete; it carries no value.
    Done,
    /// The value that a selector derived from the state.
    Value(T),
}

/// The snapshot that follows `before` when `action` is dispatched: the
/// reducer gives the new state, and every subscriber is told of it once, in
/// the order of registration.
pub open spec fn dispatched<S, A, R: Reducer<S, A>, L: Subscriber<S>>(
    reducer: R,
    before: Snapshot<S, L>,
    action: A,
) -> Snapshot<S, L> {
    let state = reducer.next(before.state, action);
    Snapshot {
        state,
        subscribers: notify_each(before.subscribers, state),
        notices: before.notices + round(before.subscribers.len(), state),
    }
}

/// The snapshot that follows `before` when `subscriber` is registered.
pub open spec fn subscribed<S, L>(before: Snapshot<S, L>, subscriber: L) -> Snapshot<S, L> {
    Snapshot {
        state: before.state,
        subscribers: before.subscribers.push(subscriber),
        notices: before.notices,
    }
}

/// The snapshot that follows `before` when `message` is handled.
pub open spec fn delivered<S, A, R: Reducer<S, A>, Sel, L: Subscriber<S>>(
    reducer: R,
    before: Snapshot<S, L>,
    message: Message<A, Sel, L>,
) -> Snapshot<S, L> {
    match message {
        Message::Dispatch { action } => dispatched(reducer, before, action),
        Message::Select { selector } => before,
        Message::Subscribe { subscriber } => subscribed(before, subscriber),
    }
}

/// The reply that a store holding `before` gives to `message`.
pub open spec fn answered<S, A, Sel: Selector<S>, L>(
    before: Snapshot<S, L>,
    message: Message<A, Sel, L>,
) -> Reply<Sel::Result> {
    match message {
        Message::Dispatch { action } => Reply::Done,
        Message::Select { selector } => Reply::Value(selector.pick(before.state)),
        Message::Subscribe { subscriber } => Reply::Done,
    }
}

/// The snapshot that follows `start` when `actions` are dispatched one after
/// the other, the first one first, to a store that moves by `rules`.
pub open spec fn run<S, A, L>(
    rules: spec_fn(Snapshot<S, L>, A) -> Snapshot<S, L>,
    start: Snapshot<S, L>,
    actions: Seq<A>,
) -> Snapshot<S, L>
    decreases actions.len(),
{
    if actions.len() == 0 {
        start
    } else {
        rules(run(rules, start, actions.drop_last()), actions.last())
    }
}

/// How a store with the reducer `reducer` moves on a dispatched action.
pub open spec fn store_rules<S, A, R: Reducer<S, A>, L: Subscriber<S>>(reducer: R) -> spec_fn(
    Snapshot<S, L>,
    A,
) -> Snapshot<S, L> {
    |before: Snapshot<S, L>, action: A| dispatched(reducer, before, action)
}

/// The snapshot that follows `start` when `messages` are handled one after
/// the other, the first one first.
pub open spec fn delivered_all<S, A, R: Reducer<S, A>, Sel, L: Subscriber<S>>(
    reducer: R,
    start: Snapshot<S, L>,
    messages: Seq<Message<A, Sel, L>>,
) -> Snapshot<S, L>
    decreases messages.len(),
{
    if messages.len() == 0 {
        start
    } else {
        delivered(reducer, delivered_all(reducer, start, messages.drop_last()), messages.last())
    }
}

/// The actions that `messages` dispatch, in the order of the messages.
pub open spec fn dispatched_actions<A, Sel, L>(messages: Seq<Message<A, Sel, L>>) -> Seq<A>
    decreases messages.len(),
{
    if messages.len() == 0 {
        Seq::empty()
    } else {
        match messages.last() {
            Message::Dispatch { action } => dispatched_actions(messages.drop_last()).push(action),
            _ => dispatched_actions(messages.drop_last()),
        }
    }
}

/// The state after each action of `actions` in turn, when they are applied
/// one after the other from `state`: as many states as there are actions.
pub open spec fn states_after<S, A, R: Reducer<S, A>>(reducer: R, state: S, actions: Seq<A>) -> Seq<S>
    decreases actions.len(),
{
    if actions.len() == 0 {
        Seq::empty()
    } else {
        states_after(reducer, state, actions.drop_last()).push(
            fold_actions(reducer, state, actions),
        )
    }
}

/// The store holds the state of the application.
///
/// The state changes only when an action is dispatched, and then only to what
/// the reducer computes. Subscribers are told of every new state, and
/// selectors read from the state without changing it.
pub struct Store<S, A, R, L> {
    reducer: R,
    state: Option<S>,
    subscribers: Vec<L>,
    notices: Ghost<Seq<Notice<S>>>,
    _action: PhantomData<A>,
}

impl<S, A, R, L> View for Store<S, A, R, L> {
    type V = Snapshot<S, L>;

    closed spec fn view(&self) -> Snapshot<S, L> {
        Snapshot {
            state: self.state->Some_0,
            subscribers: self.subscribers@,
            notices: self.notices@,
        }
    }
}

impl<S, A, R, L> Store<S, A, R, L> {
    /// Whether the store holds a state. Every constructor establishes
    /// this, and every method keeps it.
    pub closed spec fn wf(&self) -> bool {
        self.state is Some
    }

    /// The reducer that the store was made with.
    pub closed spec fn root_reducer(&self) -> R {
        self.reducer
    }
}

impl<S, A, R: Reducer<S, A>, L: Subscriber<S>> Store<S, A, R, L> {
    /// Creates a store with the given reducer and the default state.
    pub fn new(root_reducer: R) -> (store: Self) where S: Default
        ensures
            store.wf(),
            store.root_reducer() == root_reducer,
            call_ensures(S::default, (), store@.state),
            store@.subscribers == Seq::<L>::empty(),
            store@.notices == Seq::<Notice<S>>::empty(),
    {
        Self::new_with_state(root_reducer, S::default())
    }

    /// Creates a store with the given reducer and the given state.
    pub fn new_with_state(root_reducer: R, state: S) -> (store: Self)
        ensures
            store.wf(),
            store.root_reducer() == root_reducer,
            store@.state == state,
            store@.subscribers == Seq::<L>::empty(),
            store@.notices == Seq::<Notice<S>>::empty(),
    {
        Store {
            reducer: root_reducer,
            state: Some(state),
            subscribers: Vec::new(),
            notices: Ghost(Seq::empty()),
            _action: PhantomData,
        }
    }

    /// The state as it is now.
    pub fn state(&self) -> (state: &S)
        requires
            self.wf(),
        ensures
            *state == self@.state,
    {
        self.state.as_ref().unwrap()
    }

    /// Dispatches an action: the reducer computes the new state from the
    /// old one and the action, the new state replaces the old one, and then
    /// every subscriber is told of the new state, in the order of
    /// registration.
    pub fn dispatch(&mut self, action: A)
        requires
            old(self).wf(),
        ensures
            final(self).wf(),
            final(self)@ == dispatched(old(self).root_reducer(), old(self)@, action),
            final(self).root_reducer() == old(self).root_reducer(),
    {
        let before = self.state.take().unwrap();
        let after = self.reducer.reduce(before, &action);
        let n: usize = self.subscribers.len();
        let mut i: usize = 0;
        assert(old(self).notices@ + round(0, after) =~= old(self).notices@);
        while i < n
            invariant
                i <= n,
                n == self.subscribers@.len(),
                n == old(self).subscribers@.len(),
                self.reducer == old(self).reducer,
                self.state is None,
                self.notices@ == old(self).notices@ + round(i as nat, after),
                forall|j: int|
                    0 <= j < i ==> self.subscribers@[j] == old(self).subscribers@[j].notified(
                        after,
                    ),
                forall|j: int| i <= j < n ==> self.subscribers@[j] == old(self).subscribers@[j],
            decreases n - i,
        {
            self.subscribers[i].notify(&after);
            proof {
                let told = Notice { subscriber: i as int, state: after };
                assert(round((i + 1) as nat, after) =~= round(i as nat, after).push(told));
                self.notices@ = self.notices@.push(told);
            }
            i = i + 1;
        }
        self.state = Some(after);
        assert(self@.subscribers =~= notify_each(old(self)@.subscribers, after));
    }

    /// Reads a value off the state. The state is left as it is.
    pub fn select<Sel: Selector<S>>(&self, selector: Sel) -> (r: Sel::Result)
        requires
            self.wf(),
        ensures
            r == selector.pick(self@.state),
    {
        selector.select(self.state.as_ref().unwrap())
    }

    /// A clone of the whole state. Where only a part of the state is
    /// needed, `select` avoids the copy.
    pub fn state_cloned(&self) -> (r: S) where S: Clone
        requires
            self.wf(),
        ensures
            cloned(self@.state, r),
    {
        self.state.as_ref().unwrap().clone()
    }

    /// Registers a subscriber behind those already registered. It is told
    /// of every state that a later dispatch produces.
    pub fn subscribe(&mut self, subscriber: L)
        requires
            old(self).wf(),
        ensures
            final(self).wf(),
            final(self)@ == subscribed(old(self)@, subscriber),
            final(self).root_reducer() == old(self).root_reducer(),
    {
        self.subscribers.push(subscriber);
        assert(self@.subscribers =~= old(self)@.subscribers.push(subscriber));
    }

    /// Handles one request to completion and gives the reply to it.
    pub fn handle<Sel: Selector<S>>(&mut self, message: Message<A, Sel, L>) -> (reply: Reply<
        Sel::Result,
    >)
        requires
            old(self).wf(),
        ensures
            final(self).wf(),
            final(self)@ == delivered(old(self).root_reducer(), old(self)@, message),
            reply == answered(old(self)@, message),
            final(self).root_reducer() == old(self).root_reducer(),
    {
        match message {
            Message::Dispatch { action } => {
                self.dispatch(action);
                Reply::Done
            },
            Message::Select { selector } => Reply::Value(self.select(selector)),
            Message::Subscribe { subscriber } => {
                self.subscribe(subscriber);
                Reply::Done
            },
        }
    }

    /// Handles the queued messages one at a time, the first one first, each
    /// to completion before the next, and gives the replies in the same
    /// order.
    pub fn handle_all<Sel: Selector<S>>(&mut self, messages: Vec<Message<A, Sel, L>>) -> (replies:
        Vec<Reply<Sel::Result>>)
        requires
            old(self).wf(),
        ensures
            final(self).wf(),
            final(self)@ == delivered_all(old(self).root_reducer(), old(self)@, messages@),
            replies@.len() == messages@.len(),
            forall|k: int|
                0 <= k < messages@.len() ==> #[trigger] replies@[k] == answered(
                    delivered_all(old(self).root_reducer(), old(self)@, messages@.take(k)),
                    messages@[k],
                ),
            final(self).root_reducer() == old(self).root_reducer(),
    {
        let ghost queue = messages@;
        let ghost reducer = self.root_reducer();
        let ghost start = self@;
        let mut replies: Vec<Reply<Sel::Result>> = Vec::new();
        assert(queue.take(0) =~= Seq::empty());
        for message in iter: messages
            invariant
                iter.seq() == queue,
                self.wf(),
                self.root_reducer() == reducer,
                self@ == delivered_all(reducer, start, queue.take(iter.index() as int)),
                replies@.len() == iter.index(),
                forall|k: int|
                    0 <= k < iter.index() ==> #[trigger] replies@[k] == answered(
                        delivered_all(reducer, start, queue.take(k)),
                        queue[k],
                    ),
        {
            let ghost done = iter.index() as int;
            assert(queue.take(done + 1).drop_last() =~= queue.take(done));
            let reply = self.handle(message);
            replies.push(reply);
        }
        assert(queue.take(queue.len() as int) =~= queue);
        replies
    }
}

/// Actions dispatched one after the other leave the state that the left
/// fold of the reducer over them gives, whatever subscribers are registered.
pub proof fn dispatches_fold_left<S, A, R: Reducer<S, A>, L: Subscriber<S>>(
    reducer: R,
    start: Snapshot<S, L>,
    actions: Seq<A>,
)
    ensures
        run(store_rules(reducer), start, actions).state == fold_actions(
            reducer,
            start.state,
            actions,
        ),
    decreases actions.len(),
{
    if actions.len() > 0 {
        dispatches_fold_left(reducer, start, actions.drop_last());
    }
}

/// Whatever messages are handled, the state depends on the dispatched
/// actions alone: it is the left fold of the reducer over them, in the
/// order in which they were queued.
pub proof fn state_follows_dispatches_alone<S, A, R: Reducer<S, A>, Sel, L: Subscriber<S>>(
    reducer: R,
    start: Snapshot<S, L>,
    messages: Seq<Message<A, Sel, L>>,
)
    ensures
        delivered_all(reducer, start, messages).state == fold_actions(
            reducer,
            start.state,
            dispatched_actions(messages),
        ),
    decreases messages.len(),
{
    if messages.len() > 0 {
        state_follows_dispatches_alone(reducer, start, messages.drop_last());
        let earlier = dispatched_actions(messages.drop_last());
        match messages.last() {
            Message::Dispatch { action } => {
                assert(earlier.push(action).drop_last() =~= earlier);
            },
            _ => {},
        }
    }
}

/// `states_after` holds one state for each action, and the state at place
/// `k` is the left fold of the reducer over the first `k + 1` actions.
pub proof fn states_after_are_folds<S, A, R: Reducer<S, A>>(reducer: R, state: S, actions: Seq<A>)
    ensures
        states_after(reducer, state, actions).len() == actions.len(),
        forall|k: int|
            0 <= k < actions.len() ==> #[trigger] states_after(reducer, state, actions)[k]
                == fold_actions(reducer, state, actions.take(k + 1)),
    decreases actions.len(),
{
    if actions.len() > 0 {
        let shorter = actions.drop_last();
        states_after_are_folds(reducer, state, shorter);
        assert forall|k: int| 0 <= k < actions.len() implies #[trigger] states_after(
            reducer,
            state,
            actions,
        )[k] == fold_actions(reducer, state, actions.take(k + 1)) by {
            if k < shorter.len() {
                assert(shorter.take(k + 1) =~= actions.take(k + 1));
            } else {
                assert(actions.take(k + 1) =~= actions);
            }
        }
    }
}

/// A select that follows a dispatch reads the state that this dispatch
/// produced: the reducer applied once to the state before and the action.
pub proof fn select_sees_the_dispatch<S, A, R: Reducer<S, A>, Sel: Selector<S>, L: Subscriber<S>>(
    reducer: R,
    before: Snapshot<S, L>,
    action: A,
    selector: Sel,
)
    ensures
        answered(
            delivered(reducer, before, Message::<A, Sel, L>::Dispatch { action }),
            Message::<A, Sel, L>::Select { selector },
        ) == Reply::Value(selector.pick(reducer.next(before.state, action))),
{
}

/// Over any number of dispatches no subscriber comes or goes or changes
/// its place, and each one has been told of the state after every dispatch,
/// once each and in the order of the dispatches. The calls made are one
/// round for each dispatch, and within a round the subscribers are called in
/// the order of registration.
pub proof fn subscribers_see_every_dispatch<S, A, R: Reducer<S, A>, L: Subscriber<S>>(
    reducer: R,
    start: Snapshot<S, L>,
    actions: Seq<A>,
)
    ensures
        run(store_rules(reducer), start, actions).subscribers.len() == start.subscribers.len(),
        forall|i: int|
            0 <= i < start.subscribers.len() ==> #[trigger] run(
                store_rules(reducer),
                start,
                actions,
            ).subscribers[i] == notified_of_all(
                start.subscribers[i],
                states_after(reducer, start.state, actions),
            ),
        run(store_rules(reducer), start, actions).notices == start.notices + rounds(
            start.subscribers.len(),
            states_after(reducer, start.state, actions),
        ),
    decreases actions.len(),
{
    if actions.len() > 0 {
        let shorter = actions.drop_last();
        subscribers_see_every_dispatch(reducer, start, shorter);
        dispatches_fold_left(reducer, start, shorter);
        dispatches_fold_left(reducer, start, actions);
        let count = start.subscribers.len();
        let earlier = states_after(reducer, start.state, shorter);
        let latest = fold_actions(reducer, start.state, actions);
        assert(earlier.push(latest).drop_last() =~= earlier);
        assert(start.notices + (rounds(count, earlier) + round(count, latest)) =~= (start.notices
            + rounds(count, earlier)) + round(count, latest));
    } else {
        assert(start.notices + Seq::<Notice<S>>::empty() =~= start.notices);
    }
}

/// Messages that dispatch nothing leave the state as it is, so a select
/// gives the same reply after them as before them: in particular the same
/// select, repeated, gives the same reply.
pub proof fn select_is_repeatable<S, A, R: Reducer<S, A>, Sel: Selector<S>, L: Subscriber<S>>(
    reducer: R,
    before: Snapshot<S, L>,
    between: Seq<Message<A, Sel, L>>,
    selector: Sel,
)
    requires
        forall|k: int| 0 <= k < between.len() ==> !(#[trigger] between[k] is Dispatch),
    ensures
        delivered_all(reducer, before, between).state == before.state,
        answered(
            delivered_all(reducer, before, between),
            Message::<A, Sel, L>::Select { selector },
        ) == answered(before, Message::<A, Sel, L>::Select { selector }),
    decreases between.len(),
{
    if between.len() > 0 {
        select_is_repeatable(reducer, before, between.drop_last(), selector);
    }
}

} // verus!
