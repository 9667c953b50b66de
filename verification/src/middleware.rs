//! Middleware: layers around a store that see every action before the store
//! does, and decide what reaches it.

use vstd::prelude::*;
use vstd::pervasive::cloned;
use std::marker::PhantomData;
use crate::reducer::Reducer;
use crate::selector::Selector;
use crate::store::{Snapshot, Store, run, store_rules, subscribed};
use crate::subscriber::Subscriber;

verus! {

/// What a store, bare or wrapped in middleware, offers to its callers.
///
/// `snapshot` is what the store holds; `rules` is how a dispatched action
/// changes it, which no operation ever alters.
pub trait StoreApi<S, A, L> {
    /// Whether the store is fit for use. Every operation keeps it so.
    spec fn valid(&self) -> bool;

    /// What the store holds: the state, the subscribers and the record of
    /// the calls made to them.
    spec fn snapshot(&self) -> Snapshot<S, L>;

    /// The snapshot that follows a given one when a given action is
    /// dispatched.
    spec fn rules(&self) -> spec_fn(Snapshot<S, L>, A) -> Snapshot<S, L>;

    /// Dispatches an action.
    fn dispatch(&mut self, action: A)
        requires
            old(self).valid(),
        ensures
            final(self).valid(),
            final(self).snapshot() == (old(self).rules())(old(self).snapshot(), action),
            final(self).rules() == old(self).rules(),
    ;

    /// Reads a value off the state.
    fn select<Sel: Selector<S>>(&self, selector: Sel) -> (r: Sel::Result)
        requires
            self.valid(),
        ensures
            r == selector.pick(self.snapshot().state),
    ;

    /// A clone of the whole state.
    fn state_cloned(&self) -> (r: S) where S: Clone
        requires
            self.valid(),
        ensures
            cloned(self.snapshot().state, r),
    ;

    /// Registers a subscriber behind those already registered.
    fn subscribe(&mut self, subscriber: L)
        requires
            old(self).valid(),
        ensures
            final(self).valid(),
            final(self).snapshot() == subscribed(old(self).snapshot(), subscriber),
            final(self).rules() == old(self).rules(),
    ;
}

/// A middleware stands between the caller and an inner store. It takes
/// actions of its own, outer, type and decides which inner actions reach the
/// store: none, one or many.
pub trait MiddleWare<S, OuterAction, Inner, InnerAction, L> where Inner: StoreApi<S, InnerAction, L> {
    /// The inner actions, in order, that the middleware forwards when
    /// `action` arrives while the inner store holds `state`.
    spec fn forwards(&self, state: S, action: OuterAction) -> Seq<InnerAction>;

    /// Takes an outer action and dispatches to `inner` what `forwards`
    /// says, in that order, and nothing else.
    fn dispatch(&self, action: OuterAction, inner: &mut Inner)
        requires
            old(inner).valid(),
        ensures
            final(inner).valid(),
            final(inner).snapshot() == run(
                old(inner).rules(),
                old(inner).snapshot(),
                self.forwards(old(inner).snapshot().state, action),
            ),
            final(inner).rules() == old(inner).rules(),
    ;
}

/// A store wrapped in one layer of middleware. It offers what the inner
/// store offers, for the middleware's outer action type.
pub struct StoreWithMiddleware<Inner, M, S, InnerAction, OuterAction, L> {
    inner: Inner,
    middleware: M,
    _types: PhantomData<(S, InnerAction, OuterAction, L)>,
}

impl<Inner, M, S, InnerAction, OuterAction, L> StoreWithMiddleware<
    Inner,
    M,
    S,
    InnerAction,
    OuterAction,
    L,
> {
    /// The store that the middleware wraps.
    pub closed spec fn inner_store(&self) -> Inner {
        self.inner
    }

    /// The middleware that wraps the store.
    pub closed spec fn layer(&self) -> M {
        self.middleware
    }
}

/// The snapshot that follows `before` when `action` is dispatched to a
/// layer of `middleware` around a store that moves by `inner_rules`: the
/// inner store is handed whatever the middleware forwards.
pub open spec fn layered<S, OuterAction, Inner, InnerAction, L, M>(
    middleware: M,
    inner_rules: spec_fn(Snapshot<S, L>, InnerAction) -> Snapshot<S, L>,
    before: Snapshot<S, L>,
    action: OuterAction,
) -> Snapshot<S, L> where
    Inner: StoreApi<S, InnerAction, L>,
    M: MiddleWare<S, OuterAction, Inner, InnerAction, L>,
{
    run(inner_rules, before, middleware.forwards(before.state, action))
}

impl<Inner, M, S, InnerAction, OuterAction, L> StoreWithMiddleware<
    Inner,
    M,
    S,
    InnerAction,
    OuterAction,
    L,
> where Inner: StoreApi<S, InnerAction, L>, M: MiddleWare<S, OuterAction, Inner, InnerAction, L> {
    /// Wraps `inner` in `middleware`.
    pub fn new(inner: Inner, middleware: M) -> (store: Self)
        ensures
            store.inner_store() == inner,
            store.layer() == middleware,
    {
        StoreWithMiddleware { inner, middleware, _types: PhantomData }
    }

    /// Wraps this store in one more layer, which becomes the outermost.
    pub fn wrap<N, Outermost>(self, middleware: N) -> (store: StoreWithMiddleware<
        Self,
        N,
        S,
        OuterAction,
        Outermost,
        L,
    >) where N: MiddleWare<S, Outermost, Self, OuterAction, L>
        ensures
            store.inner_store() == self,
            store.layer() == middleware,
    {
        StoreWithMiddleware::new(self, middleware)
    }
}

impl<Inner, M, S, InnerAction, OuterAction, L> StoreApi<S, OuterAction, L> for StoreWithMiddleware<
    Inner,
    M,
    S,
    InnerAction,
    OuterAction,
    L,
> where Inner: StoreApi<S, InnerAction, L>, M: MiddleWare<S, OuterAction, Inner, InnerAction, L> {
    open spec fn valid(&self) -> bool {
        self.inner_store().valid()
    }

    open spec fn snapshot(&self) -> Snapshot<S, L> {
        self.inner_store().snapshot()
    }

    open spec fn rules(&self) -> spec_fn(Snapshot<S, L>, OuterAction) -> Snapshot<S, L> {
        |before: Snapshot<S, L>, action: OuterAction|
            layered(self.layer(), self.inner_store().rules(), before, action)
    }

    fn dispatch(&mut self, action: OuterAction) {
        self.middleware.dispatch(action, &mut self.inner);
        assert(self.rules() =~= old(self).rules());
    }

    fn select<Sel: Selector<S>>(&self, selector: Sel) -> (r: Sel::Result) {
        self.inner.select(selector)
    }

    fn state_cloned(&self) -> (r: S) where S: Clone {
        self.inner.state_cloned()
    }

    fn subscribe(&mut self, subscriber: L) {
        self.inner.subscribe(subscriber);
        assert(self.rules() =~= old(self).rules());
    }
}

impl<S, A, R: Reducer<S, A>, L: Subscriber<S>> StoreApi<S, A, L> for Store<S, A, R, L> {
    open spec fn valid(&self) -> bool {
        self.wf()
    }

    open spec fn snapshot(&self) -> Snapshot<S, L> {
        self@
    }

    open spec fn rules(&self) -> spec_fn(Snapshot<S, L>, A) -> Snapshot<S, L> {
        store_rules(self.root_reducer())
    }

    fn dispatch(&mut self, action: A) {
        Store::dispatch(self, action);
    }

    fn select<Sel: Selector<S>>(&self, selector: Sel) -> (r: Sel::Result) {
        Store::select(self, selector)
    }

    fn state_cloned(&self) -> (r: S) where S: Clone {
        Store::state_cloned(self)
    }

    fn subscribe(&mut self, subscriber: L) {
        Store::subscribe(self, subscriber);
    }
}

impl<S, A, R: Reducer<S, A>, L: Subscriber<S>> Store<S, A, R, L> {
    /// Wraps the store in a layer of middleware. The result takes the
    /// middleware's outer actions in place of the store's own.
    pub fn wrap<M, OuterAction>(self, middleware: M) -> (store: StoreWithMiddleware<
        Self,
        M,
        S,
        A,
        OuterAction,
        L,
    >) where M: MiddleWare<S, OuterAction, Self, A, L>
        ensures
            store.inner_store() == self,
            store.layer() == middleware,
    {
        StoreWithMiddleware::new(self, middleware)
    }
}

/// A middleware that forwards nothing leaves the inner store as it was,
/// whatever outer actions are dispatched: neither the state nor any
/// subscriber changes.
pub proof fn silent_middleware_changes_nothing<Inner, M, S, InnerAction, OuterAction, L>(
    store: StoreWithMiddleware<Inner, M, S, InnerAction, OuterAction, L>,
    start: Snapshot<S, L>,
    actions: Seq<OuterAction>,
) where Inner: StoreApi<S, InnerAction, L>, M: MiddleWare<S, OuterAction, Inner, InnerAction, L>
    requires
        forall|state: S, action: OuterAction| #[trigger]
            store.layer().forwards(state, action) == Seq::<InnerAction>::empty(),
    ensures
        run(store.rules(), start, actions) == start,
    decreases actions.len(),
{
    if actions.len() > 0 {
        silent_middleware_changes_nothing(store, start, actions.drop_last());
    }
}

/// A middleware that forwards every action unchanged, and nothing else, is
/// not seen from outside: the wrapped store holds what the inner store
/// holds and moves exactly as the inner store does, on every action and so
/// on every sequence of actions.
pub proof fn forwarding_middleware_is_transparent<Inner, M, S, A, L>(
    store: StoreWithMiddleware<Inner, M, S, A, A, L>,
    start: Snapshot<S, L>,
    actions: Seq<A>,
) where Inner: StoreApi<S, A, L>, M: MiddleWare<S, A, Inner, A, L>
    requires
        forall|state: S, action: A| #[trigger] store.layer().forwards(state, action) == seq![action],
    ensures
        store.snapshot() == store.inner_store().snapshot(),
        store.rules() == store.inner_store().rules(),
        run(store.rules(), start, actions) == run(store.inner_store().rules(), start, actions),
{
    let inner_rules = store.inner_store().rules();
    assert forall|before: Snapshot<S, L>, action: A|
        #[trigger] (store.rules())(before, action) == inner_rules(before, action) by {
        let forwarded = store.layer().forwards(before.state, action);
        assert(forwarded.drop_last() =~= Seq::<A>::empty());
        assert(run(inner_rules, before, forwarded.drop_last()) == before);
    }
    assert(store.rules() =~= inner_rules);
}

} // verus!
