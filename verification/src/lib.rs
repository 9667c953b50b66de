//! A predictable state container: one owner holds the state, actions are the
//! only way to change it, and every change is a call of a pure reducer.

pub mod middleware;
pub mod reducer;
pub mod selector;
pub mod store;
pub mod subscriber;

pub use middleware::{MiddleWare, StoreApi, StoreWithMiddleware};
pub use reducer::Reducer;
pub use selector::Selector;
pub use store::{Message, Notice, Reply, Snapshot, Store};
pub use subscriber::Subscriber;
