use redux_rs::{Reducer, Selector, Store, Subscriber};
use std::cell::RefCell;
use std::rc::Rc;

/// Appends a digit to a number: the result depends on the order of the actions.
struct Append;

impl Reducer<u64, u8> for Append {
    fn next(&self, state: u64, action: u8) -> u64 {
        state * 10 + action as u64
    }

    fn reduce(&self, state: u64, action: &u8) -> u64 {
        state * 10 + *action as u64
    }
}

struct Identity;

impl Selector<u64> for Identity {
    type Result = u64;

    fn pick(&self, state: u64) -> u64 {
        state
    }

    fn select(&self, state: &u64) -> u64 {
        *state
    }
}

/// Writes its name and the state it is told of to a log shared by all.
struct Named {
    name: char,
    log: Rc<RefCell<Vec<(char, u64)>>>,
}

impl Subscriber<u64> for Named {
    fn notified(mut self, state: u64) -> Self {
        self.notify(&state);
        self
    }

    fn notify(&mut self, state: &u64) {
        self.log.borrow_mut().push((self.name, *state));
    }
}

#[test]
fn state_is_left_fold_after_each_dispatch() {
    let actions: [u8; 4] = [3, 1, 4, 1];
    let mut store: Store<u64, u8, Append, Named> = Store::new_with_state(Append, 7);
    let mut expected: u64 = 7;
    for a in actions {
        store.dispatch(a);
        expected = Append.reduce(expected, &a);
        assert_eq!(store.select(Identity), expected);
    }
    assert_eq!(store.state_cloned(), 73141);
}

#[test]
fn default_numeric_state_is_zero() {
    let mut store: Store<u64, u8, Append, Named> = Store::new(Append);
    assert_eq!(store.state_cloned(), 0);
    store.dispatch(5);
    store.dispatch(2);
    assert_eq!(store.state_cloned(), 52);
}

#[test]
fn subscribers_run_in_registration_order() {
    let log = Rc::new(RefCell::new(Vec::new()));
    let mut store: Store<u64, u8, Append, Named> = Store::new_with_state(Append, 0);
    store.subscribe(Named { name: 'a', log: log.clone() });
    store.subscribe(Named { name: 'b', log: log.clone() });
    store.dispatch(1);
    store.subscribe(Named { name: 'c', log: log.clone() });
    store.dispatch(2);
    assert_eq!(
        *log.borrow(),
        vec![('a', 1), ('b', 1), ('a', 12), ('b', 12), ('c', 12)]
    );
}

#[test]
fn every_subscriber_sees_every_dispatch_once() {
    let log = Rc::new(RefCell::new(Vec::new()));
    let mut store: Store<u64, u8, Append, Named> = Store::new_with_state(Append, 0);
    store.subscribe(Named { name: 'x', log: log.clone() });
    store.subscribe(Named { name: 'y', log: log.clone() });
    for a in [1u8, 2, 3, 4, 5] {
        store.dispatch(a);
    }
    let seen_x: Vec<u64> = log.borrow().iter().filter(|e| e.0 == 'x').map(|e| e.1).collect();
    let seen_y: Vec<u64> = log.borrow().iter().filter(|e| e.0 == 'y').map(|e| e.1).collect();
    assert_eq!(seen_x, vec![1, 12, 123, 1234, 12345]);
    assert_eq!(seen_y, seen_x);
}
