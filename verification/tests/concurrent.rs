use redux_rs::{Message, Reducer, Reply, Selector, Store, Subscriber};
use tokio::sync::{mpsc, oneshot};

struct Add;

impl Reducer<i64, i64> for Add {
    fn next(&self, state: i64, action: i64) -> i64 {
        state + action
    }

    fn reduce(&self, state: i64, action: &i64) -> i64 {
        state + *action
    }
}

struct Identity;

impl Selector<i64> for Identity {
    type Result = i64;

    fn pick(&self, state: i64) -> i64 {
        state
    }

    fn select(&self, state: &i64) -> i64 {
        *state
    }
}

struct Nobody;

impl Subscriber<i64> for Nobody {
    fn notified(self, _state: i64) -> Self {
        self
    }

    fn notify(&mut self, _state: &i64) {}
}

type Request = Message<i64, Identity, Nobody>;

type Envelope = (Request, oneshot::Sender<Reply<i64>>);

async fn ask(address: &mpsc::UnboundedSender<Envelope>, request: Request) -> Reply<i64> {
    let (reply, answer) = oneshot::channel();
    assert!(address.send((request, reply)).is_ok());
    match answer.await {
        Ok(reply) => reply,
        Err(_) => panic!("the worker dropped a request"),
    }
}

#[test]
fn two_concurrent_senders() {
    let runtime = tokio::runtime::Builder::new_multi_thread()
        .worker_threads(2)
        .build()
        .unwrap();
    runtime.block_on(async {
        let (address, mut inbox) = mpsc::unbounded_channel::<Envelope>();
        let worker = tokio::spawn(async move {
            let mut store: Store<i64, i64, Add, Nobody> = Store::new_with_state(Add, 42);
            while let Some((request, reply)) = inbox.recv().await {
                let _ = reply.send(store.handle(request));
            }
            store.state_cloned()
        });

        let one = address.clone();
        let other = address.clone();
        let first = tokio::spawn(async move {
            ask(&one, Message::Dispatch { action: 1 }).await;
        });
        let second = tokio::spawn(async move {
            ask(&other, Message::Dispatch { action: 10 }).await;
        });
        first.await.unwrap();
        second.await.unwrap();

        // Both actions were applied, each exactly once: 42 + 1 + 10.
        let seen = ask(&address, Message::Select { selector: Identity }).await;
        assert!(matches!(seen, Reply::Value(53)));

        drop(address);
        assert_eq!(worker.await.unwrap(), 53);
    });
}

#[test]
fn abandoned_reply_does_not_stop_the_worker() {
    let runtime = tokio::runtime::Builder::new_multi_thread()
        .worker_threads(2)
        .build()
        .unwrap();
    runtime.block_on(async {
        let (address, mut inbox) = mpsc::unbounded_channel::<Envelope>();
        let worker = tokio::spawn(async move {
            let mut store: Store<i64, i64, Add, Nobody> = Store::new_with_state(Add, 0);
            while let Some((request, reply)) = inbox.recv().await {
                let _ = reply.send(store.handle(request));
            }
            store.state_cloned()
        });

        // The caller walks away before the reply; the request is still handled.
        let (reply, answer) = oneshot::channel();
        drop(answer);
        assert!(address.send((Message::Dispatch { action: 5 }, reply)).is_ok());

        let seen = ask(&address, Message::Select { selector: Identity }).await;
        assert!(matches!(seen, Reply::Value(5)));
        drop(address);
        assert_eq!(worker.await.unwrap(), 5);
    });
}
