use relm4::channel::channel;
use relm4::shared_state::async_reducer::AsyncReducerState;
use relm4::shared_state::reducer::Reducible;
use relm4::shared_state::reducer::ReducerState;
use relm4::shared_state::state::SharedState;
use relm4::shared_state::subscriber::OptionalSubscriber;
use relm4::shared_state::subscriber::SenderSubscriber;
use relm4::shared_state::subscriber::Subscriber;

type U8Subscriber = SenderSubscriber<u8, u8, fn(&u8) -> u8>;

fn copy_value(data: &u8) -> u8 {
    *data
}

#[test]
fn shared_state_shared_state() {
    let mut state: SharedState<u8, U8Subscriber> = SharedState::new();
    assert_eq!(*state.read().get(), 0);

    {
        let mut data = state.write();
        *data.get_mut() += 1;
        data.release();
    }

    assert_eq!(*state.read().get(), 1);

    let (sender, receiver) = channel();

    state.subscribe(SenderSubscriber::new(&sender, copy_value as fn(&u8) -> u8));

    {
        let mut data = state.write();
        *data.get_mut() += 1;
        data.release();
    }

    assert_eq!(receiver.recv_sync().unwrap(), 2);
    assert_eq!(*state.read().get(), 2);
}

#[test]
fn state_shared_state() {
    let mut state: SharedState<u8, U8Subscriber> = SharedState::new();
    assert_eq!(*state.read().get(), 0);

    {
        let mut data = state.write();
        *data.get_mut() += 1;
        data.release();
    }

    assert_eq!(*state.read().get(), 1);

    let (sender, receiver) = channel();

    state.subscribe(SenderSubscriber::new(&sender, copy_value as fn(&u8) -> u8));

    {
        let mut data = state.write();
        *data.get_mut() += 1;
        data.release();
    }

    assert_eq!(receiver.recv_sync().unwrap(), 2);
    assert_eq!(*state.read().get(), 2);
}

#[test]
fn write_with_set_notifies_with_new_value() {
    let mut state: SharedState<u8, U8Subscriber> = SharedState::new();
    let (sender, receiver) = channel();
    state.subscribe(SenderSubscriber::new(&sender, copy_value as fn(&u8) -> u8));
    let mut guard = state.write();
    guard.set(7);
    assert_eq!(*guard.get(), 7);
    guard.release();
    assert_eq!(receiver.recv_sync(), Some(7));
    assert_eq!(*state.read_inner(), 7);
}

#[test]
fn get_mut_does_not_notify() {
    let mut state: SharedState<u8, U8Subscriber> = SharedState::new();
    let (sender, receiver) = channel();
    state.subscribe(SenderSubscriber::new(&sender, copy_value as fn(&u8) -> u8));
    *state.get_mut() = 5;
    *state.write_inner() += 1;
    assert_eq!(*state.read().get(), 6);
    assert_eq!(receiver.try_recv(), None);
}

#[test]
fn dropped_receiver_removes_subscriber() {
    let mut state: SharedState<u8, U8Subscriber> = SharedState::new();
    let (alive_sender, alive_receiver) = channel();
    let (dead_sender, dead_receiver) = channel::<u8>();
    state.subscribe(SenderSubscriber::new(&dead_sender, copy_value as fn(&u8) -> u8));
    state.subscribe(SenderSubscriber::new(&alive_sender, copy_value as fn(&u8) -> u8));
    drop(dead_receiver);
    let kept = state.notify_subscribers();
    assert_eq!(kept, vec![false, true]);
    assert_eq!(alive_receiver.recv_sync(), Some(0));
    // Only the live subscriber is notified the next time.
    let kept = state.notify_subscribers();
    assert_eq!(kept, vec![true]);
}

fn even_only(data: &u8) -> Option<u8> {
    if *data % 2 == 0 { Some(*data) } else { None }
}

#[test]
fn optional_subscriber_skips_none() {
    let (sender, receiver) = channel();
    let sub = OptionalSubscriber::new(&sender, even_only as fn(&u8) -> Option<u8>);
    assert!(sub.notify(&3));
    assert_eq!(receiver.try_recv(), None);
    assert!(sub.notify(&4));
    assert_eq!(receiver.try_recv(), Some(4));
    drop(receiver);
    // Without a message the subscriber stays even though nobody listens.
    assert!(sub.notify(&5));
    assert!(!sub.notify(&6));
}

struct Counter(u8);

enum CounterInput {
    Increment,
    Decrement,
    Nothing,
}

impl Reducible for Counter {
    type Input = CounterInput;

    fn init() -> Self {
        Counter(0)
    }

    fn reduce(&mut self, input: CounterInput) -> bool {
        match input {
            CounterInput::Increment => {
                self.0 += 1;
                true
            }
            CounterInput::Decrement => {
                self.0 -= 1;
                true
            }
            CounterInput::Nothing => false,
        }
    }
}

fn counter_value(data: &Counter) -> u8 {
    data.0
}

#[test]
fn reducer_notifies_on_change_only() {
    let mut reducer: ReducerState<Counter, SenderSubscriber<Counter, u8, fn(&Counter) -> u8>> =
        ReducerState::new();
    let (sender, receiver) = channel();
    reducer.handle_input(CounterInput::Increment);
    reducer.handle_input(CounterInput::Increment);
    reducer.handle_input(CounterInput::Increment);
    reducer.subscribe(SenderSubscriber::new(&sender, counter_value as fn(&Counter) -> u8));
    assert!(reducer.handle_input(CounterInput::Increment));
    assert_eq!(receiver.recv_sync(), Some(4));
    assert!(reducer.handle_input(CounterInput::Decrement));
    assert_eq!(receiver.recv_sync(), Some(3));
    assert!(!reducer.handle_input(CounterInput::Nothing));
    assert_eq!(receiver.try_recv(), None);
}

#[test]
fn async_reducer_state_retains_live_subscribers() {
    let mut reducer: AsyncReducerState<u8, U8Subscriber> = AsyncReducerState::new(10);
    let (sender, receiver) = channel();
    let (dead_sender, dead_receiver) = channel::<u8>();
    reducer.subscribe(SenderSubscriber::new(&sender, copy_value as fn(&u8) -> u8));
    reducer.subscribe(SenderSubscriber::new(&dead_sender, copy_value as fn(&u8) -> u8));
    drop(dead_receiver);
    *reducer.data_mut() += 1;
    assert_eq!(reducer.after_reduce(false), None);
    assert_eq!(receiver.try_recv(), None);
    assert_eq!(reducer.after_reduce(true), Some(vec![true, false]));
    assert_eq!(receiver.recv_sync(), Some(11));
    assert_eq!(reducer.after_reduce(true), Some(vec![true]));
}
