use relm4::channel::channel;
use relm4::channel::ChannelSender;
use relm4::component::Component;
use relm4::factory::service::async_service_step;
use relm4::factory::service::forward_output;
use relm4::factory::service::forward_to_parent;
use relm4::factory::service::AsyncServiceAction;
use relm4::factory::service::handle_event;
use relm4::factory::service::ServiceEvent;
use relm4::factory::service::ServiceStep;
use relm4::factory::sync::hashmap::FactoryHashMap;
use relm4::factory::sync::hashmap::FactoryHashMapBuilder;
use relm4::factory::sync::hashmap::MapWidgetAction;
use relm4::factory::sync::traits::FactoryComponent;
use relm4::factory::widgets::traits::FactoryView;
use relm4::factory::widgets::traits::Position;
use relm4::sender::ComponentSender;
use relm4::sender::FactoryComponentSender;
use relm4::shutdown;
use relm4::shutdown::ShutdownReceiver;
use std::collections::hash_map::RandomState;

#[derive(Debug, Default, Clone, PartialEq)]
struct TestBox(u32);

impl FactoryView for TestBox {
    type ReturnedWidget = u32;
    type Children = u32;
    type Position = ();

    fn factory_remove(&self, _widget: &u32) {}

    fn factory_append(&self, widget: &u32, _position: &()) -> u32 {
        *widget
    }

    fn factory_prepend(&self, widget: &u32, _position: &()) -> u32 {
        *widget
    }

    fn factory_insert_after(&self, widget: &u32, _position: &(), _other: &u32) -> u32 {
        *widget
    }

    fn returned_widget_to_child(root_child: &u32) -> u32 {
        *root_child
    }

    fn factory_move_after(&self, _widget: &u32, _other: &u32) {}

    fn factory_move_start(&self, _widget: &u32) {}
}

#[derive(Debug, Clone, PartialEq)]
struct Counter(i32);

impl Position<(), String> for Counter {
    fn position(&self, _index: &String) {}
}

impl FactoryComponent for Counter {
    type ParentWidget = TestBox;
    type CommandOutput = i32;
    type Input = i32;
    type Output = String;
    type Init = i32;
    type Root = ();
    type Widgets = Vec<i32>;
    type Index = String;

    fn init_model(init: i32, _index: &String, _sender: FactoryComponentSender<Self>) -> Self {
        Counter(init)
    }

    fn init_root(&self) {}

    fn init_widgets(
        &mut self,
        _index: &String,
        _root: (),
        _returned_widget: &u32,
        _sender: FactoryComponentSender<Self>,
    ) -> Vec<i32> {
        Vec::new()
    }

    fn update(&mut self, message: i32, _sender: FactoryComponentSender<Self>) {
        self.0 += message;
    }

    fn update_cmd(&mut self, message: i32, _sender: FactoryComponentSender<Self>) {
        self.0 *= message;
    }

    fn update_view(&self, widgets: &mut Vec<i32>, _sender: FactoryComponentSender<Self>) {
        widgets.push(self.0);
    }

    fn shutdown(&mut self, _widgets: &mut Vec<i32>, output: ChannelSender<String>) {
        output.emit(format!("bye {}", self.0));
    }
}

struct App;

impl Component for App {
    type Input = u8;
    type Output = String;
    type CommandOutput = u32;
}

#[test]
fn send_to_dropped_receiver_returns_message() {
    let (sender, receiver) = channel();
    assert_eq!(sender.send(1u32), Ok(()));
    assert_eq!(receiver.recv_sync(), Some(1));
    let clone = sender.clone();
    clone.emit(2);
    assert_eq!(receiver.try_recv(), Some(2));
    assert_eq!(receiver.try_recv(), None);
    drop(receiver);
    assert_eq!(sender.send(5), Err(5));
}

#[test]
fn receiver_ends_when_senders_are_gone() {
    let (sender, receiver) = channel::<u8>();
    drop(sender);
    assert_eq!(receiver.recv_sync(), None);
}

#[test]
fn shutdown_reaches_every_receiver() {
    let (sender, receiver) = shutdown::channel();
    let other: ShutdownReceiver = receiver.clone();
    sender.shutdown();
    let mut first = receiver.into_inner();
    let mut second = other.into_inner();
    assert_eq!(first.try_recv(), Ok(()));
    assert_eq!(second.try_recv(), Ok(()));
}

#[test]
fn component_sender_routes_messages() {
    let runtime = tokio::runtime::Runtime::new().unwrap();
    let (input_tx, input_rx) = channel();
    let (output_tx, output_rx) = channel();
    let (command_tx, command_rx) = channel();
    let (shutdown_tx, shutdown_rx) = shutdown::channel();
    let sender: ComponentSender<App> =
        ComponentSender::new(input_tx, output_tx, command_tx, shutdown_rx, runtime.handle().clone());
    sender.input(3);
    assert_eq!(input_rx.recv_sync(), Some(3));
    sender.input_sender().emit(4);
    assert_eq!(input_rx.recv_sync(), Some(4));
    sender.output(String::from("done"));
    assert_eq!(output_rx.recv_sync(), Some(String::from("done")));
    sender.output_sender().emit(String::from("again"));
    assert_eq!(output_rx.recv_sync(), Some(String::from("again")));
    sender.command(|out, _shutdown| async move {
        out.emit(7);
    });
    assert_eq!(command_rx.recv_sync(), Some(7));
    sender.clone().sync_command(|out| out.emit(8));
    assert_eq!(command_rx.recv_sync(), Some(8));
    let (parts_out, _parts_shutdown) = sender.command_parts();
    parts_out.emit(9);
    assert_eq!(command_rx.recv_sync(), Some(9));
    drop(shutdown_tx);
}

fn factory_sender() -> (
    FactoryComponentSender<Counter>,
    relm4::channel::ChannelReceiver<String>,
    tokio::runtime::Runtime,
) {
    let runtime = tokio::runtime::Runtime::new().unwrap();
    let (input_tx, _input_rx) = channel();
    let (output_tx, output_rx) = channel();
    let (command_tx, _command_rx) = channel();
    let (_shutdown_tx, shutdown_rx) = shutdown::channel();
    let sender = FactoryComponentSender::new(
        input_tx,
        output_tx,
        command_tx,
        shutdown_rx,
        runtime.handle().clone(),
    );
    (sender, output_rx, runtime)
}

#[test]
fn service_handles_each_event() {
    let (sender, output_rx, _runtime) = factory_sender();
    let output = sender.output_sender().clone();
    let mut model = Counter(1);
    let mut widgets = Vec::new();
    assert_eq!(
        handle_event(&mut model, &mut widgets, ServiceEvent::Input(4), &sender, &output),
        ServiceStep::Continue
    );
    assert_eq!(
        handle_event(&mut model, &mut widgets, ServiceEvent::Command(3), &sender, &output),
        ServiceStep::Continue
    );
    assert_eq!(
        handle_event(&mut model, &mut widgets, ServiceEvent::Notify, &sender, &output),
        ServiceStep::Continue
    );
    assert_eq!(widgets, vec![5, 15, 15]);
    assert_eq!(
        handle_event(&mut model, &mut widgets, ServiceEvent::Shutdown, &sender, &output),
        ServiceStep::Stop
    );
    assert_eq!(output_rx.recv_sync(), Some(String::from("bye 15")));
}

fn double_positive(x: i32) -> Option<i32> {
    if x > 0 { Some(2 * x) } else { None }
}

#[test]
fn forwarding_transforms_outputs() {
    assert_eq!(forward_output(&double_positive, 3), Some(6));
    assert_eq!(forward_output(&double_positive, -1), None);
    assert_eq!(forward_output(&double_positive, 0), None);
}

#[test]
fn hash_map_insert_get_remove() {
    let mut map: FactoryHashMap<String, Counter> = FactoryHashMap::builder().launch(TestBox(7)).detach();
    assert!(map.is_empty());
    assert_eq!(map.widget(), &TestBox(7));
    assert_eq!(map.insert(String::from("a"), Counter(1)), None);
    assert_eq!(map.insert(String::from("b"), Counter(2)), None);
    assert_eq!(map.insert(String::from("a"), Counter(3)), Some(Counter(1)));
    assert_eq!(map.len(), 2);
    assert_eq!(map.get(&String::from("a")), Some(&Counter(3)));
    map.get_mut(&String::from("b")).unwrap().0 += 10;
    assert_eq!(map.get(&String::from("b")), Some(&Counter(12)));
    assert!(map.get_mut(&String::from("c")).is_none());
    assert_eq!(map.remove(&String::from("a")), Some(Counter(3)));
    assert_eq!(map.remove(&String::from("a")), None);
    map.clear();
    assert!(map.is_empty());
}

#[test]
fn hash_map_from_vec_later_pairs_win() {
    let map: FactoryHashMap<String, Counter> = FactoryHashMap::from_vec(
        vec![
            (String::from("x"), Counter(1)),
            (String::from("y"), Counter(2)),
            (String::from("x"), Counter(3)),
        ],
        TestBox(0),
    );
    assert_eq!(map.len(), 2);
    assert_eq!(map.get(&String::from("x")), Some(&Counter(3)));
    assert_eq!(map.get(&String::from("y")), Some(&Counter(2)));
}

#[test]
fn hash_map_builder_with_hasher_and_default_widget() {
    let builder: FactoryHashMapBuilder<u64, Counter> = FactoryHashMapBuilder::new();
    let (mut map, outputs) = builder.hasher(RandomState::new()).launch_default().detach_with_receiver();
    assert_eq!(map.widget(), &TestBox::default());
    assert_eq!(map.insert(5, Counter(1)), None);
    assert_eq!(map.get(&5), Some(&Counter(1)));
    assert_eq!(outputs.try_recv(), None);
}

#[test]
fn hash_map_records_widget_work() {
    let mut map: FactoryHashMap<String, Counter> = FactoryHashMap::builder().launch(TestBox(1)).detach();
    assert_eq!(map.insert(String::from("a"), Counter(1)), None);
    assert_eq!(map.insert(String::from("b"), Counter(2)), None);
    assert_eq!(map.uid(&String::from("a")), Some(1));
    assert_eq!(map.uid(&String::from("b")), Some(2));
    assert_eq!(
        map.take_widget_actions(),
        vec![MapWidgetAction::Append { uid: 1 }, MapWidgetAction::Append { uid: 2 }]
    );
    assert!(map.take_widget_actions().is_empty());

    // Replacing a key removes the old widget before the new one is appended.
    assert_eq!(map.insert(String::from("a"), Counter(3)), Some(Counter(1)));
    assert_eq!(map.uid(&String::from("a")), Some(3));
    assert_eq!(
        map.take_widget_actions(),
        vec![MapWidgetAction::Remove { uid: 1 }, MapWidgetAction::Append { uid: 3 }]
    );

    assert_eq!(map.remove(&String::from("b")), Some(Counter(2)));
    assert_eq!(map.remove(&String::from("b")), None);
    assert_eq!(map.uid(&String::from("b")), None);
    assert_eq!(map.take_widget_actions(), vec![MapWidgetAction::Remove { uid: 2 }]);

    assert_eq!(map.insert(String::from("c"), Counter(4)), None);
    map.take_widget_actions();
    map.clear();
    let mut removed: Vec<MapWidgetAction> = map.take_widget_actions();
    removed.sort_by_key(|a| match a {
        MapWidgetAction::Remove { uid } => *uid,
        MapWidgetAction::Append { uid } => *uid,
    });
    assert_eq!(removed, vec![MapWidgetAction::Remove { uid: 3 }, MapWidgetAction::Remove { uid: 4 }]);
    assert!(map.is_empty());
}

#[test]
fn forwarding_to_parent_stops_once_the_parent_is_gone() {
    let (parent, received) = channel::<i32>();
    assert_eq!(forward_to_parent(&double_positive, 3, &parent), ServiceStep::Continue);
    assert_eq!(received.try_recv(), Some(6));
    assert_eq!(forward_to_parent(&double_positive, -1, &parent), ServiceStep::Continue);
    assert_eq!(received.try_recv(), None);
    drop(received);
    assert_eq!(forward_to_parent(&double_positive, -1, &parent), ServiceStep::Continue);
    assert_eq!(forward_to_parent(&double_positive, 2, &parent), ServiceStep::Stop);
}

#[test]
fn async_service_steps() {
    let (action, step) = async_service_step::<i32, u8>(ServiceEvent::Input(4));
    assert!(matches!(action, AsyncServiceAction::UpdateWithView(4)));
    assert_eq!(step, ServiceStep::Continue);
    let (action, step) = async_service_step::<i32, u8>(ServiceEvent::Command(9));
    assert!(matches!(action, AsyncServiceAction::UpdateCmdWithView(9)));
    assert_eq!(step, ServiceStep::Continue);
    let (action, step) = async_service_step::<i32, u8>(ServiceEvent::Notify);
    assert!(matches!(action, AsyncServiceAction::UpdateView));
    assert_eq!(step, ServiceStep::Continue);
    let (action, step) = async_service_step::<i32, u8>(ServiceEvent::Shutdown);
    assert!(matches!(action, AsyncServiceAction::Shutdown));
    assert_eq!(step, ServiceStep::Stop);
}

#[test]
fn fresh_containers_have_free_identifiers() {
    let map: FactoryHashMap<String, Counter> = FactoryHashMap::builder().launch(TestBox(1)).detach();
    assert!(map.has_free_uid());
}

#[test]
fn hash_map_walks_every_entry_once() {
    let mut map: FactoryHashMap<u64, Counter> = FactoryHashMap::builder().launch(TestBox(1)).detach();
    map.insert(1, Counter(10));
    map.insert(2, Counter(20));
    map.insert(1, Counter(11));
    let mut entries: Vec<(u64, Counter)> = map.iter().into_iter().map(|(k, c)| (*k, c.clone())).collect();
    entries.sort_by_key(|e| e.0);
    assert_eq!(entries, vec![(1, Counter(11)), (2, Counter(20))]);
    let mut values: Vec<Counter> = map.values().into_iter().cloned().collect();
    values.sort_by_key(|c| c.0);
    assert_eq!(values, vec![Counter(11), Counter(20)]);
}
