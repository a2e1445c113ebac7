use relm4::action_names::detailed_action_name;
use relm4::action_names::full_action_name;
use relm4::action_names::VariantDetail;
use relm4::factory::positions::GridPosition;
use relm4::late_initialization::LateInit;
use relm4::loading_widgets::LoadingWidgets;
use relm4::loading_widgets::RelmRemoveExt;
use relm4::macro_helper::transition;
use relm4::runtime_util::GuardPoll;
use relm4::runtime_util::Polled;
use relm4::runtime_util::ReceiverGuard;
use relm4::temp_widgets::TempWidgets;
use std::cell::RefCell;
use std::rc::Rc;

#[derive(Clone)]
struct Container {
    name: &'static str,
    log: Rc<RefCell<Vec<(&'static str, u32)>>>,
}

impl RelmRemoveExt for Container {
    type Child = u32;

    fn container_remove(&self, child: &u32) {
        self.log.borrow_mut().push((self.name, *child));
    }
}

fn containers() -> (Container, Container, Rc<RefCell<Vec<(&'static str, u32)>>>) {
    let log = Rc::new(RefCell::new(Vec::new()));
    (
        Container { name: "left", log: log.clone() },
        Container { name: "right", log: log.clone() },
        log,
    )
}

#[test]
fn loading_widgets_remove_children_in_order() {
    let (left, right, log) = containers();
    let mut loading = LoadingWidgets::new(&left, 1);
    loading.push(&right, 2);
    loading.add_many(&left, &[3, 4]);
    assert!(log.borrow().is_empty());
    loading.remove();
    assert_eq!(*log.borrow(), vec![("left", 1), ("right", 2), ("left", 3), ("left", 4)]);
}

#[test]
fn temp_widgets_remove_children_in_order() {
    let (left, right, log) = containers();
    let mut temp = TempWidgets::with_children(&right, &[7, 8]);
    temp.push(&left, 9);
    temp.add_many(&right, &[]);
    let single = TempWidgets::new(&left, 10);
    temp.remove();
    single.remove();
    assert_eq!(*log.borrow(), vec![("right", 7), ("right", 8), ("left", 9), ("left", 10)]);
}

#[test]
fn late_callbacks_wait_until_start() {
    let mut registry: LateInit<u32> = LateInit::new();
    assert_eq!(registry.register(1), None);
    assert_eq!(registry.register(2), None);
    assert_eq!(registry.take_pending(), vec![1, 2]);
    // After the start, a callback is handed back at once.
    assert_eq!(registry.register(3), Some(3));
    assert!(registry.take_pending().is_empty());
}

#[test]
fn guard_stays_pending_once_closed() {
    let mut guard = ReceiverGuard::new();
    assert!(!guard.is_terminated());
    assert!(matches!(guard.after_poll(Polled::Ready(4)), GuardPoll::Ready(4)));
    assert!(matches!(guard.after_poll(Polled::<u8>::Pending), GuardPoll::Pending));
    assert!(!guard.is_terminated());
    assert!(matches!(guard.after_poll(Polled::<u8>::Closed), GuardPoll::Pending));
    assert!(guard.is_terminated());
    let mut polled = false;
    let result = guard.poll_with(|| {
        polled = true;
        Polled::Ready(1u8)
    });
    assert!(matches!(result, GuardPoll::Pending));
    assert!(!polled);
}

#[test]
fn guard_polls_while_open() {
    let mut guard = ReceiverGuard::new();
    assert!(matches!(guard.poll_with(|| Polled::Ready(5u8)), GuardPoll::Ready(5)));
    assert!(matches!(guard.poll_with(|| Polled::<u8>::Closed), GuardPoll::Pending));
    assert!(guard.is_terminated());
}

#[test]
fn action_names() {
    assert_eq!(full_action_name("win", "my-action"), "win.my-action");
    assert_eq!(detailed_action_name("win", "my-action", None), "win.my-action");
    let system = VariantDetail::Text(String::from("System"));
    assert_eq!(
        detailed_action_name("win", "color-scheme", Some(&system)),
        "win.color-scheme('System')"
    );
    let number = VariantDetail::Literal(String::from("5"));
    assert_eq!(detailed_action_name("app", "zoom", Some(&number)), "app.zoom(5)");
    let nested = VariantDetail::Tuple(vec![
        VariantDetail::Literal(String::from("1")),
        VariantDetail::Array(vec![
            VariantDetail::Text(String::from("a")),
            VariantDetail::Text(String::from("b")),
        ]),
    ]);
    assert_eq!(detailed_action_name("g", "n", Some(&nested)), "g.n((1,['a','b']))");
    let empty = VariantDetail::Array(Vec::new());
    assert_eq!(detailed_action_name("g", "n", Some(&empty)), "g.n([])");
}

#[test]
fn grid_position_fields() {
    let position = GridPosition { column: 1, row: 2, width: 3, height: 4 };
    let copy = position;
    assert_eq!(copy, GridPosition { column: 1, row: 2, width: 3, height: 4 });
    assert_eq!(copy.width * copy.height, 12);
    transition();
}
