use relm4::factory::async_vec_deque::AsyncFactoryVecDeque;
use relm4::factory::dynamic_index::DynamicIndex;
use relm4::factory::render::plan_render;
use relm4::factory::render::rendered_ids;
use relm4::factory::render::ModelStateValue;
use relm4::factory::render::RenderedState;
use relm4::factory::render::WidgetAction;
use relm4::factory::vec_deque::FactoryVecDeque;
use relm4::factory::vec_deque::FactoryVecDequeBuilder;

fn model(entries: &[(usize, bool)]) -> Vec<ModelStateValue> {
    entries
        .iter()
        .enumerate()
        .map(|(i, (uid, changed))| ModelStateValue {
            index: DynamicIndex::new(i),
            uid: *uid,
            changed: *changed,
        })
        .collect()
}

fn rendered(ids: &[usize]) -> Vec<RenderedState> {
    ids.iter().map(|uid| RenderedState { uid: *uid }).collect()
}

#[test]
fn dynamic_index_follows_updates() {
    let index = DynamicIndex::new(3);
    let shared = index.clone();
    assert_eq!(shared.current_index(), 3);
    assert_eq!(index.share().current_index(), 3);
    let mut deque: FactoryVecDeque<i32, ()> = FactoryVecDeque::from_iter(vec![1, 2, 3], ());
    let last = deque.dynamic_index(2).unwrap();
    let copy = last.clone();
    deque.push_front(0);
    assert_eq!(copy.current_index(), 3);
    deque.remove(0);
    deque.remove(0);
    assert_eq!(copy.current_index(), 1);
    deque.move_front(1);
    assert_eq!(last.current_index(), 0);
}

#[test]
fn plan_for_new_elements_attaches_them_in_order() {
    let plan = plan_render(&model(&[(1, false), (2, false)]), &rendered(&[]));
    assert_eq!(
        plan,
        vec![
            WidgetAction::Prepend { uid: 1, index: 0 },
            WidgetAction::InsertAfter { uid: 2, index: 1, after: 1 },
            WidgetAction::UpdatePosition { uid: 1, index: 0 },
            WidgetAction::UpdatePosition { uid: 2, index: 1 },
        ]
    );
}

#[test]
fn plan_in_sync_is_empty() {
    let plan = plan_render(&model(&[(1, false), (2, false), (3, false)]), &rendered(&[1, 2, 3]));
    assert!(plan.is_empty());
}

#[test]
fn plan_notifies_changed_elements_only() {
    let plan = plan_render(&model(&[(1, false), (2, true)]), &rendered(&[1, 2]));
    assert_eq!(plan, vec![WidgetAction::Notify { uid: 2, index: 1 }]);
}

#[test]
fn plan_moves_swapped_elements() {
    let plan = plan_render(&model(&[(2, true), (1, false)]), &rendered(&[1, 2]));
    assert_eq!(
        plan,
        vec![
            WidgetAction::MoveStart { uid: 2 },
            WidgetAction::Notify { uid: 2, index: 0 },
            WidgetAction::UpdatePosition { uid: 2, index: 0 },
            WidgetAction::UpdatePosition { uid: 1, index: 1 },
        ]
    );
}

#[test]
fn plan_moves_after_predecessor_and_updates_from_first_change() {
    let plan = plan_render(&model(&[(1, false), (3, false), (2, false)]), &rendered(&[1, 2, 3]));
    assert_eq!(
        plan,
        vec![
            WidgetAction::MoveAfter { uid: 3, after: 1 },
            WidgetAction::UpdatePosition { uid: 3, index: 1 },
            WidgetAction::UpdatePosition { uid: 2, index: 2 },
        ]
    );
}

#[test]
fn rendered_ids_in_order() {
    assert_eq!(rendered_ids(&rendered(&[4, 2, 7])), vec![4, 2, 7]);
}

#[test]
fn push_and_render() {
    let mut deque: FactoryVecDeque<i32, ()> = FactoryVecDeque::new(());
    assert!(deque.is_empty());
    let first = deque.push_back(10);
    let second = deque.push_back(20);
    let front = deque.push_front(5);
    assert_eq!(first.current_index(), 1);
    assert_eq!(second.current_index(), 2);
    assert_eq!(front.current_index(), 0);
    assert_eq!(deque.len(), 3);
    assert_eq!(deque.as_slice(), &[5, 10, 20]);
    assert_eq!(deque.front(), Some(&5));
    assert_eq!(deque.back(), Some(&20));
    let plan = deque.render_changes();
    assert_eq!(
        plan,
        vec![
            WidgetAction::Prepend { uid: 3, index: 0 },
            WidgetAction::InsertAfter { uid: 1, index: 1, after: 3 },
            WidgetAction::InsertAfter { uid: 2, index: 2, after: 1 },
            WidgetAction::UpdatePosition { uid: 3, index: 0 },
            WidgetAction::UpdatePosition { uid: 1, index: 1 },
            WidgetAction::UpdatePosition { uid: 2, index: 2 },
        ]
    );
    // Nothing changed since: nothing to do.
    assert!(deque.render_changes().is_empty());
}

#[test]
fn edits_are_tracked_until_render() {
    let mut deque: FactoryVecDeque<i32, ()> = FactoryVecDeque::from_iter(vec![1, 2, 3], ());
    let _ = deque.render_changes();
    *deque.get_mut(1).unwrap() = 20;
    assert_eq!(deque.get(1), Some(&20));
    assert_eq!(deque.get(3), None);
    assert_eq!(deque.remove(0), Some(1));
    assert_eq!(deque.remove(5), None);
    assert_eq!(deque.as_slice(), &[20, 3]);
    let plan = deque.render_changes();
    // The removed widget still heads the rendered order, so the others move.
    assert_eq!(
        plan,
        vec![
            WidgetAction::Remove { uid: 1 },
            WidgetAction::MoveStart { uid: 2 },
            WidgetAction::Notify { uid: 2, index: 0 },
            WidgetAction::MoveAfter { uid: 3, after: 2 },
            WidgetAction::UpdatePosition { uid: 2, index: 0 },
            WidgetAction::UpdatePosition { uid: 3, index: 1 },
        ]
    );
}

#[test]
fn swap_twice_restores_order() {
    let mut deque: FactoryVecDeque<&str, ()> = FactoryVecDeque::from_iter(vec!["a", "b", "c"], ());
    deque.swap(0, 2);
    assert_eq!(deque.as_slice(), &["c", "b", "a"]);
    deque.swap(0, 2);
    assert_eq!(deque.as_slice(), &["a", "b", "c"]);
}

#[test]
fn swapping_twice_between_renders_updates_no_widget() {
    let mut deque: FactoryVecDeque<i32, ()> = FactoryVecDeque::from_iter(vec![1, 2, 3], ());
    let _ = deque.render_changes();
    deque.swap(0, 2);
    deque.swap(0, 2);
    assert!(deque.render_changes().is_empty());
    // A single swap moves widgets.
    deque.swap(0, 1);
    assert!(!deque.render_changes().is_empty());
}

#[test]
fn moves_shift_elements_between() {
    let mut deque: FactoryVecDeque<i32, ()> = FactoryVecDeque::from_iter(vec![0, 1, 2, 3], ());
    deque.move_to(0, 2);
    assert_eq!(deque.as_slice(), &[1, 2, 0, 3]);
    deque.move_front(3);
    assert_eq!(deque.as_slice(), &[3, 1, 2, 0]);
    deque.move_back(0);
    assert_eq!(deque.as_slice(), &[1, 2, 0, 3]);
    deque.move_to(1, 1);
    assert_eq!(deque.as_slice(), &[1, 2, 0, 3]);
}

#[test]
fn pops_and_clear() {
    let mut deque: FactoryVecDeque<i32, ()> = FactoryVecDeque::from_iter(vec![1, 2, 3], ());
    let _ = deque.render_changes();
    assert_eq!(deque.pop_front(), Some(1));
    assert_eq!(deque.pop_back(), Some(3));
    *deque.front_mut().unwrap() += 40;
    assert_eq!(deque.back_mut().map(|c| *c), Some(42));
    deque.clear();
    assert!(deque.is_empty());
    assert_eq!(deque.pop_back(), None);
    assert_eq!(deque.pop_front(), None);
    let plan = deque.render_changes();
    assert_eq!(
        plan,
        vec![
            WidgetAction::Remove { uid: 1 },
            WidgetAction::Remove { uid: 3 },
            WidgetAction::Remove { uid: 2 },
        ]
    );
}

#[test]
fn insert_in_the_middle_shifts_indices() {
    let mut deque: FactoryVecDeque<i32, ()> = FactoryVecDeque::new(());
    let a = deque.push_back(1);
    let b = deque.push_back(3);
    let c = deque.insert(1, 2);
    assert_eq!(deque.as_slice(), &[1, 2, 3]);
    assert_eq!(a.current_index(), 0);
    assert_eq!(c.current_index(), 1);
    assert_eq!(b.current_index(), 2);
    let _ = deque.remove(0);
    assert_eq!(c.current_index(), 0);
    assert_eq!(b.current_index(), 1);
}

#[test]
fn closed_pages_are_removed_from_the_model() {
    let mut deque: FactoryVecDeque<char, ()> = FactoryVecDeque::from_iter(vec!['a', 'b', 'c', 'd'], ());
    let _ = deque.render_changes();
    // The pages of the second and fourth elements were closed.
    deque.apply_external_updates(&vec![1, 3]);
    assert_eq!(deque.as_slice(), &['a', 'c']);
    let plan = deque.render_changes();
    assert_eq!(
        plan,
        vec![WidgetAction::Remove { uid: 2 }, WidgetAction::Remove { uid: 4 }]
    );
}

#[test]
fn builder_detaches_empty_factory() {
    let deque: FactoryVecDeque<i32, &str> = FactoryVecDequeBuilder::<i32, &str>::init("box").detach();
    assert!(deque.is_empty());
    assert_eq!(*deque.widget(), "box");
}

#[test]
fn push_front_after_render_prepends_only_the_new_element() {
    let mut deque: FactoryVecDeque<&str, ()> = FactoryVecDeque::new(());
    deque.push_back("a");
    deque.push_back("b");
    let _ = deque.render_changes();
    deque.push_front("c");
    assert_eq!(deque.as_slice(), &["c", "a", "b"]);
    let plan = deque.render_changes();
    assert_eq!(
        plan,
        vec![
            WidgetAction::Prepend { uid: 3, index: 0 },
            WidgetAction::UpdatePosition { uid: 3, index: 0 },
            WidgetAction::UpdatePosition { uid: 1, index: 1 },
            WidgetAction::UpdatePosition { uid: 2, index: 2 },
        ]
    );
    let index = deque.dynamic_index(1).unwrap();
    assert_eq!(index.current_index(), 1);
    deque.move_front(1);
    assert_eq!(index.current_index(), 0);
    assert!(deque.dynamic_index(3).is_none());
}

#[test]
fn async_factory_edits_and_renders_like_the_sync_one() {
    let mut deque: AsyncFactoryVecDeque<char, ()> = AsyncFactoryVecDeque::new(());
    assert!(deque.is_empty());
    deque.push_back('a');
    deque.push_back('b');
    deque.push_back('c');
    assert_eq!(deque.len(), 3);
    assert_eq!(deque.front(), Some(&'a'));
    assert_eq!(deque.back(), Some(&'c'));
    let plan = deque.render_changes();
    assert_eq!(
        plan,
        vec![
            WidgetAction::Prepend { uid: 1, index: 0 },
            WidgetAction::InsertAfter { uid: 2, index: 1, after: 1 },
            WidgetAction::InsertAfter { uid: 3, index: 2, after: 2 },
            WidgetAction::UpdatePosition { uid: 1, index: 0 },
            WidgetAction::UpdatePosition { uid: 2, index: 1 },
            WidgetAction::UpdatePosition { uid: 3, index: 2 },
        ]
    );
    deque.move_to(0, 2);
    assert_eq!(deque.get(0), Some(&'b'));
    assert_eq!(deque.get(2), Some(&'a'));
    let plan = deque.render_changes();
    assert_eq!(
        plan,
        vec![
            WidgetAction::MoveStart { uid: 2 },
            WidgetAction::MoveAfter { uid: 3, after: 2 },
            WidgetAction::UpdatePosition { uid: 2, index: 0 },
            WidgetAction::UpdatePosition { uid: 3, index: 1 },
            WidgetAction::UpdatePosition { uid: 1, index: 2 },
        ]
    );
    // The page of 'c' was closed by the user; the pages of 'b' and 'a' stay.
    deque.apply_external_updates(&vec![2, 1]);
    assert_eq!(deque.len(), 2);
    assert_eq!(deque.get(1), Some(&'a'));
    assert_eq!(deque.render_changes(), vec![WidgetAction::Remove { uid: 3 }]);
}
