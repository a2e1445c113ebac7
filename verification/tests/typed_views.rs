use relm4::typed_view::column::RelmColumn;
use relm4::typed_view::column::TypedColumnView;
use relm4::typed_view::grid::StoreOrder;
use relm4::typed_view::grid::TypedGridView;
use relm4::typed_view::iterator::TypedIterator;
use relm4::typed_view::store::sorted_indices;
use relm4::typed_view::store::FilteredStore;
use relm4::typed_view::store::ItemFilter;
use relm4::typed_view::store::ItemOrder;
use relm4::typed_view::store::TypedListItem;
use relm4::typed_view::RelmSelectionExt;

struct SingleSelection;
impl RelmSelectionExt for SingleSelection {}

struct Above(i32);
impl ItemFilter<i32> for Above {
    fn spec_keeps(&self, item: &i32) -> bool {
        *item > self.0
    }

    fn keeps(&self, item: &i32) -> bool {
        *item > self.0
    }
}

struct Even;
impl ItemFilter<i32> for Even {
    fn spec_keeps(&self, item: &i32) -> bool {
        *item % 2 == 0
    }

    fn keeps(&self, item: &i32) -> bool {
        *item % 2 == 0
    }
}

enum NumberFilter {
    Above(i32),
    Even,
}
impl ItemFilter<i32> for NumberFilter {
    fn spec_keeps(&self, item: &i32) -> bool {
        self.keeps(item)
    }

    fn keeps(&self, item: &i32) -> bool {
        match self {
            NumberFilter::Above(bound) => *item > *bound,
            NumberFilter::Even => *item % 2 == 0,
        }
    }
}

struct Ascending;
impl ItemOrder<i32> for Ascending {
    fn spec_before(&self, a: &i32, b: &i32) -> bool {
        a < b
    }

    fn before(&self, a: &i32, b: &i32) -> bool {
        a < b
    }
}

struct Descending;
impl ItemOrder<i32> for Descending {
    fn spec_before(&self, a: &i32, b: &i32) -> bool {
        a > b
    }

    fn before(&self, a: &i32, b: &i32) -> bool {
        a > b
    }
}

struct NameColumn;
impl RelmColumn for NameColumn {
    type Item = i32;
    const COLUMN_NAME: &'static str = "name";
}

struct SizeColumn;
impl RelmColumn for SizeColumn {
    type Item = i32;
    const COLUMN_NAME: &'static str = "size";
}

fn visible_of(view: &TypedColumnView<i32, SingleSelection, NumberFilter>) -> Vec<i32> {
    let mut out = Vec::new();
    let mut position = 0;
    while let Some(item) = view.get_visible(position) {
        out.push(*item.borrow());
        position += 1;
    }
    out
}

#[test]
fn item_wraps_reference() {
    let value = 7;
    let item = TypedListItem::new(&value);
    assert_eq!(*item.borrow(), 7);
}

#[test]
fn store_filters_stack() {
    let mut store: FilteredStore<i32, NumberFilter> = FilteredStore::new();
    store.extend(vec![1, 2, 3, 4, 5, 6]);
    assert_eq!(store.len(), 6);
    store.add_filter(NumberFilter::Above(2));
    store.add_filter(NumberFilter::Even);
    assert_eq!(store.filters_len(), 2);
    assert_eq!(store.get_visible(0).map(|i| *i.borrow()), Some(4));
    assert_eq!(store.get_visible(1).map(|i| *i.borrow()), Some(6));
    assert!(store.get_visible(2).is_none());
    assert!(store.set_filter_status(1, false));
    assert!(!store.set_filter_status(5, false));
    assert_eq!(store.get_visible(0).map(|i| *i.borrow()), Some(3));
    assert!(store.item_passes(&9));
    store.pop_filter();
    assert_eq!(store.filters_len(), 1);
    store.clear_filters();
    assert_eq!(store.get_visible(0).map(|i| *i.borrow()), Some(1));
    assert!(!store.has_filter(0));
}

#[test]
fn store_sorted_insertion_is_stable() {
    let mut store: FilteredStore<i32, Even> = FilteredStore::new();
    assert_eq!(store.insert_sorted(5, Ascending), 0);
    assert_eq!(store.insert_sorted(1, Ascending), 0);
    assert_eq!(store.insert_sorted(3, Ascending), 1);
    assert_eq!(store.insert_sorted(3, Ascending), 2);
    assert_eq!(store.insert_sorted(9, Ascending), 4);
    let items: Vec<i32> = (0..store.len()).map(|p| *store.get(p).unwrap().borrow()).collect();
    assert_eq!(items, vec![1, 3, 3, 5, 9]);
}

#[test]
fn sorted_indices_sort_stably() {
    assert_eq!(sorted_indices(&vec![3, 1, 2, 1], &Ascending), vec![1, 3, 2, 0]);
    assert_eq!(sorted_indices(&vec![3, 1, 2, 1], &Descending), vec![0, 2, 1, 3]);
    assert_eq!(sorted_indices(&Vec::<i32>::new(), &Ascending), Vec::<usize>::new());
}

#[test]
fn store_find_first_match() {
    let mut store: FilteredStore<i32, Even> = FilteredStore::new();
    store.extend(vec![1, 3, 4, 6]);
    assert_eq!(store.find(&Even), Some(2));
    assert_eq!(store.find(&Above(10)), None);
}

#[test]
fn column_view_basics() {
    let mut view: TypedColumnView<i32, SingleSelection, NumberFilter> = TypedColumnView::new();
    assert!(view.is_empty());
    view.append_column::<NameColumn>();
    view.append_column::<SizeColumn>();
    assert_eq!(view.get_columns(), &vec!["name", "size"]);
    view.append(10);
    view.extend_from_iter(vec![11, 12, 13]);
    view.insert(0, 9);
    assert_eq!(view.len(), 5);
    assert_eq!(view.get(0).map(|i| *i.borrow()), Some(9));
    assert!(view.get(5).is_none());
    view.add_filter(NumberFilter::Even);
    assert_eq!(visible_of(&view), vec![10, 12]);
    assert!(view.notify_filter_changed(0));
    assert!(!view.notify_filter_changed(1));
    *view.get_mut(1).unwrap() = 20;
    assert_eq!(visible_of(&view), vec![20, 12]);
    assert!(view.set_filter_status(0, false));
    assert_eq!(visible_of(&view), vec![9, 20, 11, 12, 13]);
    view.remove(0);
    assert_eq!(view.find(&Above(11)), Some(0));
    assert_eq!(view.insert_sorted(5, Ascending), 0);
    view.pop_filter();
    assert_eq!(view.filters_len(), 0);
    view.clear_filters();
    view.clear();
    assert_eq!(view.len(), 0);
}

#[test]
fn column_view_iterates_in_store_order() {
    let mut view: TypedColumnView<i32, SingleSelection, NumberFilter> = TypedColumnView::new();
    view.extend_from_iter(vec![3, 1, 2]);
    let mut iter = view.iter();
    let mut seen = Vec::new();
    while let Some(item) = iter.next() {
        seen.push(*item.borrow());
    }
    assert_eq!(seen, vec![3, 1, 2]);
    let mut again = TypedIterator::new(&view);
    assert_eq!(again.next().map(|i| *i.borrow()), Some(3));
}

#[test]
fn grid_view_sorted_visible_items() {
    let mut grid: TypedGridView<i32, SingleSelection, NumberFilter, Descending> =
        TypedGridView::with_sorting(Descending);
    grid.extend_from_iter(vec![4, 9, 1, 6]);
    assert_eq!(grid.get(0).map(|i| *i.borrow()), Some(4));
    assert_eq!(grid.get_visible(0).map(|i| *i.borrow()), Some(9));
    assert_eq!(grid.get_visible(3).map(|i| *i.borrow()), Some(1));
    grid.add_filter(NumberFilter::Above(3));
    assert_eq!(grid.get_visible(2).map(|i| *i.borrow()), Some(4));
    assert!(grid.get_visible(3).is_none());
    grid.notify_filter_changed(0);
    assert_eq!(grid.filters_len(), 1);
    let mut iter = grid.iter();
    assert_eq!(iter.next().map(|i| *i.borrow()), Some(4));
}

#[test]
fn grid_view_without_sorting_keeps_store_order() {
    let mut grid: TypedGridView<i32, SingleSelection, Even, StoreOrder> = TypedGridView::new();
    grid.append(3);
    grid.append(2);
    grid.insert(1, 8);
    assert_eq!(grid.get_visible(0).map(|i| *i.borrow()), Some(3));
    assert_eq!(grid.get_visible(1).map(|i| *i.borrow()), Some(8));
    grid.add_filter(Even);
    assert_eq!(grid.get_visible(0).map(|i| *i.borrow()), Some(8));
    assert!(grid.set_filter_status(0, false));
    assert_eq!(grid.insert_sorted(1, Ascending), 0);
    assert!(!grid.is_empty());
    *grid.get_mut(0).unwrap() += 1;
    assert_eq!(grid.get(0).map(|i| *i.borrow()), Some(2));
    grid.remove(0);
    assert_eq!(grid.len(), 3);
    grid.pop_filter();
    grid.clear_filters();
    grid.clear();
    assert!(grid.is_empty());
    assert_eq!(grid.find(&Even), None);
}
