use change_tracking::{Model, PropertySet, Store, TrackingProperty};

use std::cell::Cell;
use std::rc::Rc;

struct ExampleModel {
    foo: u32,
    bar: u32,
}

struct ExampleID {}

fn property_foo() -> TrackingProperty<
    ExampleModel,
    u32,
    impl Fn(&ExampleModel) -> u32,
    impl Fn(&mut ExampleModel, u32),
> {
    TrackingProperty::first(
        |example: &ExampleModel| example.foo,
        |example: &mut ExampleModel, new_foo: u32| example.foo = new_foo,
    )
}

fn property_bar() -> TrackingProperty<
    ExampleModel,
    u32,
    impl Fn(&ExampleModel) -> u32,
    impl Fn(&mut ExampleModel, u32),
> {
    property_foo().next(
        |example: &ExampleModel| example.bar,
        |example: &mut ExampleModel, new_bar: u32| example.bar = new_bar,
    )
}

impl Model for ExampleModel {
    type ID = ExampleID;

    fn get_properties(&self) -> &'static PropertySet<ExampleID> {
        Box::leak(Box::new(property_bar().finish_set()))
    }
}

trait ExampleStore {
    fn get_foo(&mut self) -> u32;

    fn get_bar(&mut self) -> u32;

    fn receive_foo(&mut self, new_foo: u32);

    fn receive_bar(&mut self, new_bar: u32);

    fn received_foo(&self) -> bool;

    fn received_bar(&self) -> bool;
}

impl<F: FnMut()> ExampleStore for Store<ExampleModel, F> {
    fn get_foo(&mut self) -> u32 {
        self.get(&property_foo())
    }

    fn get_bar(&mut self) -> u32 {
        self.get(&property_bar())
    }

    fn receive_foo(&mut self, new_foo: u32) {
        self.receive_change(&property_foo(), new_foo);
    }

    fn receive_bar(&mut self, new_bar: u32) {
        self.receive_change(&property_bar(), new_bar);
    }

    fn received_foo(&self) -> bool {
        self.received_change(&property_foo())
    }

    fn received_bar(&self) -> bool {
        self.received_change(&property_bar())
    }
}

fn counting_store(foo: u32, bar: u32) -> (Store<ExampleModel, Box<dyn FnMut()>>, Rc<Cell<u32>>) {
    let count_cell = Rc::new(Cell::new(0));
    let ref_count_cell = Rc::clone(&count_cell);
    let store = Store::new(
        ExampleModel { foo, bar },
        Box::new(move || ref_count_cell.set(ref_count_cell.get() + 1)) as Box<dyn FnMut()>,
    );
    (store, count_cell)
}

#[test]
fn test_receive() {
    let count_cell = Rc::new(Cell::new(0));
    let ref_count_cell = Rc::clone(&count_cell);

    let mut store = Store::new(
        ExampleModel { foo: 12, bar: 20 },
        Box::new(move || ref_count_cell.set(ref_count_cell.get() + 1)),
    );

    // The values given to the constructor come back.
    assert_eq!(12, store.get_foo());
    assert_eq!(20, store.get_bar());
    // Nothing has been received yet.
    assert_eq!(0, count_cell.get());

    // A change of `foo` from outside.
    store.receive_foo(6);
    assert_eq!(6, store.get_foo());
    assert_eq!(1, count_cell.get());

    // A change of `bar` in the same epoch does not notify again.
    store.receive_bar(10);
    assert_eq!(10, store.get_bar());
    assert_eq!(1, count_cell.get());

    // A reset notifies nobody.
    store.forget_tracking_state();
    assert_eq!(1, count_cell.get());
    // The first change of the new epoch notifies.
    store.receive_bar(8);
    assert_eq!(2, count_cell.get());
    assert_eq!(8, store.get_bar());
}

#[test]
fn test_ignore_unread() {
    let count_cell = Rc::new(Cell::new(0));
    let ref_count_cell = Rc::clone(&count_cell);

    let mut store = Store::new(
        ExampleModel { foo: 12, bar: 20 },
        Box::new(move || ref_count_cell.set(ref_count_cell.get() + 1)),
    );

    // Nothing has been received yet.
    assert!(!store.received_foo());

    // A change counts whether or not the property was read before.
    store.receive_foo(4);
    assert!(store.received_foo());
    assert_eq!(1, count_cell.get());

    // Reading does not clear the change.
    store.get_foo();
    assert!(store.received_foo());
    assert_eq!(1, count_cell.get());

    // A second change in the same epoch does not notify again.
    store.receive_foo(1);
    assert!(store.received_foo());
    assert_eq!(1, count_cell.get());
    // `bar` was not changed.
    assert!(!store.received_bar());
    store.get_bar();
    store.receive_bar(9);
    assert!(store.received_bar());

    // Forget everything.
    store.forget_tracking_state();
    assert!(!store.received_foo());
    assert!(!store.received_bar());
    // The first change of the new epoch notifies, read or not.
    store.receive_foo(3);
    assert!(store.received_foo());
    assert_eq!(2, count_cell.get());
    store.get_foo();
    store.receive_foo(11);
    assert!(store.received_foo());
    assert_eq!(11, store.get_foo());
    assert_eq!(2, count_cell.get());
    assert!(!store.received_bar());
    store.receive_bar(0);
    assert!(store.received_bar());
    assert_eq!(2, count_cell.get());
}

#[test]
fn only_the_first_change_of_an_epoch_notifies() {
    let (mut store, count) = counting_store(1, 2);
    for n in 1..=10u32 {
        store.receive_foo(n);
        assert_eq!(1, count.get());
    }
    store.forget_tracking_state();
    assert_eq!(1, count.get());
    store.receive_bar(5);
    assert_eq!(2, count.get());
    store.receive_bar(6);
    assert_eq!(2, count.get());
}

#[test]
fn a_received_change_is_visible_until_reset() {
    let (mut store, count) = counting_store(1, 2);
    store.receive_bar(40);
    assert_eq!(40, store.get_bar());
    assert!(store.received_bar());
    assert!(!store.received_foo());
    // Reads and other changes keep it.
    store.get_bar();
    store.get_foo();
    store.receive_foo(7);
    assert!(store.received_bar());
    assert_eq!(7, store.get_foo());
    assert_eq!(1, count.get());
    store.forget_tracking_state();
    assert!(!store.received_bar());
}

#[test]
fn reset_clears_every_change_and_keeps_the_model() {
    let (mut store, count) = counting_store(3, 4);
    store.receive_foo(30);
    store.receive_bar(40);
    store.forget_tracking_state();
    assert!(!store.received_foo());
    assert!(!store.received_bar());
    assert_eq!(30, store.get_foo());
    assert_eq!(40, store.get_bar());
    assert_eq!(1, count.get());
    // A reset with nothing to forget changes nothing either.
    store.forget_tracking_state();
    assert!(!store.received_foo());
    assert_eq!(1, count.get());
}

#[test]
fn reads_notify_nobody_and_change_nothing() {
    let (mut store, count) = counting_store(12, 20);
    assert_eq!(12, store.get_foo());
    assert_eq!(12, store.get_foo());
    assert_eq!(20, store.get_bar());
    assert!(!store.received_foo());
    assert!(!store.received_bar());
    assert_eq!(0, count.get());
}

#[test]
fn notifications_count_the_epochs_that_saw_a_change() {
    let (mut store, count) = counting_store(0, 0);
    // First epoch: reads, then two changes.
    store.get_foo();
    store.receive_foo(1);
    store.get_bar();
    store.receive_bar(2);
    store.forget_tracking_state();
    // Second epoch: reads only.
    store.get_foo();
    store.get_bar();
    store.forget_tracking_state();
    // Third epoch: one change after a read.
    store.get_bar();
    store.receive_bar(3);
    assert_eq!(2, count.get());
    assert_eq!(1, store.get_foo());
    assert_eq!(3, store.get_bar());
}
