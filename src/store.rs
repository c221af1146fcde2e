use vstd::prelude::*;

use crate::model::Model;
use crate::property::{PropertySet, TrackingProperty};
use crate::tracking::{all_clear, ChangeTracker, ReadTracker};

verus! {

/// What a [`Store`] holds, as mathematical values.
pub struct StoreView<M> {
    /// The wrapped model value.
    pub model: M,
    /// For each slot, whether its property was read since the last reset.
    pub read: Seq<bool>,
    /// For each slot, whether its property was changed from outside since the last reset.
    pub changed: Seq<bool>,
    /// Whether the callback already fired in the current epoch.
    pub pending: bool,
    /// How many notifications the store has sent over its life. Only `notify`, the store's one
    /// call site of the callback, raises it, by one for each call.
    pub notifications: nat,
}

impl<M> StoreView<M> {
    /// The state after a read of the property at `slot`.
    pub open spec fn read_at(self, slot: int) -> StoreView<M> {
        StoreView { read: self.read.update(slot, true), ..self }
    }

    /// The state after an outside change of the property at `slot` that left `model`: the
    /// callback fires if and only if the epoch had not yet seen a change.
    pub open spec fn received_at(self, slot: int, model: M) -> StoreView<M> {
        StoreView {
            model,
            changed: self.changed.update(slot, true),
            pending: true,
            notifications: if self.pending {
                self.notifications
            } else {
                self.notifications + 1
            },
            ..self
        }
    }

    /// The state at the start of a new epoch: the model and the count of notifications stay.
    pub open spec fn forgotten(self) -> StoreView<M> {
        StoreView {
            read: all_clear(self.read.len()),
            changed: all_clear(self.changed.len()),
            pending: false,
            ..self
        }
    }
}

/// Wraps one model value, tracking reads and outside changes per property, and calling
/// `on_receive_change` once per epoch of outside changes.
#[verifier::reject_recursive_types(M)]
pub struct Store<M: Model, F: FnMut()> {
    model: M,
    read_tracker: ReadTracker<M::ID>,
    did_receive_change: bool,
    change_tracker: ChangeTracker<M::ID>,
    on_receive_change: F,
    /// Raised by `notify` alone, beside its call of `on_receive_change`.
    notifications: Ghost<nat>,
}

impl<M: Model, F: FnMut()> View for Store<M, F> {
    type V = StoreView<M>;

    closed spec fn view(&self) -> StoreView<M> {
        StoreView {
            model: self.model,
            read: self.read_tracker@,
            changed: self.change_tracker@,
            pending: self.did_receive_change,
            notifications: self.notifications@,
        }
    }
}

impl<M: Model, F: FnMut()> Store<M, F> {
    /// The notification callback.
    pub closed spec fn callback(&self) -> F {
        self.on_receive_change
    }

    /// Both trackers have one slot per property, and the callback can always be called.
    pub open spec fn wf(&self) -> bool {
        &&& self@.read.len() == self@.changed.len()
        &&& call_requires(self.callback(), ())
    }

    /// A store around `initial_values`, with nothing read or changed yet.
    pub fn new(initial_values: M, on_receive_change: F) -> (r: Self)
        requires
            call_requires(on_receive_change, ()),
        ensures
            r.wf(),
            r@.model == initial_values,
            r.callback() == on_receive_change,
            exists|set: &'static PropertySet<M::ID>|
                call_ensures(M::get_properties, (&initial_values,), set)
                    && r@.read == all_clear(set.count())
                    && r@.changed == all_clear(set.count()),
            !r@.pending,
            r@.notifications == 0,
    {
        let properties = initial_values.get_properties();
        Store {
            read_tracker: ReadTracker::new(properties),
            model: initial_values,
            did_receive_change: false,
            change_tracker: ChangeTracker::new(properties),
            on_receive_change,
            notifications: Ghost(0),
        }
    }

    /// Starts a new epoch: nothing counts as read or changed, and the next outside change
    /// calls the callback again. The model is kept.
    pub fn forget_tracking_state(&mut self)
        requires
            old(self).wf(),
        ensures
            final(self).wf(),
            final(self)@ == old(self)@.forgotten(),
            final(self).callback() == old(self).callback(),
    {
        self.read_tracker.forget_read_properties();
        self.change_tracker.forget_changed_properties();
        self.did_receive_change = false;
    }

    /// Marks `property` as read and returns its value.
    pub fn get<T, G: Fn(&M) -> T, S: Fn(&mut M, T)>(
        &mut self,
        property: &TrackingProperty<M, T, G, S>,
    ) -> (r: T)
        requires
            old(self).wf(),
            property.callable(),
            property.slot() < old(self)@.read.len(),
        ensures
            final(self).wf(),
            final(self)@ == old(self)@.read_at(property.slot() as int),
            final(self).callback() == old(self).callback(),
            call_ensures(property.getter(), (&old(self)@.model,), r),
    {
        self.read_tracker.read_property(property);
        property.get_value(&self.model)
    }

    /// Calls the callback once and counts the call. Nothing else in the store calls it.
    fn notify(&mut self)
        requires
            old(self).wf(),
        ensures
            final(self).wf(),
            final(self)@ == (StoreView { notifications: old(self)@.notifications + 1, ..old(self)@ }),
            final(self).callback() == old(self).callback(),
            call_ensures(old(self).callback(), (), ()),
    {
        (self.on_receive_change)();
        self.notifications = Ghost(self.notifications@ + 1);
    }

    /// Applies a change that came from outside: the callback fires if this is the first
    /// change of the epoch, `property` is marked changed, and the setter stores `new_value`.
    pub fn receive_change<T, G: Fn(&M) -> T, S: Fn(&mut M, T)>(
        &mut self,
        property: &TrackingProperty<M, T, G, S>,
        new_value: T,
    )
        requires
            old(self).wf(),
            property.callable(),
            property.slot() < old(self)@.read.len(),
        ensures
            final(self).wf(),
            final(self)@ == old(self)@.received_at(property.slot() as int, final(self)@.model),
            !old(self)@.pending ==> call_ensures(old(self).callback(), (), ()),
            final(self).callback() == old(self).callback(),
            exists|m: &mut M|
                call_ensures(property.setter(), (m, new_value), ())
                    && mut_ref_current(m) == old(self)@.model
                    && mut_ref_future(m) == final(self)@.model,
    {
        if !self.did_receive_change {
            self.did_receive_change = true;
            self.notify();
        }
        self.change_tracker.change_property(property);
        property.set_value(&mut self.model, new_value);
    }

    /// Whether `property` was changed from outside since the last reset.
    pub fn received_change<T, G: Fn(&M) -> T, S: Fn(&mut M, T)>(
        &self,
        property: &TrackingProperty<M, T, G, S>,
    ) -> (r: bool)
        requires
            self.wf(),
            property.slot() < self@.read.len(),
        ensures
            r == self@.changed[property.slot() as int],
    {
        self.change_tracker.was_property_changed(property)
    }
}

} // verus!
