use vstd::prelude::*;

use crate::model::Model;
use crate::property::{PropertySet, PropertyStateMap, TrackingProperty};

verus! {

/// `n` slots, none of them set.
pub open spec fn all_clear(n: nat) -> Seq<bool> {
    Seq::new(n, |i: int| false)
}

/// Remembers which properties were read since the last reset.
#[verifier::reject_recursive_types(I)]
pub struct ReadTracker<I> {
    read_properties: PropertyStateMap<I, bool>,
}

impl<I> View for ReadTracker<I> {
    type V = Seq<bool>;

    closed spec fn view(&self) -> Seq<bool> {
        self.read_properties@
    }
}

impl<I: 'static> ReadTracker<I> {
    /// A tracker for the properties of `set`, none of them read.
    pub fn new(set: &PropertySet<I>) -> (r: Self)
        ensures
            r@ == all_clear(set.count()),
    {
        let read_properties = PropertyStateMap::new(set, &false);
        let r = ReadTracker { read_properties };
        assert(r@ =~= all_clear(set.count()));
        r
    }

    /// Marks `property` as read.
    pub fn read_property<T, M: Model<ID = I>, G: Fn(&M) -> T, S: Fn(&mut M, T)>(
        &mut self,
        property: &TrackingProperty<M, T, G, S>,
    )
        requires
            property.slot() < old(self)@.len(),
        ensures
            final(self)@ == old(self)@.update(property.slot() as int, true),
    {
        self.read_properties.set_state(property, &true);
        assert(self@ =~= old(self)@.update(property.slot() as int, true));
    }

    /// Whether `property` was read since the last reset.
    pub fn was_property_read<T, M: Model<ID = I>, G: Fn(&M) -> T, S: Fn(&mut M, T)>(
        &self,
        property: &TrackingProperty<M, T, G, S>,
    ) -> (r: bool)
        requires
            property.slot() < self@.len(),
        ensures
            r == self@[property.slot() as int],
    {
        self.read_properties.get_state(property)
    }

    /// Clears every slot.
    pub fn forget_read_properties(&mut self)
        ensures
            final(self)@ == all_clear(old(self)@.len()),
    {
        self.read_properties.fill(&false);
        assert(self@ =~= all_clear(old(self)@.len()));
    }
}

/// Remembers which properties were changed from outside since the last reset.
#[verifier::reject_recursive_types(I)]
pub struct ChangeTracker<I> {
    changed_properties: PropertyStateMap<I, bool>,
}

impl<I> View for ChangeTracker<I> {
    type V = Seq<bool>;

    closed spec fn view(&self) -> Seq<bool> {
        self.changed_properties@
    }
}

impl<I: 'static> ChangeTracker<I> {
    /// A tracker for the properties of `set`, none of them changed.
    pub fn new(set: &PropertySet<I>) -> (r: Self)
        ensures
            r@ == all_clear(set.count()),
    {
        let changed_properties = PropertyStateMap::new(set, &false);
        let r = ChangeTracker { changed_properties };
        assert(r@ =~= all_clear(set.count()));
        r
    }

    /// Marks `property` as changed.
    pub fn change_property<T, M: Model<ID = I>, G: Fn(&M) -> T, S: Fn(&mut M, T)>(
        &mut self,
        property: &TrackingProperty<M, T, G, S>,
    )
        requires
            property.slot() < old(self)@.len(),
        ensures
            final(self)@ == old(self)@.update(property.slot() as int, true),
    {
        self.changed_properties.set_state(property, &true);
        assert(self@ =~= old(self)@.update(property.slot() as int, true));
    }

    /// Whether `property` was changed since the last reset.
    pub fn was_property_changed<T, M: Model<ID = I>, G: Fn(&M) -> T, S: Fn(&mut M, T)>(
        &self,
        property: &TrackingProperty<M, T, G, S>,
    ) -> (r: bool)
        requires
            property.slot() < self@.len(),
        ensures
            r == self@[property.slot() as int],
    {
        self.changed_properties.get_state(property)
    }

    /// Clears every slot.
    pub fn forget_changed_properties(&mut self)
        ensures
            final(self)@ == all_clear(old(self)@.len()),
    {
        self.changed_properties.fill(&false);
        assert(self@ =~= all_clear(old(self)@.len()));
    }
}

} // verus!
