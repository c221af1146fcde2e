use vstd::prelude::*;

use core::marker::PhantomData;

use crate::model::Model;

verus! {

/// A typed accessor pair for one field of a model `M`, bound to a fixed slot: `G` reads a
/// value of type `T` from the model and `S` stores one into it.
///
/// Slots are assigned by chaining: [`TrackingProperty::first`] gives slot 0 and every
/// [`TrackingProperty::next`] the slot after its predecessor's, so no caller ever supplies an
/// index.
#[verifier::reject_recursive_types(M)]
#[verifier::reject_recursive_types(T)]
pub struct TrackingProperty<M, T, G, S> {
    index: u16,
    get: G,
    set: S,
    phantom: PhantomData<(M, T)>,
}

impl<M: Model, T, G: Fn(&M) -> T, S: Fn(&mut M, T)> TrackingProperty<M, T, G, S> {
    /// The slot of this property within its property set.
    pub closed spec fn slot(&self) -> nat {
        self.index as nat
    }

    /// The bound getter.
    pub closed spec fn getter(&self) -> G {
        self.get
    }

    /// The bound setter.
    pub closed spec fn setter(&self) -> S {
        self.set
    }

    /// The getter and setter accept every argument: accessors are total.
    pub open spec fn callable(&self) -> bool {
        &&& forall|m: &M| call_requires(self.getter(), (m,))
        &&& forall|m: &mut M, v: T| call_requires(self.setter(), (m, v))
    }

    fn new(index: u16, get: G, set: S) -> (r: Self)
        ensures
            r.slot() == index,
            r.getter() == get,
            r.setter() == set,
    {
        TrackingProperty { index, get, set, phantom: PhantomData }
    }

    /// The first property of a chain, at slot 0.
    pub fn first(getter: G, setter: S) -> (r: Self)
        ensures
            r.slot() == 0,
            r.getter() == getter,
            r.setter() == setter,
    {
        Self::new(0, getter, setter)
    }

    /// The property that follows this one in its chain, at the next slot. Its value type may
    /// differ from this one's.
    pub fn next<U, G2: Fn(&M) -> U, S2: Fn(&mut M, U)>(&self, getter: G2, setter: S2) -> (r:
        TrackingProperty<M, U, G2, S2>)
        requires
            self.slot() < u16::MAX,
        ensures
            r.slot() == self.slot() + 1,
            r.getter() == getter,
            r.setter() == setter,
    {
        TrackingProperty::new(self.index + 1, getter, setter)
    }

    /// Closes the chain at this property: the set counts every slot up to and including this
    /// one.
    pub fn finish_set(&self) -> (r: PropertySet<M::ID>)
        requires
            self.slot() < u16::MAX,
        ensures
            r.count() == self.slot() + 1,
    {
        PropertySet { amount: self.index + 1, phantom: PhantomData }
    }

    /// Applies the getter to `target`.
    pub fn get_value(&self, target: &M) -> (r: T)
        requires
            self.callable(),
        ensures
            call_ensures(self.getter(), (target,), r),
    {
        // Names the getter so that the quantifier of `callable` applies to this call.
        assert(self.getter() == self.get);
        (self.get)(target)
    }

    /// Applies the setter to `target` with `new_value`.
    pub fn set_value(&self, target: &mut M, new_value: T)
        requires
            self.callable(),
        ensures
            exists|m: &mut M|
                call_ensures(self.setter(), (m, new_value), ())
                    && mut_ref_current(m) == *old(target)
                    && mut_ref_future(m) == *final(target),
    {
        // Names the setter so that the quantifier of `callable` applies to this call.
        assert(self.setter() == self.set);
        (self.set)(target, new_value)
    }

    /// The slot of this property.
    pub fn index(&self) -> (r: u16)
        ensures
            r == self.slot(),
    {
        self.index
    }
}

/// The finalized number of property slots of one model shape.
#[verifier::reject_recursive_types(I)]
pub struct PropertySet<I> {
    amount: u16,
    phantom: PhantomData<I>,
}

impl<I> PropertySet<I> {
    pub closed spec fn count(&self) -> nat {
        self.amount as nat
    }

    /// The number of slots.
    pub fn amount(&self) -> (r: u16)
        ensures
            r == self.count(),
    {
        self.amount
    }
}

/// A fixed-length sequence of per-property states, one slot for each property of a set.
///
/// Its length is set at construction from a [`PropertySet`] and never changes.
#[verifier::reject_recursive_types(I)]
pub struct PropertyStateMap<I, V> {
    states: Vec<V>,
    phantom: PhantomData<I>,
}

impl<I, V> View for PropertyStateMap<I, V> {
    type V = Seq<V>;

    closed spec fn view(&self) -> Seq<V> {
        self.states@
    }
}

impl<I: 'static, V: Clone> PropertyStateMap<I, V> {
    /// A map with one slot for each property of `set`, each holding a clone of
    /// `default_state`.
    pub fn new(set: &PropertySet<I>, default_state: &V) -> (r: Self)
        ensures
            r@.len() == set.count(),
            forall|i: int| 0 <= i < r@.len() ==> cloned(*default_state, #[trigger] r@[i]),
    {
        let n = set.amount as usize;
        let mut states: Vec<V> = Vec::new();
        while states.len() < n
            invariant
                n == set.count(),
                states@.len() <= n,
                forall|i: int| 0 <= i < states@.len() ==> cloned(*default_state, #[trigger] states@[i]),
            decreases n - states@.len(),
        {
            states.push(default_state.clone());
        }
        PropertyStateMap { states, phantom: PhantomData }
    }

    /// Overwrites the slot of `property` with a clone of `new_state`.
    pub fn set_state<T, M: Model<ID = I>, G: Fn(&M) -> T, S: Fn(&mut M, T)>(
        &mut self,
        property: &TrackingProperty<M, T, G, S>,
        new_state: &V,
    )
        requires
            property.slot() < old(self)@.len(),
        ensures
            final(self)@.len() == old(self)@.len(),
            cloned(*new_state, final(self)@[property.slot() as int]),
            forall|i: int|
                0 <= i < old(self)@.len() && i != property.slot() ==> final(self)@[i]
                    == old(self)@[i],
    {
        self.states.set(property.index as usize, new_state.clone());
    }

    /// A clone of the state held in the slot of `property`.
    pub fn get_state<T, M: Model<ID = I>, G: Fn(&M) -> T, S: Fn(&mut M, T)>(
        &self,
        property: &TrackingProperty<M, T, G, S>,
    ) -> (r: V)
        requires
            property.slot() < self@.len(),
        ensures
            cloned(self@[property.slot() as int], r),
    {
        self.states[property.index as usize].clone()
    }

    /// Overwrites every slot with a clone of `value`.
    pub fn fill(&mut self, value: &V)
        ensures
            final(self)@.len() == old(self)@.len(),
            forall|i: int| 0 <= i < final(self)@.len() ==> cloned(*value, #[trigger] final(self)@[i]),
    {
        let n = self.states.len();
        let mut index: usize = 0;
        while index < n
            invariant
                n == self.states@.len(),
                n == old(self)@.len(),
                index <= n,
                forall|i: int| 0 <= i < index ==> cloned(*value, #[trigger] self.states@[i]),
            decreases n - index,
        {
            self.states.set(index, value.clone());
            index = index + 1;
        }
    }

    /// The number of slots.
    pub fn len(&self) -> (r: usize)
        ensures
            r == self@.len(),
    {
        self.states.len()
    }
}

} // verus!
