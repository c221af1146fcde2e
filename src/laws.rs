use vstd::prelude::*;

use crate::model::Model;
use crate::property::{PropertySet, TrackingProperty};
use crate::store::StoreView;

verus! {

/// In a chain built by `first` and then `next`, the `k`-th property holds slot `k`, and the
/// set that `finish_set` closes at the last property counts every property of the chain.
///
/// `slots` lists the slots of the chain in declaration order; `count` is what `finish_set`
/// gave at the last one.
pub proof fn lemma_chain_slots(slots: Seq<nat>, count: nat)
    requires
        slots.len() > 0,
        slots[0] == 0,
        forall|k: int| 0 <= k < slots.len() - 1 ==> #[trigger] slots[k + 1] == slots[k] + 1,
        count == slots.last() + 1,
    ensures
        forall|k: int| 0 <= k < slots.len() ==> #[trigger] slots[k] == k,
        count == slots.len(),
{
    assert forall|k: int| 0 <= k < slots.len() implies #[trigger] slots[k] == k by {
        lemma_chain_prefix(slots, k);
    }
}

/// The same law over the properties themselves: for a chain of properties of one type, each
/// built from its predecessor by `next`, the `k`-th holds slot `k`, and the set finished at the
/// last counts the whole chain.
pub proof fn lemma_property_chain<M: Model, T, G: Fn(&M) -> T, S: Fn(&mut M, T)>(
    chain: Seq<TrackingProperty<M, T, G, S>>,
    set: PropertySet<M::ID>,
)
    requires
        chain.len() > 0,
        chain[0].slot() == 0,
        forall|k: int|
            0 <= k < chain.len() - 1 ==> #[trigger] chain[k + 1].slot() == chain[k].slot() + 1,
        set.count() == chain.last().slot() + 1,
    ensures
        forall|k: int| 0 <= k < chain.len() ==> #[trigger] chain[k].slot() == k,
        set.count() == chain.len(),
{
    let slots = chain.map_values(|p: TrackingProperty<M, T, G, S>| p.slot());
    assert forall|k: int| 0 <= k < slots.len() - 1 implies #[trigger] slots[k + 1] == slots[k]
        + 1 by {
        assert(chain[k + 1].slot() == chain[k].slot() + 1);
    }
    lemma_chain_slots(slots, set.count());
    assert forall|k: int| 0 <= k < chain.len() implies #[trigger] chain[k].slot() == k by {
        assert(slots[k] == k);
    }
}

proof fn lemma_chain_prefix(slots: Seq<nat>, k: int)
    requires
        0 <= k < slots.len(),
        slots[0] == 0,
        forall|j: int| 0 <= j < slots.len() - 1 ==> #[trigger] slots[j + 1] == slots[j] + 1,
    ensures
        slots[k] == k,
    decreases k,
{
    if k > 0 {
        lemma_chain_prefix(slots, k - 1);
        assert(slots[(k - 1) + 1] == slots[k - 1] + 1);
    }
}

/// Reading one property never marks another as read, and leaves everything else as it was.
pub proof fn lemma_read_isolation<M>(s: StoreView<M>, a: int, b: int)
    requires
        0 <= a < s.read.len(),
        0 <= b < s.read.len(),
        a != b,
    ensures
        s.read_at(a).read[b] == s.read[b],
        s.read_at(a).changed == s.changed,
        s.read_at(a).model == s.model,
        s.read_at(a).notifications == s.notifications,
{
}

/// The state after the outside changes `steps`, in order, each a slot and the model it left.
pub open spec fn receive_all<M>(s: StoreView<M>, steps: Seq<(int, M)>) -> StoreView<M>
    decreases steps.len(),
{
    if steps.len() == 0 {
        s
    } else {
        receive_all(s, steps.drop_last()).received_at(steps.last().0, steps.last().1)
    }
}

proof fn lemma_receive_all_pending<M>(s: StoreView<M>, steps: Seq<(int, M)>)
    requires
        !s.pending,
    ensures
        steps.len() > 0 ==> receive_all(s, steps).pending,
        receive_all(s, steps).notifications == s.notifications + if steps.len() > 0 {
            1int
        } else {
            0int
        },
    decreases steps.len(),
{
    if steps.len() > 0 {
        lemma_receive_all_pending(s, steps.drop_last());
    }
}

/// In an epoch that starts with no pending notification, the `n`-th outside change calls the
/// callback if and only if `n` is 1.
pub proof fn lemma_notification_batching<M>(s: StoreView<M>, steps: Seq<(int, M)>, n: int)
    requires
        !s.pending,
        1 <= n <= steps.len(),
    ensures
        receive_all(s, steps.take(n)).notifications == receive_all(s, steps.take(n - 1)).notifications
            + if n == 1 {
            1int
        } else {
            0int
        },
{
    assert(steps.take(n).drop_last() =~= steps.take(n - 1));
    lemma_receive_all_pending(s, steps.take(n - 1));
}

/// After a reset the next outside change calls the callback again, whatever came before.
pub proof fn lemma_reset_renews_notification<M>(s: StoreView<M>, slot: int, model: M)
    ensures
        s.forgotten().received_at(slot, model).notifications == s.notifications + 1,
{
}

/// Once a property is changed from outside it counts as changed until the next reset: reads
/// and further outside changes keep it so.
pub proof fn lemma_change_persists<M>(s: StoreView<M>, slot: int, model: M, other: int, later: M)
    requires
        0 <= slot < s.changed.len(),
        0 <= other < s.changed.len(),
        s.read.len() == s.changed.len(),
    ensures
        s.received_at(slot, model).changed[slot],
        s.changed[slot] ==> s.read_at(other).changed[slot],
        s.changed[slot] ==> s.received_at(other, later).changed[slot],
{
}

/// For an accessor pair whose getter returns what its setter stored, a read after an outside
/// change returns the value received.
///
/// `before` and `after` are the model around `receive_change(property, value)`, related as
/// its contract states, and `r` is what `get(property)` returned on `after`.
pub proof fn lemma_change_visible<M: Model, T, G: Fn(&M) -> T, S: Fn(&mut M, T)>(
    property: TrackingProperty<M, T, G, S>,
    before: M,
    after: M,
    value: T,
    r: T,
)
    requires
        forall|m: &mut M, v: T, w: T|
            call_ensures(property.setter(), (m, v), ()) && call_ensures(
                property.getter(),
                (&mut_ref_future(m),),
                w,
            ) ==> w == v,
        exists|m: &mut M|
            call_ensures(property.setter(), (m, value), ())
                && mut_ref_current(m) == before
                && mut_ref_future(m) == after,
        call_ensures(property.getter(), (&after,), r),
    ensures
        r == value,
{
}

/// One call on a store, as far as tracking is concerned.
pub enum StoreOp<M> {
    /// `get` of the property at a slot.
    Read(int),
    /// `receive_change` of the property at a slot, leaving the given model.
    Receive(int, M),
    /// `forget_tracking_state`.
    Forget,
}

/// The state after one call.
pub open spec fn apply<M>(s: StoreView<M>, op: StoreOp<M>) -> StoreView<M> {
    match op {
        StoreOp::Read(slot) => s.read_at(slot),
        StoreOp::Receive(slot, model) => s.received_at(slot, model),
        StoreOp::Forget => s.forgotten(),
    }
}

/// The state after the calls `ops`, in order.
pub open spec fn run<M>(s: StoreView<M>, ops: Seq<StoreOp<M>>) -> StoreView<M>
    decreases ops.len(),
{
    if ops.len() == 0 {
        s
    } else {
        apply(run(s, ops.drop_last()), ops.last())
    }
}

/// Ties the laws over `run` to a store's calls: if `states` records a store's view before the
/// first call and after each call of `ops`, as the calls' contracts give them (`get` is a
/// `Read`, `receive_change` a `Receive`, `forget_tracking_state` a `Forget`, and
/// `received_change` changes nothing), then the last view is `run` of the first.
pub proof fn lemma_calls_follow_run<M>(states: Seq<StoreView<M>>, ops: Seq<StoreOp<M>>)
    requires
        states.len() == ops.len() + 1,
        forall|k: int| 0 <= k < ops.len() ==> #[trigger] states[k + 1] == apply(states[k], ops[k]),
    ensures
        states.last() == run(states[0], ops),
    decreases ops.len(),
{
    if ops.len() > 0 {
        let n = ops.len() - 1;
        assert forall|k: int| 0 <= k < ops.drop_last().len() implies #[trigger] states.drop_last()[k + 1]
            == apply(states.drop_last()[k], ops.drop_last()[k]) by {
            assert(states[k + 1] == apply(states[k], ops[k]));
        }
        lemma_calls_follow_run(states.drop_last(), ops.drop_last());
        assert(states[n + 1] == apply(states[n], ops[n]));
    }
}

/// Whether the epoch current after the first `n` calls of `ops` has seen an outside change;
/// `seen` tells whether the one current before them had.
pub open spec fn change_seen<M>(seen: bool, ops: Seq<StoreOp<M>>, n: int) -> bool
    decreases n,
{
    if n <= 0 {
        seen
    } else {
        match ops[n - 1] {
            StoreOp::Read(_) => change_seen(seen, ops, n - 1),
            StoreOp::Receive(_, _) => true,
            StoreOp::Forget => false,
        }
    }
}

/// How many of the first `n` calls of `ops` were the first outside change of their epoch.
pub open spec fn epochs_opened<M>(seen: bool, ops: Seq<StoreOp<M>>, n: int) -> nat
    decreases n,
{
    if n <= 0 {
        0
    } else {
        epochs_opened(seen, ops, n - 1) + if ops[n - 1] is Receive && !change_seen(
            seen,
            ops,
            n - 1,
        ) {
            1nat
        } else {
            0nat
        }
    }
}

/// Over any sequence of calls, the callback is called once for each epoch that saw an outside
/// change, and the pending flag tells whether the current epoch has seen one.
pub proof fn lemma_notifications_count_epochs<M>(s: StoreView<M>, ops: Seq<StoreOp<M>>)
    ensures
        run(s, ops).notifications == s.notifications + epochs_opened(s.pending, ops, ops.len() as int),
        run(s, ops).pending == change_seen(s.pending, ops, ops.len() as int),
    decreases ops.len(),
{
    if ops.len() > 0 {
        let prefix = ops.drop_last();
        lemma_notifications_count_epochs(s, prefix);
        lemma_epochs_prefix(s.pending, ops, ops.len() - 1);
    }
}

proof fn lemma_epochs_prefix<M>(seen: bool, ops: Seq<StoreOp<M>>, n: int)
    requires
        0 <= n < ops.len(),
    ensures
        change_seen(seen, ops.drop_last(), n) == change_seen(seen, ops, n),
        epochs_opened(seen, ops.drop_last(), n) == epochs_opened(seen, ops, n),
    decreases n,
{
    if n > 0 {
        lemma_epochs_prefix(seen, ops, n - 1);
    }
}

/// Every call of `ops` that names a slot names one below `n`.
pub open spec fn slots_below<M>(ops: Seq<StoreOp<M>>, n: nat) -> bool {
    forall|k: int|
        0 <= k < ops.len() ==> match #[trigger] ops[k] {
            StoreOp::Read(slot) => 0 <= slot < n,
            StoreOp::Receive(slot, _) => 0 <= slot < n,
            StoreOp::Forget => true,
        }
}

/// No call of `ops` is a reset.
pub open spec fn no_reset<M>(ops: Seq<StoreOp<M>>) -> bool {
    forall|k: int| 0 <= k < ops.len() ==> !(#[trigger] ops[k] is Forget)
}

/// Every call of `ops` is a read.
pub open spec fn reads_only<M>(ops: Seq<StoreOp<M>>) -> bool {
    forall|k: int| 0 <= k < ops.len() ==> #[trigger] ops[k] is Read
}

/// Some call of `ops` is an outside change.
pub open spec fn any_change<M>(ops: Seq<StoreOp<M>>) -> bool {
    exists|k: int| 0 <= k < ops.len() && #[trigger] ops[k] is Receive
}

proof fn lemma_run_keeps_lengths<M>(s: StoreView<M>, ops: Seq<StoreOp<M>>)
    requires
        s.read.len() == s.changed.len(),
        slots_below(ops, s.changed.len()),
    ensures
        run(s, ops).read.len() == s.read.len(),
        run(s, ops).changed.len() == s.changed.len(),
    decreases ops.len(),
{
    if ops.len() > 0 {
        let prefix = ops.drop_last();
        assert(slots_below(prefix, s.changed.len())) by {
            assert forall|k: int| 0 <= k < prefix.len() implies match #[trigger] prefix[k] {
                StoreOp::Read(i) => 0 <= i < s.changed.len(),
                StoreOp::Receive(i, _) => 0 <= i < s.changed.len(),
                StoreOp::Forget => true,
            } by {
                assert(prefix[k] == ops[k]);
            }
        }
        lemma_run_keeps_lengths(s, prefix);
        assert(match ops[ops.len() - 1] {
            StoreOp::Read(i) => 0 <= i < s.changed.len(),
            StoreOp::Receive(i, _) => 0 <= i < s.changed.len(),
            StoreOp::Forget => true,
        });
    }
}

/// Within one epoch the callback is called once if the epoch sees an outside change and it
/// had not yet seen one, and never otherwise, whatever reads and changes come in between.
pub proof fn lemma_epoch_notifies_once<M>(s: StoreView<M>, ops: Seq<StoreOp<M>>)
    requires
        no_reset(ops),
    ensures
        run(s, ops).notifications == s.notifications + if !s.pending && any_change(ops) {
            1int
        } else {
            0int
        },
        run(s, ops).pending == (s.pending || any_change(ops)),
    decreases ops.len(),
{
    if ops.len() > 0 {
        let prefix = ops.drop_last();
        assert(no_reset(prefix)) by {
            assert forall|k: int| 0 <= k < prefix.len() implies !(#[trigger] prefix[k] is Forget) by {
                assert(prefix[k] == ops[k]);
            }
        }
        lemma_epoch_notifies_once(s, prefix);
        assert(!(ops[ops.len() - 1] is Forget));
        if any_change(prefix) {
            let k = choose|k: int| 0 <= k < prefix.len() && #[trigger] prefix[k] is Receive;
            assert(ops[k] is Receive);
        }
        if any_change(ops) && !(ops.last() is Receive) {
            let k = choose|k: int| 0 <= k < ops.len() && #[trigger] ops[k] is Receive;
            assert(prefix[k] is Receive);
        }
    }
}

/// Once a property is changed from outside, it counts as changed after any later reads and
/// changes, until the next reset.
pub proof fn lemma_change_visible_until_reset<M>(
    s: StoreView<M>,
    slot: int,
    model: M,
    ops: Seq<StoreOp<M>>,
)
    requires
        s.read.len() == s.changed.len(),
        0 <= slot < s.changed.len(),
        slots_below(ops, s.changed.len()),
        no_reset(ops),
    ensures
        run(s.received_at(slot, model), ops).changed[slot],
    decreases ops.len(),
{
    if ops.len() > 0 {
        let prefix = ops.drop_last();
        assert(no_reset(prefix) && slots_below(prefix, s.changed.len())) by {
            assert forall|k: int| 0 <= k < prefix.len() implies !(#[trigger] prefix[k] is Forget) by {
                assert(prefix[k] == ops[k]);
            }
            assert forall|k: int| 0 <= k < prefix.len() implies match #[trigger] prefix[k] {
                StoreOp::Read(i) => 0 <= i < s.changed.len(),
                StoreOp::Receive(i, _) => 0 <= i < s.changed.len(),
                StoreOp::Forget => true,
            } by {
                assert(prefix[k] == ops[k]);
            }
        }
        lemma_change_visible_until_reset(s, slot, model, prefix);
        lemma_run_keeps_lengths(s.received_at(slot, model), prefix);
        assert(!(ops[ops.len() - 1] is Forget));
        assert(match ops[ops.len() - 1] {
            StoreOp::Read(i) => 0 <= i < s.changed.len(),
            StoreOp::Receive(i, _) => 0 <= i < s.changed.len(),
            StoreOp::Forget => true,
        });
    }
}

/// After a reset followed by reads only, no property counts as changed, nothing is pending,
/// and the next outside change calls the callback once.
pub proof fn lemma_reset_then_reads<M>(s: StoreView<M>, ops: Seq<StoreOp<M>>, slot: int, model: M)
    requires
        reads_only(ops),
    ensures
        forall|i: int| 0 <= i < s.changed.len() ==> !#[trigger] run(s.forgotten(), ops).changed[i],
        run(s.forgotten(), ops).changed.len() == s.changed.len(),
        !run(s.forgotten(), ops).pending,
        run(s.forgotten(), ops).received_at(slot, model).notifications == s.notifications + 1,
    decreases ops.len(),
{
    if ops.len() > 0 {
        let prefix = ops.drop_last();
        assert(reads_only(prefix)) by {
            assert forall|k: int| 0 <= k < prefix.len() implies #[trigger] prefix[k] is Read by {
                assert(prefix[k] == ops[k]);
            }
        }
        lemma_reset_then_reads(s, prefix, slot, model);
        assert(ops[ops.len() - 1] is Read);
    }
}

/// After a reset no property counts as read or changed, whatever the state before.
pub proof fn lemma_reset_complete<M>(s: StoreView<M>, slot: int)
    requires
        0 <= slot < s.changed.len(),
        0 <= slot < s.read.len(),
    ensures
        !s.forgotten().changed[slot],
        !s.forgotten().read[slot],
        !s.forgotten().pending,
        s.forgotten().model == s.model,
{
}

} // verus!
