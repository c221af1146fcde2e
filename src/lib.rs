//! Change tracking for plain data records.
//!
//! A record type ("model") exposes a fixed chain of typed properties, each bound to a slot
//! index. A [`Store`] wraps one model value and remembers which properties were read and which
//! were changed from outside since the last reset, calling a notification callback once per
//! batch of outside changes.

mod laws;
mod model;
mod property;
mod store;
mod tracking;

pub use laws::{
    any_change, apply, change_seen, epochs_opened, lemma_calls_follow_run, lemma_chain_slots,
    lemma_change_persists, lemma_change_visible, lemma_change_visible_until_reset, lemma_epoch_notifies_once,
    lemma_notification_batching, lemma_notifications_count_epochs, lemma_property_chain,
    lemma_read_isolation, lemma_reset_complete, lemma_reset_renews_notification,
    lemma_reset_then_reads, no_reset, reads_only, receive_all, run, slots_below, StoreOp,
};
pub use model::Model;
pub use property::{PropertySet, PropertyStateMap, TrackingProperty};
pub use store::{Store, StoreView};
pub use tracking::{all_clear, ChangeTracker, ReadTracker};
