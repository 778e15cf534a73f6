//! Versioned holder of decoded account state plus the ledger slot at which
//! it was observed.
//!
//! The ledger slot is the authoritative ordering key for account snapshots:
//! an update is applied only when its slot is at least the stored slot, so a
//! stale snapshot that arrives late can never overwrite a fresher one
//! (last-writer-by-slot, not last-writer-by-arrival).

use vstd::prelude::*;

verus! {

/// A decoded account value together with the ledger slot it was observed at.
pub struct DataAndSlot<T> {
    pub data: T,
    pub slot: u64,
}

impl<T: Clone> Clone for DataAndSlot<T> {
    fn clone(&self) -> (r: Self)
        ensures
            r.slot == self.slot,
            vstd::pervasive::cloned::<T>(self.data, r.data),
    {
        DataAndSlot { data: self.data.clone(), slot: self.slot }
    }
}

/// What one `update(data, slot)` call leaves in a cache holding `current`:
/// the new pair when `slot` is fresh enough, the old pair otherwise.
pub open spec fn spec_update<T>(current: DataAndSlot<T>, data: T, slot: u64) -> DataAndSlot<T> {
    if slot >= current.slot {
        DataAndSlot { data, slot }
    } else {
        current
    }
}

/// The state a cache holding `init` reaches after applying a sequence of
/// `(data, slot)` updates in order.
pub open spec fn spec_apply_updates<T>(
    init: DataAndSlot<T>,
    updates: Seq<(T, u64)>,
) -> DataAndSlot<T>
    decreases updates.len(),
{
    if updates.len() == 0 {
        init
    } else {
        spec_apply_updates(
            spec_update(init, updates[0].0, updates[0].1),
            updates.drop_first(),
        )
    }
}

/// The largest slot among `init` and every slot in `updates`.
pub open spec fn spec_max_slot<T>(init: u64, updates: Seq<(T, u64)>) -> u64
    decreases updates.len(),
{
    if updates.len() == 0 {
        init
    } else if updates[0].1 >= init {
        spec_max_slot(updates[0].1, updates.drop_first())
    } else {
        spec_max_slot(init, updates.drop_first())
    }
}

/// Slot-monotonic cache for one account's state.
///
/// Owned exclusively by the subscriber that updates it; callers that share it
/// across tasks wrap it in their own reader/writer lock and hold the lock
/// only for the duration of the swap.
pub struct SlotCache<T> {
    current: DataAndSlot<T>,
}

impl<T> SlotCache<T> {
    /// The pair currently stored.
    pub closed spec fn view(self) -> DataAndSlot<T> {
        self.current
    }

    /// Creates a cache seeded with an initial snapshot.
    pub fn new(data: T, slot: u64) -> (r: Self)
        ensures
            r@ == (DataAndSlot { data, slot }),
    {
        SlotCache { current: DataAndSlot { data, slot } }
    }

    /// Applies `(data, slot)` if `slot` is at least the stored slot; a stale
    /// update (older slot) is dropped silently as a deliberate no-op.
    pub fn update(&mut self, data: T, slot: u64)
        ensures
            final(self)@ == spec_update(old(self)@, data, slot),
    {
        if slot >= self.current.slot {
            self.current = DataAndSlot { data, slot };
        }
    }

    /// Returns the stored pair; `data` and `slot` are always read together,
    /// so a reader never observes a torn pair.
    pub fn read(&self) -> (r: &DataAndSlot<T>)
        ensures
            *r == self@,
    {
        &self.current
    }

    /// The slot of the stored pair.
    pub fn slot(&self) -> (r: u64)
        ensures
            r == self@.slot,
    {
        self.current.slot
    }
}

/// After any sequence of updates, the stored slot is exactly the largest slot
/// ever passed in (or the seed slot, when that is larger still).
pub proof fn lemma_final_slot_is_max<T>(init: DataAndSlot<T>, updates: Seq<(T, u64)>)
    ensures
        spec_apply_updates(init, updates).slot == spec_max_slot(init.slot, updates),
    decreases updates.len(),
{
    if updates.len() > 0 {
        lemma_final_slot_is_max(
            spec_update(init, updates[0].0, updates[0].1),
            updates.drop_first(),
        );
    }
}

/// An update whose slot is below the stored slot changes neither the stored
/// data nor the stored slot.
pub proof fn lemma_stale_update_is_dropped<T>(current: DataAndSlot<T>, data: T, slot: u64)
    requires
        slot < current.slot,
    ensures
        spec_update(current, data, slot) == current,
{
}

} // verus!
