use vstd::prelude::*;

verus! {

/// The highest slot the pipeline has observed so far.
///
/// The ingestion worker is the only writer; the status endpoint reads the
/// value concurrently. Observing a slot lower than the current value leaves
/// the watermark unchanged, so the value never moves backward.
pub struct Watermark {
    slot: u64,
}

/// The slot a watermark at `current` holds after one notification for `slot`.
pub open spec fn spec_observe(current: u64, slot: u64) -> u64 {
    if slot > current {
        slot
    } else {
        current
    }
}

/// The slot a watermark at `current` holds after a whole run of notifications.
pub open spec fn spec_observe_all(current: u64, slots: Seq<u64>) -> u64
    decreases slots.len(),
{
    if slots.len() == 0 {
        current
    } else {
        spec_observe_all(spec_observe(current, slots[0]), slots.skip(1))
    }
}

impl Watermark {
    pub closed spec fn view(&self) -> u64 {
        self.slot
    }

    pub fn new(start_slot: u64) -> (w: Self)
        ensures
            w@ == start_slot,
    {
        Watermark { slot: start_slot }
    }

    /// The last indexed slot, as the status endpoint reports it.
    pub fn current(&self) -> (s: u64)
        ensures
            s == self@,
    {
        self.slot
    }

    /// Advance to `slot` if it is higher than the current value; otherwise
    /// keep the current value.
    pub fn observe(&mut self, slot: u64)
        ensures
            final(self)@ == spec_observe(old(self)@, slot),
    {
        if slot > self.slot {
            self.slot = slot;
        }
    }
}

/// How far the mirror lags the chain tip, saturating at zero when the stored
/// watermark is already at or past the tip.
pub fn slots_behind(latest_blockchain_slot: u64, last_indexed_slot: u64) -> (behind: u64)
    ensures
        behind == if latest_blockchain_slot >= last_indexed_slot {
            latest_blockchain_slot - last_indexed_slot
        } else {
            0int
        },
{
    if latest_blockchain_slot >= last_indexed_slot {
        latest_blockchain_slot - last_indexed_slot
    } else {
        0
    }
}

/// Law: whatever the order of notifications (out of order or duplicated), the
/// watermark never drops below its start value, ends at or above every slot it
/// observed, and its final value is either the start value or one of the
/// observed slots — that is, the maximum of them all.
pub proof fn lemma_watermark_is_running_maximum(current: u64, slots: Seq<u64>)
    ensures
        spec_observe_all(current, slots) >= current,
        forall|i: int| 0 <= i < slots.len() ==> spec_observe_all(current, slots) >= slots[i],
        spec_observe_all(current, slots) == current || exists|i: int|
            0 <= i < slots.len() && spec_observe_all(current, slots) == slots[i],
    decreases slots.len(),
{
    if slots.len() > 0 {
        let next = spec_observe(current, slots[0]);
        lemma_watermark_is_running_maximum(next, slots.skip(1));
        assert forall|i: int| 0 <= i < slots.len() implies spec_observe_all(current, slots)
            >= slots[i] by {
            if i > 0 {
                assert(slots.skip(1)[i - 1] == slots[i]);
            }
        }
        if spec_observe_all(next, slots.skip(1)) != next {
            let j = choose|j: int|
                0 <= j < slots.skip(1).len() && spec_observe_all(next, slots.skip(1)) == slots.skip(
                    1,
                )[j];
            assert(slots[j + 1] == slots.skip(1)[j]);
        }
    }
}

/// Law: the watermark is monotonically non-decreasing over the run — after
/// more notifications it is never lower than after fewer.
pub proof fn lemma_watermark_monotonic(current: u64, slots: Seq<u64>, i: int, j: int)
    requires
        0 <= i <= j <= slots.len(),
    ensures
        spec_observe_all(current, slots.take(i)) <= spec_observe_all(current, slots.take(j)),
    decreases slots.len(),
{
    if i > 0 {
        assert(slots.take(i)[0] == slots[0]);
        assert(slots.take(j)[0] == slots[0]);
        assert(slots.take(i).skip(1) =~= slots.skip(1).take(i - 1));
        assert(slots.take(j).skip(1) =~= slots.skip(1).take(j - 1));
        lemma_watermark_monotonic(spec_observe(current, slots[0]), slots.skip(1), i - 1, j - 1);
    } else {
        assert(slots.take(0) =~= Seq::<u64>::empty());
        lemma_watermark_runs_upward(current, slots.take(j));
    }
}

/// A run of observations never ends below its start value.
proof fn lemma_watermark_runs_upward(current: u64, slots: Seq<u64>)
    ensures
        spec_observe_all(current, slots) >= current,
    decreases slots.len(),
{
    if slots.len() > 0 {
        lemma_watermark_runs_upward(spec_observe(current, slots[0]), slots.skip(1));
    }
}

} // verus!
