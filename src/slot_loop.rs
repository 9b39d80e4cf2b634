use crate::clock::SlotClock;
use vstd::prelude::*;

verus! {

/// The state that the slot-notification loop threads through its
/// iterations: the latest epoch it has seen.
#[derive(Debug, Clone, Copy, PartialEq, Eq, Structural)]
pub struct EpochTracker {
    pub current_epoch: u64,
}

/// The epoch a tracker that started at `start` holds after the first `n`
/// slots of `slots`.
pub open spec fn epoch_after(clock: SlotClock, start: u64, slots: Seq<u64>, n: nat) -> u64
    decreases n,
{
    if n == 0 {
        start
    } else {
        let prev = epoch_after(clock, start, slots, (n - 1) as nat);
        let e = clock.epoch_of(slots[n - 1]);
        if e > prev {
            e
        } else {
            prev
        }
    }
}

/// Whether slot `i` of `slots` is reported as the first slot of a new epoch.
pub open spec fn flag_at(clock: SlotClock, start: u64, slots: Seq<u64>, i: int) -> bool {
    clock.epoch_of(slots[i]) > epoch_after(clock, start, slots, i as nat)
}

pub open spec fn strictly_increasing(slots: Seq<u64>) -> bool {
    forall|i: int, j: int| 0 <= i < j < slots.len() ==> slots[i] < slots[j]
}

impl EpochTracker {
    pub fn new(current_epoch: u64) -> (r: EpochTracker)
        ensures
            r.current_epoch == current_epoch,
    {
        EpochTracker { current_epoch }
    }

    /// Takes the next slot of the stream and says whether it opens a new
    /// epoch. The flag holds for this slot alone: the next slot is judged
    /// afresh against the updated epoch.
    pub fn on_slot(&mut self, clock: &SlotClock, slot: u64) -> (is_new_epoch: bool)
        requires
            clock.wf(),
        ensures
            is_new_epoch == (clock.epoch_of(slot) > old(self).current_epoch),
            final(self).current_epoch == if is_new_epoch {
                clock.epoch_of(slot)
            } else {
                old(self).current_epoch
            },
    {
        let epoch = clock.epoch_for(slot);
        if epoch > self.current_epoch {
            self.current_epoch = epoch;
            true
        } else {
            false
        }
    }
}

/// One step of the tracked epoch, the update that `on_slot` makes: it moves
/// to the slot's epoch exactly when the slot is flagged, and stays otherwise.
pub proof fn lemma_epoch_after_step(clock: SlotClock, start: u64, slots: Seq<u64>, i: int)
    requires
        0 <= i < slots.len(),
    ensures
        epoch_after(clock, start, slots, (i + 1) as nat) == if flag_at(clock, start, slots, i) {
            clock.epoch_of(slots[i])
        } else {
            epoch_after(clock, start, slots, i as nat)
        },
{
}

proof fn lemma_epochs_ordered(clock: SlotClock, slots: Seq<u64>, i: int, j: int)
    requires
        clock.wf(),
        strictly_increasing(slots),
        0 <= i <= j < slots.len(),
    ensures
        clock.epoch_of(slots[i]) <= clock.epoch_of(slots[j]),
{
    vstd::arithmetic::div_mod::lemma_div_is_ordered(
        slots[i] as int,
        slots[j] as int,
        clock.slots_per_epoch as int,
    );
}

/// On increasing slots the tracked epoch is the start epoch or the epoch of
/// the previous slot, whichever is later.
proof fn lemma_epoch_after_prev(clock: SlotClock, start: u64, slots: Seq<u64>, n: nat)
    requires
        clock.wf(),
        strictly_increasing(slots),
        0 < n <= slots.len(),
    ensures
        epoch_after(clock, start, slots, n) == if clock.epoch_of(slots[n - 1]) > start {
            clock.epoch_of(slots[n - 1])
        } else {
            start
        },
    decreases n,
{
    if n > 1 {
        lemma_epoch_after_prev(clock, start, slots, (n - 1) as nat);
        lemma_epochs_ordered(clock, slots, n - 2, n - 1);
    } else {
        assert(epoch_after(clock, start, slots, 0) == start);
    }
}

/// For increasing slots, a slot is flagged exactly when its epoch is later
/// than the start epoch and than the previous slot's epoch; no two flagged
/// slots share an epoch; and every epoch after the start that the stream
/// reaches has a flagged slot, the first slot of it that the stream holds.
pub proof fn lemma_epoch_flags(clock: SlotClock, start: u64, slots: Seq<u64>)
    requires
        clock.wf(),
        strictly_increasing(slots),
    ensures
        forall|i: int|
            0 <= i < slots.len() ==> (flag_at(clock, start, slots, i) <==> (clock.epoch_of(
                slots[i],
            ) > start && (i == 0 || clock.epoch_of(slots[i]) > clock.epoch_of(slots[i - 1])))),
        forall|i: int, j: int|
            0 <= i < slots.len() && 0 <= j < slots.len() && flag_at(clock, start, slots, i)
                && flag_at(clock, start, slots, j) && clock.epoch_of(slots[i]) == clock.epoch_of(
                slots[j],
            ) ==> i == j,
        forall|i: int|
            #![trigger slots[i]]
            0 <= i < slots.len() && clock.epoch_of(slots[i]) > start ==> exists|j: int|
                0 <= j <= i && flag_at(clock, start, slots, j) && clock.epoch_of(slots[j])
                    == clock.epoch_of(slots[i]) && (forall|k: int|
                    0 <= k < j ==> clock.epoch_of(slots[k]) < clock.epoch_of(slots[j])),
{
    assert forall|i: int| 0 <= i < slots.len() implies (flag_at(clock, start, slots, i) <==> (
    clock.epoch_of(slots[i]) > start && (i == 0 || clock.epoch_of(slots[i]) > clock.epoch_of(
        slots[i - 1],
    )))) by {
        if i > 0 {
            lemma_epoch_after_prev(clock, start, slots, i as nat);
        }
    }
    assert forall|i: int, j: int|
        0 <= i < slots.len() && 0 <= j < slots.len() && flag_at(clock, start, slots, i)
            && flag_at(clock, start, slots, j) && clock.epoch_of(slots[i]) == clock.epoch_of(
            slots[j],
        ) implies i == j by {
        if i < j {
            lemma_epoch_after_prev(clock, start, slots, j as nat);
            lemma_epochs_ordered(clock, slots, i, j - 1);
        } else if j < i {
            lemma_epoch_after_prev(clock, start, slots, i as nat);
            lemma_epochs_ordered(clock, slots, j, i - 1);
        }
    }
    assert forall|i: int|
        #![trigger slots[i]]
        0 <= i < slots.len() && clock.epoch_of(slots[i]) > start implies exists|j: int|
            0 <= j <= i && flag_at(clock, start, slots, j) && clock.epoch_of(slots[j])
                == clock.epoch_of(slots[i]) && (forall|k: int|
                0 <= k < j ==> clock.epoch_of(slots[k]) < clock.epoch_of(slots[j])) by {
        lemma_first_of_epoch(clock, start, slots, i);
    }
}

proof fn lemma_first_of_epoch(clock: SlotClock, start: u64, slots: Seq<u64>, i: int)
    requires
        clock.wf(),
        strictly_increasing(slots),
        0 <= i < slots.len(),
        clock.epoch_of(slots[i]) > start,
    ensures
        exists|j: int|
            0 <= j <= i && flag_at(clock, start, slots, j) && clock.epoch_of(slots[j])
                == clock.epoch_of(slots[i]) && (forall|k: int|
                0 <= k < j ==> clock.epoch_of(slots[k]) < clock.epoch_of(slots[j])),
    decreases i,
{
    if i == 0 {
        assert(flag_at(clock, start, slots, 0));
    } else {
        lemma_epoch_after_prev(clock, start, slots, i as nat);
        lemma_epochs_ordered(clock, slots, i - 1, i);
        if clock.epoch_of(slots[i - 1]) == clock.epoch_of(slots[i]) {
            lemma_first_of_epoch(clock, start, slots, i - 1);
        } else {
            assert forall|k: int| 0 <= k < i implies clock.epoch_of(slots[k]) < clock.epoch_of(
                slots[i],
            ) by {
                lemma_epochs_ordered(clock, slots, k, i - 1);
            }
            assert(flag_at(clock, start, slots, i));
        }
    }
}

} // verus!
