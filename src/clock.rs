use vstd::prelude::*;

verus! {

/// A slot clock: slots are counted from genesis in fixed intervals, and a
/// fixed number of consecutive slots makes an epoch.
#[derive(Debug, Clone, Copy, PartialEq, Eq, Structural)]
pub struct SlotClock {
    pub genesis_time: u64,
    pub seconds_per_slot: u64,
    pub slots_per_epoch: u64,
}

impl SlotClock {
    /// Both intervals are non-zero.
    pub open spec fn wf(&self) -> bool {
        self.seconds_per_slot > 0 && self.slots_per_epoch > 0
    }

    /// The epoch that a slot belongs to.
    pub open spec fn epoch_of(&self, slot: u64) -> u64 {
        (slot / self.slots_per_epoch) as u64
    }

    /// The slot in progress at a time (in seconds), or `None` before genesis.
    pub open spec fn slot_at_spec(&self, now: u64) -> Option<u64> {
        if now < self.genesis_time {
            None
        } else {
            Some(((now - self.genesis_time) / self.seconds_per_slot as int) as u64)
        }
    }

    pub fn new(genesis_time: u64, seconds_per_slot: u64, slots_per_epoch: u64) -> (r: SlotClock)
        requires
            seconds_per_slot > 0,
            slots_per_epoch > 0,
        ensures
            r.wf(),
            r == (SlotClock { genesis_time, seconds_per_slot, slots_per_epoch }),
    {
        SlotClock { genesis_time, seconds_per_slot, slots_per_epoch }
    }

    /// The clock that a chain context carries, or else one that starts at
    /// the network's typical genesis time with the context's intervals.
    pub fn resolve(
        embedded: Option<SlotClock>,
        typical_genesis_time: u64,
        seconds_per_slot: u64,
        slots_per_epoch: u64,
    ) -> (r: SlotClock)
        requires
            seconds_per_slot > 0,
            slots_per_epoch > 0,
            embedded matches Some(c) ==> c.wf(),
        ensures
            r.wf(),
            r == match embedded {
                Some(c) => c,
                None => SlotClock {
                    genesis_time: typical_genesis_time,
                    seconds_per_slot,
                    slots_per_epoch,
                },
            },
    {
        match embedded {
            Some(c) => c,
            None => SlotClock::new(typical_genesis_time, seconds_per_slot, slots_per_epoch),
        }
    }

    pub fn epoch_for(&self, slot: u64) -> (r: u64)
        requires
            self.wf(),
        ensures
            r == self.epoch_of(slot),
    {
        slot / self.slots_per_epoch
    }

    pub fn slot_at(&self, now: u64) -> (r: Option<u64>)
        requires
            self.wf(),
        ensures
            r == self.slot_at_spec(now),
    {
        if now < self.genesis_time {
            None
        } else {
            Some((now - self.genesis_time) / self.seconds_per_slot)
        }
    }

    /// The epoch in progress at a time, or `None` before genesis.
    pub fn current_epoch(&self, now: u64) -> (r: Option<u64>)
        requires
            self.wf(),
        ensures
            r == match self.slot_at_spec(now) {
                Some(s) => Some(self.epoch_of(s)),
                None => None::<u64>,
            },
    {
        match self.slot_at(now) {
            Some(s) => Some(self.epoch_for(s)),
            None => None,
        }
    }
}

} // verus!
