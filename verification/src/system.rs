//! The block counter and the notification sink.
//!
//! The registry depends on its environment for the current chain height —
//! monotonically non-decreasing across a serial schedule — and for a
//! fire-and-forget event sink whose ordering matches call ordering. Both
//! live here.

use vstd::prelude::*;

use crate::pallet::Event;
use crate::BlockNumber;

verus! {

/// Chain height plus the events deposited so far, in call order.
pub struct System {
    block_number: BlockNumber,
    events: Vec<Event>,
}

impl System {
    pub closed spec fn spec_block_number(self) -> BlockNumber {
        self.block_number
    }

    pub closed spec fn spec_events(self) -> Seq<Event> {
        self.events@
    }

    /// Genesis: height zero, no events.
    pub fn new() -> (r: System)
        ensures
            r.spec_block_number() == 0,
            r.spec_events() =~= Seq::<Event>::empty(),
    {
        System { block_number: 0, events: Vec::new() }
    }

    /// The current chain height.
    pub fn block_number(&self) -> (r: BlockNumber)
        ensures
            r == self.spec_block_number(),
    {
        self.block_number
    }

    /// Advance the chain to height `n`; the clock never goes backwards.
    pub fn set_block_number(&mut self, n: BlockNumber)
        requires
            n >= old(self).spec_block_number(),
        ensures
            final(self).spec_block_number() == n,
            final(self).spec_events() == old(self).spec_events(),
    {
        self.block_number = n;
    }

    /// The events deposited so far, oldest first.
    pub fn events(&self) -> (r: &Vec<Event>)
        ensures
            r@ == self.spec_events(),
    {
        &self.events
    }

    pub(crate) fn deposit_event(&mut self, event: Event)
        ensures
            final(self).spec_events() == old(self).spec_events().push(event),
            final(self).spec_block_number() == old(self).spec_block_number(),
    {
        self.events.push(event);
    }
}

} // verus!
