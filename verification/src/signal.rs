//! Handing an edge on a digital input over from the interrupt that sees it
//! to the thread that answers it.
//!
//! The interrupt side only counts: it calls `raise` and returns. The thread
//! side calls `take` when it is scheduled, learns how many edges came since
//! it last asked, and does the work. Edges that come faster than the thread
//! asks are counted, not lost; a count that would pass `MAX_PENDING` stays
//! there.

use vstd::prelude::*;

verus! {

/// The largest number of edges a signal counts between two takes.
pub const MAX_PENDING: u32 = 0xffff_ffff;

/// The count after one more edge: one more, but never beyond `MAX_PENDING`.
pub open spec fn raised(pending: nat) -> nat {
    if pending < MAX_PENDING {
        pending + 1
    } else {
        MAX_PENDING as nat
    }
}

/// The count after `edges` more edges.
pub open spec fn raised_by(pending: nat, edges: nat) -> nat
    decreases edges,
{
    if edges == 0 {
        pending
    } else {
        raised(raised_by(pending, (edges - 1) as nat))
    }
}

/// The edges seen on one input and not yet taken.
#[derive(Debug, PartialEq, Eq)]
pub struct EdgeSignal {
    count: u32,
}

impl EdgeSignal {
    /// The number of edges seen and not yet taken.
    pub closed spec fn pending(&self) -> nat {
        self.count as nat
    }

    /// A signal with no edge pending.
    pub fn new() -> (r: EdgeSignal)
        ensures
            r.pending() == 0,
    {
        EdgeSignal { count: 0 }
    }

    /// A signal with `count` edges pending.
    pub fn with_pending(count: u32) -> (r: EdgeSignal)
        ensures
            r.pending() == count,
    {
        EdgeSignal { count }
    }

    /// Records one edge. This is all the interrupt side does: it neither
    /// waits nor allocates nor touches a device.
    pub fn raise(&mut self)
        ensures
            final(self).pending() == raised(old(self).pending()),
    {
        if self.count < MAX_PENDING {
            self.count = self.count + 1;
        }
    }

    /// Whether an edge is pending.
    pub fn is_pending(&self) -> (r: bool)
        ensures
            r == (self.pending() > 0),
    {
        self.count > 0
    }

    /// Takes every pending edge: returns their number and leaves none.
    pub fn take(&mut self) -> (r: u32)
        ensures
            r == old(self).pending(),
            final(self).pending() == 0,
    {
        let taken: u32 = self.count;
        self.count = 0;
        taken
    }
}

/// Edges are counted up to `MAX_PENDING` and never dropped below it: after
/// `edges` edges the count is the smaller of `pending + edges` and
/// `MAX_PENDING`. So one edge or more, however fast they follow each other,
/// always leaves the signal pending for the next take.
pub proof fn lemma_edges_are_not_missed(pending: nat, edges: nat)
    requires
        pending <= MAX_PENDING,
    ensures
        raised_by(pending, edges) == if pending + edges <= MAX_PENDING {
            pending + edges
        } else {
            MAX_PENDING as nat
        },
        edges > 0 ==> raised_by(pending, edges) > 0,
    decreases edges,
{
    if edges > 0 {
        lemma_edges_are_not_missed(pending, (edges - 1) as nat);
    }
}

} // verus!
