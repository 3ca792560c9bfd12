//! The result publisher.
//!
//! Snapshots flow to a single downstream consumer through a latest-wins
//! mailbox: after every slice that reported a change the freshest snapshot
//! is staged, superseding any unconsumed one, so the publisher never blocks
//! the ranking loop.  Intermediate snapshots may be lost; the snapshot of a
//! completed, uninterrupted pass stays staged until the consumer takes it.

use vstd::prelude::*;

use crate::engine::{RankedSnapshot, SnapshotModel};
use crate::scheduler::SliceReport;

verus! {

/// The mathematical content of the publisher: the staged snapshot, if any.
pub ghost struct PublisherModel {
    pub slot: Option<SnapshotModel>,
}

/// A latest-wins mailbox of ranking snapshots.
pub struct Publisher {
    slot: Option<RankedSnapshot>,
}

impl View for Publisher {
    type V = PublisherModel;

    closed spec fn view(&self) -> PublisherModel {
        PublisherModel {
            slot: match self.slot {
                Some(s) => Some(s@),
                None => None,
            },
        }
    }
}

impl Publisher {
    /// An empty mailbox.
    pub fn new() -> (r: Publisher)
        ensures
            r@.slot is None,
    {
        Publisher { slot: None }
    }

    /// After a slice that reported a change, stage its snapshot; it
    /// supersedes any unconsumed one.  A slice without change stages
    /// nothing.
    pub fn offer(&mut self, rep: &SliceReport, snap: RankedSnapshot)
        ensures
            final(self)@.slot == if rep.changed {
                Some(snap@)
            } else {
                old(self)@.slot
            },
    {
        if rep.changed {
            self.slot = Some(snap);
        }
    }

    /// The consumer takes the freshest staged snapshot, if any.
    pub fn take(&mut self) -> (r: Option<RankedSnapshot>)
        ensures
            final(self)@.slot is None,
            match r {
                Some(s) => old(self)@.slot == Some(s@),
                None => old(self)@.slot is None,
            },
    {
        self.slot.take()
    }
}

} // verus!
