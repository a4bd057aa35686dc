//! Waiting until the local replica of the document is complete.
//!
//! A node that has joined first receives the keys of the entries, and then their values. The
//! wait is over when the keys are there and, after that, all pending values have arrived.

use vstd::prelude::*;

verus! {

/// What the subscription to the document says.
#[derive(Debug, Clone, Copy, PartialEq, Eq, Structural)]
pub enum SyncEvent {
    /// A synchronisation with another node has finished: the keys are there.
    SyncFinished,
    /// All values that were pending have arrived.
    PendingContentReady,
    /// Anything else.
    Other,
    /// The subscription reports an error.
    Error,
    /// The subscription has ended.
    Ended,
}

/// How the wait stands.
#[derive(Debug, Clone, Copy, PartialEq, Eq, Structural)]
pub enum SyncProgress {
    /// There is more to come.
    Waiting,
    /// The document is complete.
    Complete,
    /// The subscription has ended before the document was complete.
    GaveUp,
}

/// A wait for the document to be complete.
pub struct SyncWait {
    got_sync_finished: bool,
}

impl View for SyncWait {
    type V = bool;

    /// Whether the keys are there.
    closed spec fn view(&self) -> bool {
        self.got_sync_finished
    }
}

/// Whether the keys are there after `event`, if `keys_ready` says so before.
pub open spec fn keys_ready_step(keys_ready: bool, event: SyncEvent) -> bool {
    keys_ready || event == SyncEvent::SyncFinished
}

/// Whether the keys are there after some events.
pub open spec fn keys_ready_after(events: Seq<SyncEvent>) -> bool
    decreases events.len(),
{
    if events.len() == 0 {
        false
    } else {
        keys_ready_step(keys_ready_after(events.drop_last()), events.last())
    }
}

/// How the wait stands after `event`, if `keys_ready` says whether the keys were there before.
pub open spec fn progress_after(keys_ready: bool, event: SyncEvent) -> SyncProgress {
    match event {
        SyncEvent::PendingContentReady => if keys_ready {
            SyncProgress::Complete
        } else {
            SyncProgress::Waiting
        },
        SyncEvent::Ended => SyncProgress::GaveUp,
        _ => SyncProgress::Waiting,
    }
}

impl SyncWait {
    /// A wait that has just begun.
    pub fn new() -> (wait: SyncWait)
        ensures
            wait@ == keys_ready_after(Seq::empty()),
    {
        SyncWait { got_sync_finished: false }
    }

    /// Takes note of an event, and says how the wait stands.
    pub fn observe(&mut self, event: SyncEvent) -> (progress: SyncProgress)
        ensures
            final(self)@ == keys_ready_step(old(self)@, event),
            progress == progress_after(old(self)@, event),
    {
        match event {
            SyncEvent::SyncFinished => {
                self.got_sync_finished = true;
                SyncProgress::Waiting
            },
            SyncEvent::PendingContentReady => {
                if self.got_sync_finished {
                    SyncProgress::Complete
                } else {
                    SyncProgress::Waiting
                }
            },
            SyncEvent::Other => SyncProgress::Waiting,
            SyncEvent::Error => SyncProgress::Waiting,
            SyncEvent::Ended => SyncProgress::GaveUp,
        }
    }
}

/// Whether an event that came during the wait is handed on to those who watch the document
/// afterwards.
pub fn is_handed_on(event: SyncEvent) -> (kept: bool)
    ensures
        kept == !(event is Error || event is Ended),
{
    match event {
        SyncEvent::SyncFinished => true,
        SyncEvent::PendingContentReady => true,
        SyncEvent::Other => true,
        SyncEvent::Error => false,
        SyncEvent::Ended => false,
    }
}

/// The document counts as complete exactly when all pending values have arrived and a
/// synchronisation has finished before; neither alone is enough, and errors do not matter. The
/// wait is given up exactly when the subscription ends.
pub proof fn completion_needs_keys_and_values(before: Seq<SyncEvent>, event: SyncEvent)
    ensures
        progress_after(keys_ready_after(before), event) is Complete <==> event
            is PendingContentReady && before.contains(SyncEvent::SyncFinished),
        progress_after(keys_ready_after(before), event) is GaveUp <==> event is Ended,
    decreases before.len(),
{
    if before.len() > 0 {
        let shorter = before.drop_last();
        completion_needs_keys_and_values(shorter, SyncEvent::PendingContentReady);
        assert(before[before.len() - 1] == before.last());
        if shorter.contains(SyncEvent::SyncFinished) {
            let k = choose|k: int| 0 <= k < shorter.len() && shorter[k] == SyncEvent::SyncFinished;
            assert(before[k] == SyncEvent::SyncFinished);
        }
        if before.contains(SyncEvent::SyncFinished) && before.last() != SyncEvent::SyncFinished {
            let k = choose|k: int| 0 <= k < before.len() && before[k] == SyncEvent::SyncFinished;
            assert(shorter[k] == SyncEvent::SyncFinished);
        }
    }
}

} // verus!
