//! Debouncing of filesystem change events.
//!
//! The shell watches the pipeline's backing directory and reports raw change
//! events here; the debouncer collapses a burst of events into a single
//! change notification once the directory has been quiet for the configured
//! interval. The notification becomes an `FsChanged` control message for the
//! controller.

use vstd::prelude::*;

verus! {

/// Collapses bursts of raw filesystem events into single notifications.
pub struct Debouncer {
    /// How long the directory must stay quiet before a pending burst is
    /// reported, in the shell's clock units.
    pub quiet: u64,
    /// Whether an unreported event burst is pending.
    pub pending: bool,
    /// The time of the last raw event of the pending burst; meaningful only
    /// while `pending` holds.
    pub last_event: u64,
}

impl Debouncer {
    pub fn new(quiet: u64) -> (d: Debouncer)
        ensures
            d.quiet == quiet,
            !d.pending,
    {
        Debouncer { quiet, pending: false, last_event: 0 }
    }

    /// Records one raw filesystem event observed at time `now`.
    ///
    /// The event joins the pending burst and restarts the quiet interval; it
    /// is never reported on its own.
    pub fn note_event(&mut self, now: u64)
        ensures
            final(self).quiet == old(self).quiet,
            final(self).pending,
            final(self).last_event == now,
    {
        self.pending = true;
        self.last_event = now;
    }

    /// One poll tick at time `now`: decides whether the pending burst is
    /// reported as a single change notification.
    ///
    /// Reports exactly when a burst is pending and its last event lies at
    /// least the quiet interval in the past; the burst is then cleared, so a
    /// second poll reports nothing until a new event arrives.
    pub fn poll(&mut self, now: u64) -> (notify: bool)
        ensures
            notify == (old(self).pending && now >= old(self).last_event + old(self).quiet),
            final(self).quiet == old(self).quiet,
            final(self).pending == (old(self).pending && !notify),
            final(self).last_event == old(self).last_event,
    {
        if self.pending && now >= self.last_event && now - self.last_event >= self.quiet {
            self.pending = false;
            true
        } else {
            false
        }
    }
}

} // verus!
