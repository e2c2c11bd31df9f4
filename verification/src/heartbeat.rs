//! Heartbeat tracking and idle-shutdown detection.
//!
//! The gateway keeps one shared "last activity" timestamp that request
//! handlers advance (the shell stores it behind an atomic; the update rule
//! itself is verified here) and a monitor that polls it periodically and
//! signals an idle timeout at most once.

use vstd::prelude::*;

verus! {

/// The last observed activity timestamp, in the shell's clock units.
///
/// Concurrent writers race on which update is applied first, but every
/// accepted update goes through [`Heartbeat::ping`], so the recorded value
/// never moves backwards whatever the interleaving.
pub struct Heartbeat {
    pub last: u64,
}

/// The timestamp the heartbeat records after one ping: it advances to `now`
/// or stays put, never regresses.
pub open spec fn ping_value(last: u64, now: u64) -> u64 {
    if now >= last {
        now
    } else {
        last
    }
}

/// The timestamp recorded after a whole sequence of pings, in the order the
/// shared state serializes them.
pub open spec fn last_after(last: u64, nows: Seq<u64>) -> u64
    decreases nows.len(),
{
    if nows.len() == 0 {
        last
    } else {
        last_after(ping_value(last, nows[0]), nows.drop_first())
    }
}

/// Law: however many ping calls race and in whatever order they are applied,
/// the recorded timestamp never regresses below what any earlier reader saw.
pub proof fn lemma_heartbeat_monotone(last: u64, nows: Seq<u64>)
    ensures
        last_after(last, nows) >= last,
    decreases nows.len(),
{
    if nows.len() > 0 {
        lemma_heartbeat_monotone(ping_value(last, nows[0]), nows.drop_first());
    }
}

impl Heartbeat {
    /// Starts the heartbeat at the current time.
    pub fn new(now: u64) -> (h: Heartbeat)
        ensures
            h.last == now,
    {
        Heartbeat { last: now }
    }

    /// Records activity observed at time `now` and returns the timestamp the
    /// heartbeat holds afterwards.
    ///
    /// The recorded value only ever advances: a `now` behind the current
    /// value (a stale reading from a racing writer, or a clock step) leaves
    /// the heartbeat unchanged rather than regressing it.
    pub fn ping(&mut self, now: u64) -> (t: u64)
        ensures
            final(self).last == ping_value(old(self).last, now),
            final(self).last >= old(self).last,
            final(self).last >= now,
            t == final(self).last,
    {
        if now >= self.last {
            self.last = now;
        }
        self.last
    }
}

/// True when, at time `now`, the last activity at `last` lies at least
/// `threshold` units in the past.
pub open spec fn idle_breached(last: u64, now: u64, threshold: u64) -> bool {
    now >= last + threshold
}

/// The idle monitor: fires the idle-shutdown signal on the first poll that
/// finds the breach, and never again.
pub struct IdleMonitor {
    /// The configured silence interval after which the gateway shuts down.
    pub threshold: u64,
    /// Whether the idle signal has already been emitted.
    pub fired: bool,
}

/// What one poll decides, as a function of the monitor's flag and the
/// observed timestamps.
pub open spec fn poll_fires(fired: bool, last: u64, now: u64, threshold: u64) -> bool {
    !fired && idle_breached(last, now, threshold)
}

impl IdleMonitor {
    pub fn new(threshold: u64) -> (m: IdleMonitor)
        ensures
            m.threshold == threshold,
            !m.fired,
    {
        IdleMonitor { threshold, fired: false }
    }

    /// One poll tick: reads the last-activity timestamp `last` at current
    /// time `now` and decides whether to emit the idle-shutdown signal.
    ///
    /// Returns true exactly when the idle threshold is breached and no
    /// earlier poll has fired; the flag then stays set, so a breach episode
    /// triggers at most one shutdown sequence.
    pub fn poll(&mut self, last: u64, now: u64) -> (fire: bool)
        ensures
            fire == poll_fires(old(self).fired, last, now, old(self).threshold),
            final(self).threshold == old(self).threshold,
            final(self).fired == (old(self).fired || fire),
    {
        if self.fired {
            return false;
        }
        if now >= last && now - last >= self.threshold {
            self.fired = true;
            true
        } else {
            false
        }
    }
}

/// One recorded poll: the (last activity, now) pair the monitor observed.
pub struct PollObs {
    pub last: u64,
    pub now: u64,
}

/// The monitor's flag after running a sequence of polls from flag `fired`.
pub open spec fn fired_after(fired: bool, threshold: u64, obs: Seq<PollObs>) -> bool
    decreases obs.len(),
{
    if obs.len() == 0 {
        fired
    } else {
        fired_after(
            fired || poll_fires(fired, obs[0].last, obs[0].now, threshold),
            threshold,
            obs.drop_first(),
        )
    }
}

/// How many polls of the sequence fire, starting from flag `fired`.
pub open spec fn fire_count(fired: bool, threshold: u64, obs: Seq<PollObs>) -> nat
    decreases obs.len(),
{
    if obs.len() == 0 {
        0
    } else {
        (if poll_fires(fired, obs[0].last, obs[0].now, threshold) {
            1nat
        } else {
            0nat
        }) + fire_count(
            fired || poll_fires(fired, obs[0].last, obs[0].now, threshold),
            threshold,
            obs.drop_first(),
        )
    }
}

/// Law: once the idle signal has been emitted, no later poll emits it again.
pub proof fn lemma_fired_monitor_stays_quiet(threshold: u64, obs: Seq<PollObs>)
    ensures
        fire_count(true, threshold, obs) == 0,
    decreases obs.len(),
{
    if obs.len() > 0 {
        lemma_fired_monitor_stays_quiet(threshold, obs.drop_first());
    }
}

/// Law: over any sequence of polls of a fresh monitor, the idle-shutdown
/// signal is emitted at most once — one poll per breach episode, not one per
/// poll tick.
pub proof fn lemma_idle_shutdown_at_most_once(threshold: u64, obs: Seq<PollObs>)
    ensures
        fire_count(false, threshold, obs) <= 1,
    decreases obs.len(),
{
    if obs.len() > 0 {
        if poll_fires(false, obs[0].last, obs[0].now, threshold) {
            lemma_fired_monitor_stays_quiet(threshold, obs.drop_first());
        } else {
            lemma_idle_shutdown_at_most_once(threshold, obs.drop_first());
        }
    }
}

/// Law: a poll that observes a breach fires unless an earlier poll already
/// did — a real idle episode is never missed entirely.
pub proof fn lemma_breach_is_signalled(fired: bool, threshold: u64, last: u64, now: u64)
    requires
        idle_breached(last, now, threshold),
        !fired,
    ensures
        poll_fires(fired, last, now, threshold),
{
}

} // verus!
