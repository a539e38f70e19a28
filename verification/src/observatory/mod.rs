//! Metrics of graph operations and the settings of event streaming.

pub mod metrics;
pub mod kafka;
pub mod streaming;
pub mod publisher;

use vstd::prelude::*;
use crate::observatory::metrics::{added, wrapping_sum};

verus! {

/// Counts of event emission at one moment.
#[derive(Debug, Clone, Copy, PartialEq, Eq, Structural)]
pub struct EmissionStatsSnapshot {
    /// Events submitted for emission
    pub events_submitted: u64,
    /// Events emitted
    pub events_emitted: u64,
    /// Events that failed to emit
    pub events_failed: u64,
    /// Most emissions at once
    pub peak_concurrent: u64,
}

/// Counters of an event emitter: events handed to it, and how their
/// publication ended. Each counter wraps around at the top, as an atomic
/// counter does.
#[derive(Debug, Clone, Copy, PartialEq, Eq, Structural)]
pub struct EmissionStats {
    /// Events submitted for emission
    pub events_submitted: u64,
    /// Events published
    pub events_emitted: u64,
    /// Events whose publication failed
    pub events_failed: u64,
    /// Most emissions at once
    pub peak_concurrent: u64,
}

/// All emission counters zero.
pub open spec fn zero_emission() -> EmissionStats {
    EmissionStats { events_submitted: 0, events_emitted: 0, events_failed: 0, peak_concurrent: 0 }
}

impl EmissionStats {
    /// Counters at zero.
    pub fn new() -> (s: Self)
        ensures
            s == zero_emission(),
    {
        EmissionStats { events_submitted: 0, events_emitted: 0, events_failed: 0, peak_concurrent: 0 }
    }

    /// Count one submitted event.
    pub fn inc_submitted(&mut self)
        ensures
            *final(self) == (EmissionStats { events_submitted: wrapping_sum(old(self).events_submitted, 1), ..*old(self) }),
    {
        self.events_submitted = added(self.events_submitted, 1);
    }

    /// Count `count` submitted events.
    pub fn inc_submitted_by(&mut self, count: u64)
        ensures
            *final(self) == (EmissionStats { events_submitted: wrapping_sum(old(self).events_submitted, count), ..*old(self) }),
    {
        self.events_submitted = added(self.events_submitted, count);
    }

    /// Count one published event.
    pub fn inc_emitted(&mut self)
        ensures
            *final(self) == (EmissionStats { events_emitted: wrapping_sum(old(self).events_emitted, 1), ..*old(self) }),
    {
        self.events_emitted = added(self.events_emitted, 1);
    }

    /// Count `count` published events.
    pub fn inc_emitted_by(&mut self, count: u64)
        ensures
            *final(self) == (EmissionStats { events_emitted: wrapping_sum(old(self).events_emitted, count), ..*old(self) }),
    {
        self.events_emitted = added(self.events_emitted, count);
    }

    /// Count one event whose publication failed.
    pub fn inc_failed(&mut self)
        ensures
            *final(self) == (EmissionStats { events_failed: wrapping_sum(old(self).events_failed, 1), ..*old(self) }),
    {
        self.events_failed = added(self.events_failed, 1);
    }

    /// Count `count` events whose publication failed.
    pub fn inc_failed_by(&mut self, count: u64)
        ensures
            *final(self) == (EmissionStats { events_failed: wrapping_sum(old(self).events_failed, count), ..*old(self) }),
    {
        self.events_failed = added(self.events_failed, count);
    }

    /// Count how the publication of `count` events ended: published, or
    /// failed.
    pub fn record_outcome(&mut self, count: u64, published: bool)
        ensures
            published ==> *final(self) == (EmissionStats { events_emitted: wrapping_sum(old(self).events_emitted, count), ..*old(self) }),
            !published ==> *final(self) == (EmissionStats { events_failed: wrapping_sum(old(self).events_failed, count), ..*old(self) }),
    {
        if published {
            self.inc_emitted_by(count);
        } else {
            self.inc_failed_by(count);
        }
    }

    /// The counters as they stand.
    pub fn snapshot(&self) -> (s: EmissionStatsSnapshot)
        ensures
            s == (EmissionStatsSnapshot {
                events_submitted: self.events_submitted,
                events_emitted: self.events_emitted,
                events_failed: self.events_failed,
                peak_concurrent: self.peak_concurrent,
            }),
    {
        EmissionStatsSnapshot {
            events_submitted: self.events_submitted,
            events_emitted: self.events_emitted,
            events_failed: self.events_failed,
            peak_concurrent: self.peak_concurrent,
        }
    }

    /// Set every counter back to zero.
    pub fn reset(&mut self)
        ensures
            *final(self) == zero_emission(),
    {
        self.events_submitted = 0;
        self.events_emitted = 0;
        self.events_failed = 0;
        self.peak_concurrent = 0;
    }
}

/// Submitting a batch of events and then counting its outcome, starting
/// from counters that balance (every submitted event either published or
/// failed), leaves them balanced, as long as no counter wraps.
pub proof fn lemma_emission_balances(s: EmissionStats, count: u64, published: bool)
    requires
        s.events_submitted == s.events_emitted + s.events_failed,
        s.events_submitted + count <= u64::MAX,
    ensures
        ({
            let submitted = EmissionStats { events_submitted: wrapping_sum(s.events_submitted, count), ..s };
            let done = if published {
                EmissionStats { events_emitted: wrapping_sum(submitted.events_emitted, count), ..submitted }
            } else {
                EmissionStats { events_failed: wrapping_sum(submitted.events_failed, count), ..submitted }
            };
            done.events_submitted == done.events_emitted + done.events_failed
        }),
{
    assert((s.events_submitted + count) % 0x1_0000_0000_0000_0000 == s.events_submitted + count);
    assert((s.events_emitted + count) % 0x1_0000_0000_0000_0000 == s.events_emitted + count);
    assert((s.events_failed + count) % 0x1_0000_0000_0000_0000 == s.events_failed + count);
}

} // verus!
