//! The timer of one instrumented site: the record it is filling, and what it
//! hands out for publication on the site's two rings.

use crate::discovery::{latency_prefix, timing_prefix};
use crate::messages::{Measurement, TimingMessage};
use crate::time::{CycleClock, Duration, Instant};
use vstd::prelude::*;

verus! {

/// A record that is due on one of the two rings of a site.
#[derive(Clone, Copy, Debug, PartialEq, Eq, Structural)]
pub enum Publication {
    /// A span of business logic, for the business ring.
    Business(TimingMessage),
    /// A latency, for the latency ring.
    Latency(Measurement),
}

/// The timer of one site. It is owned by one producer.
#[derive(Debug)]
pub struct Timer {
    /// The record that is being filled.
    pub curmsg: TimingMessage,
    /// The name of the site.
    pub name: String,
    /// The clock that the timer reads.
    pub clock: CycleClock,
}

impl Timer {
    /// The timer of the site `name`, with both readings at zero.
    pub fn new(name: &str) -> (r: Self)
        ensures
            r.name@ == name@,
            r.curmsg == (TimingMessage { start_t: Instant(0), stop_t: Instant(0) }),
    {
        Timer {
            curmsg: TimingMessage { start_t: Instant(0), stop_t: Instant(0) },
            name: name.to_owned(),
            clock: CycleClock::new(),
        }
    }

    /// The path of the site's business ring in the directory `dir`.
    pub fn timing_queue_path(&self, dir: &str) -> (r: String)
        ensures
            r@ == dir@ + "/"@ + timing_prefix() + self.name@,
    {
        crate::discovery::timing_queue_path(dir, self.name.as_str())
    }

    /// The path of the site's latency ring in the directory `dir`.
    pub fn latency_queue_path(&self, dir: &str) -> (r: String)
        ensures
            r@ == dir@ + "/"@ + latency_prefix() + self.name@,
    {
        crate::discovery::latency_queue_path(dir, self.name.as_str())
    }

    /// Begins a span now: the start becomes a fresh reading of the clock.
    pub fn start(&mut self)
        ensures
            final(self).curmsg.stop_t == old(self).curmsg.stop_t,
            final(self).name == old(self).name,
    {
        let now = self.clock.now();
        self.set_start(now);
    }

    /// When the span began.
    pub fn start_t(&self) -> (r: &Instant)
        ensures
            *r == self.curmsg.start_t,
    {
        &self.curmsg.start_t
    }

    /// When the span ended.
    pub fn stop_t(&self) -> (r: &Instant)
        ensures
            *r == self.curmsg.stop_t,
    {
        &self.curmsg.stop_t
    }

    /// Ends the span now and hands it out for the business ring: one record,
    /// with the start as it was and a fresh reading as the stop.
    pub fn stop(&mut self) -> (r: Publication)
        ensures
            final(self).curmsg.start_t == old(self).curmsg.start_t,
            final(self).name == old(self).name,
            r == Publication::Business(final(self).curmsg),
    {
        let now = self.clock.now();
        self.set_stop(now);
        self.send_business()
    }

    /// Ends the span now and hands out two records: the span for the
    /// business ring, and then the time from `ingestion_t` to the same stop
    /// for the latency ring.
    pub fn stop_and_latency(&mut self, ingestion_t: Instant) -> (r: (Publication, Publication))
        ensures
            final(self).name == old(self).name,
            final(self).curmsg.start_t == ingestion_t,
            r.0 == Publication::Business(
                TimingMessage {
                    start_t: old(self).curmsg.start_t,
                    stop_t: final(self).curmsg.stop_t,
                },
            ),
            r.1 == Publication::Latency(Measurement::TwoStamps(final(self).curmsg)),
    {
        let business = self.stop();
        self.set_start(ingestion_t);
        (business, self.send_latency())
    }

    /// Sets when the span ended.
    pub fn set_stop(&mut self, stop: Instant)
        ensures
            final(self).curmsg == (TimingMessage { stop_t: stop, ..old(self).curmsg }),
            final(self).name == old(self).name,
    {
        self.curmsg.stop_t = stop;
    }

    /// Sets when the span began.
    pub fn set_start(&mut self, start: Instant)
        ensures
            final(self).curmsg == (TimingMessage { start_t: start, ..old(self).curmsg }),
            final(self).name == old(self).name,
    {
        self.curmsg.start_t = start;
    }

    /// Hands out the time from `ingestion_t` to now for the latency ring: one
    /// record, with `ingestion_t` as the start and a fresh reading as the
    /// stop.
    pub fn latency(&mut self, ingestion_t: Instant) -> (r: Publication)
        ensures
            final(self).name == old(self).name,
            final(self).curmsg.start_t == ingestion_t,
            r == Publication::Latency(Measurement::TwoStamps(final(self).curmsg)),
    {
        let now = self.clock.now();
        self.set_stop(now);
        self.set_start(ingestion_t);
        self.send_latency()
    }

    /// Hands out an interval that was reduced already for the latency ring.
    pub fn latency_nanos(&self, delta: Duration) -> (r: Publication)
        ensures
            r == Publication::Latency(Measurement::Interval(delta)),
    {
        Publication::Latency(Measurement::Interval(delta))
    }

    /// The record as it stands, for the latency ring.
    pub fn send_latency(&self) -> (r: Publication)
        ensures
            r == Publication::Latency(Measurement::TwoStamps(self.curmsg)),
    {
        Publication::Latency(Measurement::TwoStamps(self.curmsg))
    }

    /// The record as it stands, for the business ring.
    pub fn send_business(&self) -> (r: Publication)
        ensures
            r == Publication::Business(self.curmsg),
    {
        Publication::Business(self.curmsg)
    }
}

} // verus!
