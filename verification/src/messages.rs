//! The records that instrumented code publishes, and the fixed-size form in
//! which they travel.

use crate::time::{Duration, Instant, TimeStamped};
use vstd::prelude::*;

verus! {

/// The cycles from `start` to `stop`, counted round the end of the counter's
/// range where `stop` is the smaller reading.
pub open spec fn cycles_between(start: u64, stop: u64) -> u64 {
    if stop >= start {
        (stop - start) as u64
    } else {
        (stop + 0x1_0000_0000_0000_0000 - start) as u64
    }
}

/// The two readings that bound a span of business logic.
#[derive(Clone, Copy, Debug, PartialEq, Eq, Structural)]
pub struct TimingMessage {
    /// When the span began.
    pub start_t: Instant,
    /// When the span ended.
    pub stop_t: Instant,
}

impl Default for TimingMessage {
    fn default() -> (r: Self)
        ensures
            r == (TimingMessage { start_t: Instant(0), stop_t: Instant(0) }),
    {
        TimingMessage { start_t: Instant(0), stop_t: Instant(0) }
    }
}

impl TimingMessage {
    /// A record that starts now and has not stopped yet.
    #[inline(always)]
    pub fn new() -> (r: Self)
        ensures
            r.stop_t == Instant(0),
    {
        Self { start_t: Instant::now(), stop_t: Instant(0) }
    }

    /// The length of the span in cycles.
    pub fn elapsed(&self) -> (r: Duration)
        ensures
            r.0 == cycles_between(self.start_t.0, self.stop_t.0),
    {
        Duration(self.stop_t.0.wrapping_sub(self.start_t.0))
    }
}

/// When a message left its origin and when it was received here.
#[derive(Clone, Copy, Debug, PartialEq, Eq, Structural)]
pub struct LatencyMessage {
    /// When the message left its origin.
    pub ingestion_t: Instant,
    /// When the message was received here.
    pub arrival_t: Instant,
}

impl LatencyMessage {
    /// The cycles from origin to receipt.
    pub fn latency(&self) -> (r: Duration)
        ensures
            r.0 == cycles_between(self.ingestion_t.0, self.arrival_t.0),
    {
        Duration(self.arrival_t.0.wrapping_sub(self.ingestion_t.0))
    }

    /// The same pair as a span from origin to receipt.
    pub fn as_span(&self) -> (r: TimingMessage)
        ensures
            r == (TimingMessage { start_t: self.ingestion_t, stop_t: self.arrival_t }),
    {
        TimingMessage { start_t: self.ingestion_t, stop_t: self.arrival_t }
    }
}

impl TimeStamped for LatencyMessage {
    fn ingestion_t(&self) -> (t: Instant)
        ensures
            t == self.ingestion_t,
    {
        self.ingestion_t
    }
}

/// One measurement as it is published: either the two readings, or the
/// interval between them where the producer has reduced it already.
#[derive(Clone, Copy, Debug, PartialEq, Eq, Structural)]
pub enum Measurement {
    /// The two readings.
    TwoStamps(TimingMessage),
    /// The interval between the two readings, in cycles.
    Interval(Duration),
}

/// A measurement of the time from an origin to its receipt.
pub type LatencyMeasurement = Measurement;

/// A measurement of a span of business logic.
pub type TimingMeasurement = Measurement;

/// The number of words in a published record.
pub const RECORD_WORDS: usize = 3;

/// The tag word of a record that holds two readings.
pub const TAG_TWO_STAMPS: u64 = 0;

/// The tag word of a record that holds an interval.
pub const TAG_INTERVAL: u64 = 1;

/// The words of the record that carries `m`: the tag, then the two readings
/// or the interval and a padding word of zero.
pub open spec fn encoding(m: Measurement) -> Seq<u64> {
    match m {
        Measurement::TwoStamps(t) => seq![TAG_TWO_STAMPS, t.start_t.0, t.stop_t.0],
        Measurement::Interval(d) => seq![TAG_INTERVAL, d.0, 0],
    }
}

/// The measurement that a record of three words carries, if its tag is one
/// of the two known. The padding word of an interval is not looked at.
pub open spec fn decoding(words: Seq<u64>) -> Option<Measurement> {
    if words.len() != RECORD_WORDS {
        None
    } else if words[0] == TAG_TWO_STAMPS {
        Some(
            Measurement::TwoStamps(
                TimingMessage { start_t: Instant(words[1]), stop_t: Instant(words[2]) },
            ),
        )
    } else if words[0] == TAG_INTERVAL {
        Some(Measurement::Interval(Duration(words[1])))
    } else {
        None
    }
}

/// Every measurement comes back from its record unchanged.
pub proof fn lemma_record_round_trip(m: Measurement)
    ensures
        encoding(m).len() == RECORD_WORDS,
        decoding(encoding(m)) == Some(m),
{
}

impl Measurement {
    /// The duration that the measurement reduces to: the interval itself, or
    /// the cycles between the two readings.
    pub open spec fn duration(self) -> Duration {
        match self {
            Measurement::TwoStamps(t) => Duration(cycles_between(t.start_t.0, t.stop_t.0)),
            Measurement::Interval(d) => d,
        }
    }

    /// Whether the measurement is in order: an interval always is, and two
    /// readings are where the second is not the earlier one.
    pub open spec fn in_order(self) -> bool {
        match self {
            Measurement::TwoStamps(t) => t.stop_t.0 >= t.start_t.0,
            Measurement::Interval(_) => true,
        }
    }

    /// Whether the measurement is in order.
    pub fn is_in_order(&self) -> (b: bool)
        ensures
            b == self.in_order(),
    {
        match self {
            Measurement::TwoStamps(t) => t.stop_t.0 >= t.start_t.0,
            Measurement::Interval(_) => true,
        }
    }

    /// The measured span in cycles. For two readings in order it is their
    /// difference.
    pub fn elapsed(&self) -> (r: Duration)
        ensures
            r == self.duration(),
            self matches Measurement::TwoStamps(t) ==> (self.in_order() ==> r.0 == t.stop_t.0
                - t.start_t.0),
    {
        match self {
            Measurement::TwoStamps(t) => t.elapsed(),
            Measurement::Interval(d) => *d,
        }
    }

    /// The measured latency in cycles.
    pub fn latency(&self) -> (r: Duration)
        ensures
            r == self.duration(),
    {
        self.elapsed()
    }

    /// The record that carries this measurement.
    pub fn encode(&self) -> (words: [u64; 3])
        ensures
            words@ == encoding(*self),
    {
        let words = match self {
            Measurement::TwoStamps(t) => [TAG_TWO_STAMPS, t.start_t.0, t.stop_t.0],
            Measurement::Interval(d) => [TAG_INTERVAL, d.0, 0],
        };
        assert(words@ =~= encoding(*self));
        words
    }

    /// The measurement that a record carries; `None` for an unknown tag.
    pub fn decode(words: &[u64; 3]) -> (r: Option<Measurement>)
        ensures
            r == decoding(words@),
    {
        if words[0] == TAG_TWO_STAMPS {
            Some(
                Measurement::TwoStamps(
                    TimingMessage { start_t: Instant(words[1]), stop_t: Instant(words[2]) },
                ),
            )
        } else if words[0] == TAG_INTERVAL {
            Some(Measurement::Interval(Duration(words[1])))
        } else {
            None
        }
    }
}

} // verus!
