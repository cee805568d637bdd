//! The statistics an observer keeps for one stream of measurements: a block
//! of samples that is reduced to a datapoint when it is full, and a rolling
//! window over the datapoints.

use crate::stats::{
    corrected, largest, lemma_ascending, lemma_ascending_is_unique, lemma_largest_is,
    lemma_mean_between, lemma_smallest_is, lemma_statistics_ordered, mean, median, smallest, sum,
    sum_samples,
};
use crate::trusted::sort_samples;
use crate::time::{Duration, Instant, Nanos};
use crate::utils::{next_power_of_two, push_window, CircularBuffer};
use vstd::prelude::*;

verus! {

/// What a `TimingData` holds, as plain mathematical values.
pub struct TimingDataView {
    /// The label of the stream.
    pub title: Seq<char>,
    /// The samples of the block that is being filled, in arrival order.
    pub measurements: Seq<u64>,
    /// The datapoints in the window, oldest first.
    pub averages: Seq<Duration>,
    /// The capacity of the window.
    pub capacity: nat,
    /// The smallest sample of the last block, corrected.
    pub min: Duration,
    /// The largest sample of the last block, corrected.
    pub max: Duration,
    /// The median of the last block, corrected.
    pub median: Duration,
    /// What one reading of the clock costs; taken out of every statistic.
    pub clock_overhead: Duration,
    /// How many samples make a datapoint.
    pub samples_per_datapoint: nat,
    /// The samples taken in since the last report.
    pub n_messages: nat,
    /// When the last report was made.
    pub last_report: Instant,
    /// The floor below which samples are dropped while the filter is on.
    pub minimum_duration: Duration,
    /// Whether the floor filter is on.
    pub floor_filter: bool,
}

/// `raw` with the overhead taken out: `max(raw - overhead, 0)`.
pub open spec fn corrected_duration(raw: nat, overhead: Duration) -> Duration {
    Duration(corrected(raw, overhead.0 as nat) as u64)
}

/// `n + 1`, held at `usize::MAX`.
pub open spec fn counted(n: nat) -> nat {
    if n < usize::MAX {
        n + 1
    } else {
        n
    }
}

/// The cycle counts of a sequence of durations.
pub open spec fn cycles_of(s: Seq<Duration>) -> Seq<u64> {
    s.map_values(|d: Duration| d.0)
}

impl TimingDataView {
    /// The statistics are in order: the smallest sample of the last block is
    /// at most its median, the median at most the largest, and the newest
    /// datapoint, which is the mean of that block, lies between the smallest
    /// and the largest.
    pub open spec fn ordered(self) -> bool {
        &&& self.min.0 <= self.median.0 <= self.max.0
        &&& self.averages.len() > 0 ==> self.min.0 <= self.averages.last().0 <= self.max.0
    }

    /// The invariant: the block in progress is short of a datapoint, the
    /// window holds no more than its capacity, and the statistics are in
    /// order.
    pub open spec fn wf(self) -> bool {
        &&& self.samples_per_datapoint > 0 ==> self.measurements.len() < self.samples_per_datapoint
        &&& self.averages.len() <= self.capacity
        &&& self.capacity >= 1
        &&& self.ordered()
    }

    /// The state right after construction at time `now`.
    pub open spec fn initial(
        title: Seq<char>,
        samples_per_datapoint: nat,
        n_datapoints: nat,
        clock_overhead: Duration,
        minimum_duration: Duration,
        now: Instant,
    ) -> Self {
        TimingDataView {
            title,
            measurements: Seq::empty(),
            averages: Seq::empty(),
            capacity: next_power_of_two(n_datapoints),
            min: Duration(0),
            max: Duration(0),
            median: Duration(0),
            clock_overhead,
            samples_per_datapoint,
            n_messages: 0,
            last_report: now,
            minimum_duration,
            floor_filter: false,
        }
    }

    /// Whether a sample passes the floor filter: every sample does while the
    /// filter is off, and those not below the floor while it is on.
    pub open spec fn accepts(self, el: Duration) -> bool {
        !self.floor_filter || el.0 >= self.minimum_duration.0
    }

    /// The mean of the block in progress, corrected; zero for an empty block.
    pub open spec fn cur_avg(self) -> Duration {
        if self.measurements.len() == 0 {
            Duration(0)
        } else {
            corrected_duration(mean(self.measurements), self.clock_overhead)
        }
    }

    /// The state after the block in progress is reduced to a datapoint: the
    /// order statistics are those of the block, corrected; the corrected mean
    /// enters the window; the block is empty. Nothing changes where the block
    /// is empty already.
    pub open spec fn registered(self) -> Self {
        if self.measurements.len() == 0 {
            self
        } else {
            TimingDataView {
                min: corrected_duration(smallest(self.measurements) as nat, self.clock_overhead),
                max: corrected_duration(largest(self.measurements) as nat, self.clock_overhead),
                median: corrected_duration(median(self.measurements) as nat, self.clock_overhead),
                averages: push_window(self.averages, self.capacity, self.cur_avg()),
                measurements: Seq::empty(),
                ..self
            }
        }
    }

    /// Whether taking in `el` completes a datapoint.
    pub open spec fn completes(self, el: Duration) -> bool {
        self.accepts(el) && self.measurements.len() + 1 == self.samples_per_datapoint
    }

    /// The state after `el` is offered: a sample that the filter drops leaves
    /// it as it is; an accepted one joins the block and is counted, and a
    /// block that is full thereby is reduced to a datapoint.
    pub open spec fn after_sample(self, el: Duration) -> Self {
        if !self.accepts(el) {
            self
        } else {
            let taken = TimingDataView {
                measurements: self.measurements.push(el.0),
                n_messages: counted(self.n_messages),
                ..self
            };
            if taken.measurements.len() == self.samples_per_datapoint {
                taken.registered()
            } else {
                taken
            }
        }
    }

    /// The state after the samples of `els` are offered one by one.
    pub open spec fn after_samples(self, els: Seq<Duration>) -> Self
        decreases els.len(),
    {
        if els.len() == 0 {
            self
        } else {
            self.after_samples(els.drop_last()).after_sample(els.last())
        }
    }

    /// The state after a report made at time `now`: a block in progress is
    /// reduced first, the count starts again, and `now` is remembered.
    pub open spec fn reported(self, now: Instant) -> Self {
        TimingDataView { n_messages: 0, last_report: now, ..self.registered() }
    }

    /// The smallest datapoint in the window; `u64::MAX` for an empty window.
    pub open spec fn lowest(self) -> Duration {
        if self.averages.len() == 0 {
            Duration(u64::MAX)
        } else {
            Duration(smallest(cycles_of(self.averages)))
        }
    }

    /// The largest datapoint in the window; zero for an empty window.
    pub open spec fn highest(self) -> Duration {
        if self.averages.len() == 0 {
            Duration(0)
        } else {
            Duration(largest(cycles_of(self.averages)))
        }
    }

    /// The newest datapoint in the window; zero for an empty window.
    pub open spec fn newest(self) -> Duration {
        if self.averages.len() == 0 {
            Duration(0)
        } else {
            self.averages.last()
        }
    }

    /// The mean of the datapoints in the window, rounded down; zero for an
    /// empty window.
    pub open spec fn running_avg(self) -> Duration {
        Duration(mean(cycles_of(self.averages)) as u64)
    }
}

/// A datapoint comes after exactly `samples_per_datapoint` accepted samples,
/// never earlier and never later: of the samples `els`, all accepted and
/// offered one by one to a state whose block is empty, fewer than
/// `samples_per_datapoint` leave the window as it was and wait in the block,
/// and exactly `samples_per_datapoint` put one datapoint into the window,
/// the corrected mean of all of them, and leave the block empty.
pub proof fn lemma_datapoint_after_exactly(v: TimingDataView, els: Seq<Duration>)
    requires
        v.wf(),
        v.measurements.len() == 0,
        els.len() <= v.samples_per_datapoint,
        forall|i: int| 0 <= i < els.len() ==> v.accepts(#[trigger] els[i]),
    ensures
        v.after_samples(els).capacity == v.capacity,
        v.after_samples(els).samples_per_datapoint == v.samples_per_datapoint,
        v.after_samples(els).clock_overhead == v.clock_overhead,
        v.after_samples(els).minimum_duration == v.minimum_duration,
        v.after_samples(els).floor_filter == v.floor_filter,
        els.len() < v.samples_per_datapoint ==> {
            &&& v.after_samples(els).averages == v.averages
            &&& v.after_samples(els).measurements == cycles_of(els)
        },
        0 < els.len() == v.samples_per_datapoint ==> {
            &&& v.after_samples(els).averages == push_window(
                v.averages,
                v.capacity,
                corrected_duration(mean(cycles_of(els)), v.clock_overhead),
            )
            &&& v.after_samples(els).measurements.len() == 0
        },
    decreases els.len(),
{
    if els.len() == 0 {
        assert(v.measurements =~= cycles_of(els));
    } else {
        let before = els.drop_last();
        lemma_datapoint_after_exactly(v, before);
        let prev = v.after_samples(before);
        assert(prev.accepts(els.last()));
        assert(cycles_of(before).push(els.last().0) =~= cycles_of(els));
    }
}

/// What a report shows of one stream, as plain values for a renderer.
#[derive(Debug, Clone)]
pub struct Report {
    /// The label of the stream.
    pub title: String,
    /// The samples taken in since the report before.
    pub n_messages: usize,
    /// The time since the report before.
    pub elapsed: Nanos,
    /// The newest datapoint; zero while the window is empty.
    pub avg: Duration,
    /// The median of the last block.
    pub median: Duration,
    /// The smallest sample of the last block.
    pub min: Duration,
    /// The largest sample of the last block.
    pub max: Duration,
    /// The datapoints to plot, oldest first; the x-axis runs from zero to
    /// their number.
    pub points: Vec<Duration>,
    /// The lower bound of the y-axis: the smallest datapoint, or zero.
    pub lowest: Duration,
    /// The upper bound of the y-axis: the largest datapoint, or zero.
    pub highest: Duration,
    /// The mean of the datapoints in the window.
    pub running_avg: Duration,
}

impl Report {
    /// Whether the report shows the state `v`.
    pub open spec fn describes(&self, v: TimingDataView) -> bool {
        &&& self.title@ == v.title
        &&& self.n_messages == v.n_messages
        &&& self.avg == v.newest()
        &&& self.median == v.median
        &&& self.min == v.min
        &&& self.max == v.max
        &&& self.points@ == v.averages
        &&& self.lowest == (if v.averages.len() == 0 {
            Duration(0)
        } else {
            v.lowest()
        })
        &&& self.highest == v.highest()
        &&& self.running_avg == v.running_avg()
    }
}

/// The statistics of one stream of measurements.
#[derive(Debug, Clone)]
pub struct TimingData {
    title: String,
    // The block in progress, in cycles.
    measurements: Vec<u64>,
    averages: CircularBuffer<Duration>,
    min: Duration,
    max: Duration,
    median: Duration,
    clock_overhead: Duration,
    samples_per_datapoint: usize,
    n_messages: usize,
    last_report: Instant,
    minimum_duration: Duration,
    floor_filter: bool,
}

impl View for TimingData {
    type V = TimingDataView;

    closed spec fn view(&self) -> TimingDataView {
        TimingDataView {
            title: self.title@,
            measurements: self.measurements@,
            averages: self.averages@,
            capacity: self.averages.capacity(),
            min: self.min,
            max: self.max,
            median: self.median,
            clock_overhead: self.clock_overhead,
            samples_per_datapoint: self.samples_per_datapoint as nat,
            n_messages: self.n_messages as nat,
            last_report: self.last_report,
            minimum_duration: self.minimum_duration,
            floor_filter: self.floor_filter,
        }
    }
}

impl TimingData {
    /// The window over the datapoints is well formed.
    pub closed spec fn window_wf(&self) -> bool {
        self.averages.wf()
    }

    /// The invariant: the window is well formed, and the block in progress
    /// is short of a datapoint.
    pub open spec fn wf(&self) -> bool {
        self.window_wf() && self@.wf()
    }

    /// Statistics for a stream called `title`, with blocks of
    /// `samples_per_datapoint` samples and a window of `n_datapoints`
    /// datapoints, rounded up to a power of two. The floor filter is off.
    pub fn new(
        title: String,
        samples_per_datapoint: usize,
        n_datapoints: usize,
        clock_overhead: Duration,
        minimum_duration: Duration,
    ) -> (r: Self)
        requires
            next_power_of_two(n_datapoints as nat) <= usize::MAX,
        ensures
            r.wf(),
            r@ == TimingDataView::initial(
                title@,
                samples_per_datapoint as nat,
                n_datapoints as nat,
                clock_overhead,
                minimum_duration,
                r@.last_report,
            ),
    {
        let measurements: Vec<u64> = Vec::new();
        let averages: CircularBuffer<Duration> = CircularBuffer::new(n_datapoints);
        proof {
            averages.lemma_bounded();
        }
        Self {
            title,
            measurements,
            averages,
            min: Duration(0),
            max: Duration(0),
            median: Duration(0),
            clock_overhead,
            samples_per_datapoint,
            n_messages: 0,
            last_report: Instant::now(),
            minimum_duration,
            floor_filter: false,
        }
    }

    /// Turns the floor filter on or off.
    pub fn set_floor_filter(&mut self, on: bool)
        ensures
            final(self)@ == (TimingDataView { floor_filter: on, ..old(self)@ }),
            final(self).window_wf() == old(self).window_wf(),
    {
        self.floor_filter = on;
    }

    /// The smallest datapoint in the window and the first place at which it
    /// stands; `(u64::MAX, 0)` for an empty window.
    pub fn min(&self) -> (r: (Duration, usize))
        requires
            self.window_wf(),
        ensures
            r.0 == self@.lowest(),
            self@.averages.len() == 0 ==> r.1 == 0,
            self@.averages.len() > 0 ==> r.1 < self@.averages.len() && self@.averages[r.1 as int]
                == r.0,
            forall|j: int| 0 <= j < r.1 ==> self@.averages[j].0 > r.0.0,
    {
        let n = self.averages.len();
        let mut m: u64 = u64::MAX;
        let mut minid: usize = 0;
        let mut id: usize = 0;
        while id < n
            invariant
                self.averages.wf(),
                n == self.averages@.len(),
                id <= n,
                id == 0 ==> m == u64::MAX && minid == 0,
                id > 0 ==> minid < id && self.averages@[minid as int].0 == m,
                forall|j: int| 0 <= j < id ==> m <= self.averages@[j].0,
                forall|j: int| 0 <= j < minid ==> self.averages@[j].0 > m,
            decreases n - id,
        {
            let v = self.averages.get(id).0;
            if v < m {
                m = v;
                minid = id;
            }
            id = id + 1;
        }
        proof {
            if n > 0 {
                let s = cycles_of(self.averages@);
                assert(s[minid as int] == m);
                assert forall|i: int| 0 <= i < s.len() implies m <= #[trigger] s[i] by {
                    assert(s[i] == self.averages@[i].0);
                }
                lemma_smallest_is(s, m);
            }
        }
        (Duration(m), minid)
    }

    /// The largest datapoint in the window and the first place at which it
    /// stands; `(0, 0)` for an empty window.
    pub fn max(&self) -> (r: (Duration, usize))
        requires
            self.window_wf(),
        ensures
            r.0 == self@.highest(),
            self@.averages.len() == 0 ==> r.1 == 0,
            self@.averages.len() > 0 ==> r.1 < self@.averages.len() && self@.averages[r.1 as int]
                == r.0,
            forall|j: int| 0 <= j < r.1 ==> self@.averages[j].0 < r.0.0,
    {
        let n = self.averages.len();
        let mut m: u64 = 0;
        let mut maxid: usize = 0;
        let mut id: usize = 0;
        while id < n
            invariant
                self.averages.wf(),
                n == self.averages@.len(),
                id <= n,
                id == 0 ==> m == 0 && maxid == 0,
                id > 0 ==> maxid < id && self.averages@[maxid as int].0 == m,
                forall|j: int| 0 <= j < id ==> self.averages@[j].0 <= m,
                forall|j: int| 0 <= j < maxid ==> self.averages@[j].0 < m,
            decreases n - id,
        {
            let v = self.averages.get(id).0;
            if v > m {
                m = v;
                maxid = id;
            }
            id = id + 1;
        }
        proof {
            if n > 0 {
                let s = cycles_of(self.averages@);
                assert(s[maxid as int] == m);
                assert forall|i: int| 0 <= i < s.len() implies #[trigger] s[i] <= m by {
                    assert(s[i] == self.averages@[i].0);
                }
                lemma_largest_is(s, m);
            }
        }
        (Duration(m), maxid)
    }

    /// The mean of the block in progress, corrected; zero for an empty block.
    pub fn cur_avg(&self) -> (r: Duration)
        ensures
            r == self@.cur_avg(),
    {
        let n = self.measurements.len();
        if n == 0 {
            Duration(0)
        } else {
            let total = sum_samples(&self.measurements);
            proof {
                lemma_mean_between(self.measurements@);
            }
            let avg = (total / (n as u128)) as u64;
            self.corrected_or_zero(Duration(avg))
        }
    }

    /// The mean of the datapoints in the window, rounded down; zero for an
    /// empty window.
    pub fn avg(&self) -> (r: Duration)
        requires
            self.window_wf(),
        ensures
            r == self@.running_avg(),
    {
        let n = self.averages.len();
        if n == 0 {
            proof {
                assert(cycles_of(self.averages@).len() == 0);
            }
            Duration(0)
        } else {
            let ghost s = cycles_of(self.averages@);
            let mut total: u128 = 0;
            let mut i: usize = 0;
            while i < n
                invariant
                    self.averages.wf(),
                    n == self.averages@.len(),
                    s == cycles_of(self.averages@),
                    i <= n,
                    total == sum(s.take(i as int)),
                    total <= i * u64::MAX,
                decreases n - i,
            {
                proof {
                    assert(s.take(i + 1).drop_last() =~= s.take(i as int));
                    assert(s.take(i + 1).last() == self.averages@[i as int].0);
                    assert((i + 1) * u64::MAX == i * u64::MAX + u64::MAX) by (nonlinear_arith);
                    assert(i * u64::MAX <= usize::MAX * u64::MAX) by (nonlinear_arith)
                        requires
                            i <= usize::MAX,
                    ;
                    assert(usize::MAX * u64::MAX + u64::MAX <= u128::MAX) by (nonlinear_arith)
                        requires
                            usize::MAX <= u64::MAX,
                    ;
                }
                total = total + self.averages.get(i).0 as u128;
                i = i + 1;
            }
            proof {
                assert(s.take(n as int) =~= s);
                lemma_mean_between(s);
            }
            Duration((total / (n as u128)) as u64)
        }
    }

    /// `t` with the clock's own cost taken out: `max(t - overhead, 0)`.
    pub fn corrected_or_zero(&self, t: Duration) -> (r: Duration)
        ensures
            r == corrected_duration(t.0 as nat, self@.clock_overhead),
    {
        t.saturating_sub(self.clock_overhead)
    }

    /// Reduces the block in progress to a datapoint. Afterwards the block is
    /// empty and the statistics are in order: the smallest is at most the
    /// median, the median at most the largest, and the newest datapoint lies
    /// between the smallest and the largest.
    pub fn register_datapoint(&mut self)
        requires
            old(self).window_wf(),
            old(self)@.ordered(),
        ensures
            final(self).wf(),
            final(self)@ == old(self)@.registered(),
            final(self)@.measurements.len() == 0,
            final(self)@.ordered(),
    {
        proof {
            self.averages.lemma_bounded();
        }
        let n = self.measurements.len();
        if n == 0 {
            return ;
        }
        let ghost block = self.measurements@;
        let avg = self.cur_avg();
        sort_samples(&mut self.measurements);
        proof {
            lemma_ascending_is_unique(block, self.measurements@);
            lemma_ascending(block);
            lemma_statistics_ordered(block, self.clock_overhead.0 as nat);
            lemma_mean_between(block);
        }
        self.max = self.corrected_or_zero(Duration(self.measurements[n - 1]));
        self.min = self.corrected_or_zero(Duration(self.measurements[0]));
        self.median = self.corrected_or_zero(Duration(self.measurements[n / 2]));
        self.averages.push(avg);
        self.measurements.clear();
        proof {
            self.averages.lemma_bounded();
            assert(self@.measurements =~= Seq::<u64>::empty());
        }
    }

    /// Takes in one sample. A sample that the floor filter drops changes
    /// nothing. An accepted sample joins the block in progress, and the block
    /// is reduced to a datapoint exactly when that sample fills it: the
    /// result says whether it did.
    pub fn track(&mut self, el: Duration) -> (done: bool)
        requires
            old(self).wf(),
        ensures
            final(self).wf(),
            final(self)@ == old(self)@.after_sample(el),
            done == old(self)@.completes(el),
    {
        if self.floor_filter && el.0 < self.minimum_duration.0 {
            return false;
        }
        if self.n_messages < usize::MAX {
            self.n_messages = self.n_messages + 1;
        }
        self.measurements.push(el.0);
        if self.measurements.len() == self.samples_per_datapoint {
            self.register_datapoint();
            true
        } else {
            false
        }
    }

    /// Whether `el` passes the floor filter.
    pub fn accepts(&self, el: Duration) -> (b: bool)
        ensures
            b == self@.accepts(el),
    {
        !self.floor_filter || el.0 >= self.minimum_duration.0
    }

    /// What a renderer shows of this stream. A block in progress is reduced
    /// to a datapoint first; afterwards the count of samples starts again and
    /// the time of the report is remembered.
    pub fn report(&mut self) -> (r: Report)
        requires
            old(self).wf(),
        ensures
            final(self).wf(),
            final(self)@ == old(self)@.reported(final(self)@.last_report),
            r.describes(old(self)@.registered()),
    {
        self.register_datapoint();
        let n = self.averages.len();
        let avg = if n == 0 {
            Duration(0)
        } else {
            *self.averages.last()
        };
        let points = self.averages.to_vec();
        let lowest = if n == 0 {
            Duration(0)
        } else {
            self.min().0
        };
        let highest = self.max().0;
        let running_avg = self.avg();
        let r = Report {
            title: self.title.clone(),
            n_messages: self.n_messages,
            elapsed: self.last_report.elapsed(),
            avg,
            median: self.median,
            min: self.min,
            max: self.max,
            points,
            lowest,
            highest,
            running_avg,
        };
        self.n_messages = 0;
        self.last_report = Instant::now();
        r
    }

    /// The label of the stream.
    pub fn title(&self) -> (r: &String)
        ensures
            r@ == self@.title,
    {
        &self.title
    }

    /// The window over the datapoints.
    pub fn averages(&self) -> (r: &CircularBuffer<Duration>)
        ensures
            r@ == self@.averages,
            r.capacity() == self@.capacity,
            r.wf() == self.window_wf(),
    {
        &self.averages
    }

    /// The smallest sample of the last block, corrected.
    pub fn min_sample(&self) -> (r: Duration)
        ensures
            r == self@.min,
    {
        self.min
    }

    /// The largest sample of the last block, corrected.
    pub fn max_sample(&self) -> (r: Duration)
        ensures
            r == self@.max,
    {
        self.max
    }

    /// The median of the last block, corrected.
    pub fn median(&self) -> (r: Duration)
        ensures
            r == self@.median,
    {
        self.median
    }

    /// The samples taken in since the last report.
    pub fn n_messages(&self) -> (r: usize)
        ensures
            r == self@.n_messages,
    {
        self.n_messages
    }

    /// The number of samples in the block in progress.
    pub fn pending(&self) -> (r: usize)
        ensures
            r == self@.measurements.len(),
    {
        self.measurements.len()
    }
}

} // verus!
