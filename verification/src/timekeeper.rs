//! The observer: which timers it knows, what it does with each record it
//! reads and each key it is given, and what it hands to a renderer.

use crate::discovery::{latency_queue_name, queue_name, scan, scan_entry};
use crate::messages::{cycles_between, LatencyMeasurement, Measurement, TimingMeasurement};
use crate::time::{CycleClock, Duration, Instant, Nanos};
pub use crate::timing_data::TimingData;
use crate::timing_data::{Report, TimingDataView};
use crate::utils::next_power_of_two;
use vstd::prelude::*;

verus! {

/// How the two reports of one timer are laid out side by side.
#[derive(Clone, Copy, Debug, PartialEq, Eq, Structural)]
pub enum Direction {
    /// Side by side.
    Horizontal,
    /// One above the other.
    Vertical,
}

impl Direction {
    /// The other direction.
    pub open spec fn flipped(self) -> Direction {
        match self {
            Direction::Horizontal => Direction::Vertical,
            Direction::Vertical => Direction::Horizontal,
        }
    }

    /// The other direction.
    pub fn flip(self) -> (r: Direction)
        ensures
            r == self.flipped(),
    {
        match self {
            Direction::Horizontal => Direction::Vertical,
            Direction::Vertical => Direction::Horizontal,
        }
    }
}

/// The title of the latency stream of a timer.
pub open spec fn latency_title() -> Seq<char> {
    "Latency"@
}

/// The title of the business stream of a timer.
pub open spec fn business_title() -> Seq<char> {
    "Business"@
}

/// What a `TimerData` holds, as plain mathematical values.
pub struct TimerDataView {
    /// The name of the site.
    pub name: Seq<char>,
    /// The latency stream.
    pub latency: TimingDataView,
    /// The business stream.
    pub business: TimingDataView,
    /// How the two reports are laid out.
    pub direction: Direction,
}

impl TimerDataView {
    /// The state right after construction, with the two streams made at
    /// `latency_now` and `business_now`.
    pub open spec fn initial(
        name: Seq<char>,
        samples_per_datapoint: nat,
        n_datapoints: nat,
        clock_overhead: Duration,
        minimum_duration: Duration,
        latency_now: Instant,
        business_now: Instant,
    ) -> Self {
        TimerDataView {
            name,
            latency: TimingDataView::initial(
                latency_title(),
                samples_per_datapoint,
                n_datapoints,
                clock_overhead,
                minimum_duration,
                latency_now,
            ),
            business: TimingDataView::initial(
                business_title(),
                samples_per_datapoint,
                n_datapoints,
                clock_overhead,
                minimum_duration,
                business_now,
            ),
            direction: Direction::Horizontal,
        }
    }
}

/// What a renderer shows of one timer: its two streams, in the timer's
/// direction, each on half of the space.
#[derive(Debug, Clone)]
pub struct TimerReport {
    /// The name of the site.
    pub name: String,
    /// How the two reports are laid out.
    pub direction: Direction,
    /// The report of the latency stream.
    pub latency: Report,
    /// The report of the business stream.
    pub business: Report,
}

/// The two streams of one instrumented site.
#[derive(Debug, Clone)]
pub struct TimerData {
    name: String,
    latency_data: TimingData,
    business_data: TimingData,
    direction: Direction,
}

impl View for TimerData {
    type V = TimerDataView;

    closed spec fn view(&self) -> TimerDataView {
        TimerDataView {
            name: self.name@,
            latency: self.latency_data@,
            business: self.business_data@,
            direction: self.direction,
        }
    }
}

impl TimerData {
    /// The invariant: both streams are well formed.
    pub closed spec fn wf(&self) -> bool {
        self.latency_data.wf() && self.business_data.wf()
    }

    /// The streams "Latency" and "Business" of the site `name`, laid out
    /// horizontally.
    pub fn new(
        name: String,
        samples_per_datapoint: usize,
        n_datapoints: usize,
        clock_overhead: Duration,
        minimum_duration: Duration,
    ) -> (r: Self)
        requires
            next_power_of_two(n_datapoints as nat) <= usize::MAX,
        ensures
            r.wf(),
            r@ == TimerDataView::initial(
                name@,
                samples_per_datapoint as nat,
                n_datapoints as nat,
                clock_overhead,
                minimum_duration,
                r@.latency.last_report,
                r@.business.last_report,
            ),
    {
        Self {
            name,
            latency_data: TimingData::new(
                "Latency".to_owned(),
                samples_per_datapoint,
                n_datapoints,
                clock_overhead,
                minimum_duration,
            ),
            business_data: TimingData::new(
                "Business".to_owned(),
                samples_per_datapoint,
                n_datapoints,
                clock_overhead,
                minimum_duration,
            ),
            direction: Direction::Horizontal,
        }
    }

    /// The name of the site.
    pub fn name(&self) -> (r: &String)
        ensures
            r@ == self@.name,
    {
        &self.name
    }

    /// Turns the floor filter of both streams on or off.
    pub fn set_floor_filter(&mut self, on: bool)
        requires
            old(self).wf(),
        ensures
            final(self).wf(),
            final(self)@ == (TimerDataView {
                latency: TimingDataView { floor_filter: on, ..old(self)@.latency },
                business: TimingDataView { floor_filter: on, ..old(self)@.business },
                ..old(self)@
            }),
    {
        self.latency_data.set_floor_filter(on);
        self.business_data.set_floor_filter(on);
    }

    /// What a renderer shows of the site: the report of each stream. Both
    /// streams are reported as `TimingData::report` says.
    pub fn report(&mut self) -> (r: TimerReport)
        requires
            old(self).wf(),
        ensures
            final(self).wf(),
            final(self)@ == (TimerDataView {
                latency: old(self)@.latency.reported(final(self)@.latency.last_report),
                business: old(self)@.business.reported(final(self)@.business.last_report),
                ..old(self)@
            }),
            r.name@ == old(self)@.name,
            r.direction == old(self)@.direction,
            r.latency.describes(old(self)@.latency.registered()),
            r.business.describes(old(self)@.business.registered()),
    {
        let latency = self.latency_data.report();
        let business = self.business_data.report();
        TimerReport { name: self.name.clone(), direction: self.direction, latency, business }
    }

    /// Takes in one latency measurement; the result says whether it
    /// completed a datapoint.
    pub fn track_latency(&mut self, msg: &LatencyMeasurement) -> (done: bool)
        requires
            old(self).wf(),
        ensures
            final(self).wf(),
            final(self)@ == (TimerDataView {
                latency: old(self)@.latency.after_sample(msg.duration()),
                ..old(self)@
            }),
            done == old(self)@.latency.completes(msg.duration()),
    {
        self.latency_data.track(msg.latency())
    }

    /// Takes in one business measurement; the result says whether it
    /// completed a datapoint.
    pub fn track_business(&mut self, msg: &TimingMeasurement) -> (done: bool)
        requires
            old(self).wf(),
        ensures
            final(self).wf(),
            final(self)@ == (TimerDataView {
                business: old(self)@.business.after_sample(msg.duration()),
                ..old(self)@
            }),
            done == old(self)@.business.completes(msg.duration()),
    {
        self.business_data.track(msg.elapsed())
    }

    /// Lays the two reports out in direction `direction`.
    pub fn set_direction(&mut self, direction: Direction)
        ensures
            final(self).wf() == old(self).wf(),
            final(self)@ == (TimerDataView { direction, ..old(self)@ }),
    {
        self.direction = direction;
    }

    /// The statistics of the latency stream.
    pub fn latency_data(&self) -> (r: &TimingData)
        ensures
            r@ == self@.latency,
            self.wf() ==> r.wf(),
    {
        &self.latency_data
    }

    /// The statistics of the business stream.
    pub fn business_data(&self) -> (r: &TimingData)
        ensures
            r@ == self@.business,
            self.wf() ==> r.wf(),
    {
        &self.business_data
    }
}

/// How many readings of the clock the measurement of its cost takes.
pub const OVERHEAD_READINGS: u64 = 1_000_000;

/// The cost of one reading of the clock, given the readings before and after
/// `OVERHEAD_READINGS` readings: the cycles between the two, shared out.
pub fn reading_cost(start: Instant, end: Instant) -> (r: Duration)
    ensures
        r.0 == cycles_between(start.0, end.0) / OVERHEAD_READINGS,
{
    Duration(end.0.wrapping_sub(start.0) / OVERHEAD_READINGS)
}

/// Measures what one reading of the clock costs, by taking
/// `OVERHEAD_READINGS` of them in a row.
pub fn clock_overhead() -> (r: Duration)
    ensures
        r.0 <= u64::MAX / OVERHEAD_READINGS,
{
    let clock = CycleClock::new();
    let start = clock.now();
    let mut i: u64 = 0;
    while i < OVERHEAD_READINGS
        invariant
            i <= OVERHEAD_READINGS,
        decreases OVERHEAD_READINGS - i,
    {
        let _ = clock.now();
        i = i + 1;
    }
    let end = clock.now();
    reading_cost(start, end)
}

/// The settings of an observer.
#[derive(Clone, Copy, Debug, PartialEq, Eq, Structural)]
pub struct TimeKeeper {
    /// The CPU to run on.
    pub core: usize,
    /// The nominal time between reports.
    pub report_interval: Nanos,
    /// How many samples make a datapoint.
    pub samples_per_datapoint: usize,
    /// How many datapoints the window of each stream is asked to keep.
    pub n_datapoints: usize,
    /// The floor below which samples may be dropped.
    pub minimum_duration: Duration,
}

impl TimeKeeper {
    /// An observer that is to run on CPU `core`, reports every
    /// `report_interval`, makes a datapoint of `samples_per_datapoint`
    /// samples, keeps `n_datapoints` datapoints and has the floor
    /// `minimum_duration`.
    pub fn new(
        core: usize,
        report_interval: Nanos,
        samples_per_datapoint: usize,
        n_datapoints: usize,
        minimum_duration: Duration,
    ) -> (r: Self)
        ensures
            r == (TimeKeeper {
                core,
                report_interval,
                samples_per_datapoint,
                n_datapoints,
                minimum_duration,
            }),
    {
        Self { core, report_interval, samples_per_datapoint, n_datapoints, minimum_duration }
    }
}

/// What a read from a ring gave.
#[derive(Clone, Copy, Debug, PartialEq, Eq, Structural)]
pub enum ReadOutcome {
    /// A record.
    Sample(Measurement),
    /// The ring holds nothing new.
    Empty,
    /// The producer has overwritten what was to be read next.
    SpedPast,
}

/// What the reader of a ring does after a read.
#[derive(Clone, Copy, Debug, PartialEq, Eq, Structural)]
pub enum DrainAction {
    /// Read again.
    Continue,
    /// Jump forward to where the producer is, then read again.
    Recover,
    /// Leave this ring for now.
    Stop,
}

/// One visit to one ring: how many samples it has had accepted, and how many
/// it may have accepted at most.
#[derive(Clone, Copy, Debug, PartialEq, Eq, Structural)]
pub struct Drain {
    /// How many samples the stream has accepted on this visit.
    pub accepted: usize,
    /// How many samples the stream may accept on this visit.
    pub quota: usize,
}

impl Drain {
    /// A visit that may have `quota` samples accepted.
    pub fn new(quota: usize) -> (r: Self)
        ensures
            r == (Drain { accepted: 0, quota }),
    {
        Drain { accepted: 0, quota }
    }

    /// Whether the visit may go on: its quota is not used up.
    pub fn open(&self) -> (b: bool)
        ensures
            b == (self.accepted < self.quota),
    {
        self.accepted < self.quota
    }
}

/// What follows a read, for a stream in state `data` on a visit that has
/// had `accepted` of `quota` samples accepted: the stream takes a record in,
/// the count goes up where the stream accepts it, and the visit ends when
/// the quota is used up or the ring is empty. A reader that was overtaken
/// recovers and reads on.
pub open spec fn drain_step(
    data: TimingDataView,
    accepted: nat,
    quota: nat,
    outcome: ReadOutcome,
) -> (TimingDataView, nat, DrainAction) {
    match outcome {
        ReadOutcome::Sample(m) => {
            let count = if data.accepts(m.duration()) {
                accepted + 1
            } else {
                accepted
            };
            (
                data.after_sample(m.duration()),
                count,
                if count < quota {
                    DrainAction::Continue
                } else {
                    DrainAction::Stop
                },
            )
        },
        ReadOutcome::Empty => (data, accepted, DrainAction::Stop),
        ReadOutcome::SpedPast => (data, accepted, DrainAction::Recover),
    }
}

/// For how many milliseconds the observer drains the rings before it looks
/// at the keyboard and draws again.
pub const DRAIN_WINDOW_MILLIS: u64 = 16;

/// Whether a drain window that began `elapsed` ago is still open.
pub fn drain_window_open(elapsed: Nanos) -> (b: bool)
    ensures
        b == (elapsed.0 < DRAIN_WINDOW_MILLIS * 1_000_000),
{
    elapsed.0 < DRAIN_WINDOW_MILLIS * 1_000_000
}

/// A key of the keyboard, as far as the observer tells keys apart.
#[derive(Clone, Copy, Debug, PartialEq, Eq, Structural)]
pub enum Key {
    /// A character key.
    Char(char),
    /// The arrow down.
    Down,
    /// The arrow up.
    Up,
    /// Any other key.
    Other,
}

/// What the observer's loop does after a key.
#[derive(Clone, Copy, Debug, PartialEq, Eq, Structural)]
pub enum KeyAction {
    /// Leave the loop.
    Quit,
    /// Draw at once.
    Redraw,
    /// Go on.
    Nothing,
}

/// What a renderer draws: the names of the timers, which of them is
/// selected, and the report of the selected one.
#[derive(Debug, Clone)]
pub struct Frame {
    /// The names of the timers, in the order in which they were found.
    pub names: Vec<String>,
    /// The place of the selected timer.
    pub selected: usize,
    /// The report of the selected timer, if the selection stands on one.
    pub report: Option<TimerReport>,
}

/// The contents of a sequence of strings.
pub open spec fn contents(names: Seq<String>) -> Seq<Seq<char>> {
    names.map_values(|s: String| s@)
}

/// What a `Session` holds, as plain mathematical values.
pub struct SessionView {
    /// The timers known, in the order in which they were found.
    pub timers: Seq<TimerDataView>,
    /// The place of the selected timer.
    pub curid: nat,
    /// The direction that the next `s` gives to every timer.
    pub stacking_direction: Direction,
    /// Whether new timers filter by the floor.
    pub floor_filter: bool,
    /// The settings of the observer.
    pub settings: TimeKeeper,
    /// What one reading of the clock costs.
    pub clock_overhead: Duration,
}

impl SessionView {
    /// The names of the timers known.
    pub open spec fn names(self) -> Seq<Seq<char>> {
        self.timers.map_values(|t: TimerDataView| t.name)
    }

    /// The invariant: no site is known twice, the selection stands on a
    /// timer or at zero, and the window asked for fits the machine.
    pub open spec fn wf(self) -> bool {
        &&& self.names().no_duplicates()
        &&& self.curid == 0 || self.curid < self.timers.len()
        &&& next_power_of_two(self.settings.n_datapoints as nat) <= usize::MAX
    }

    /// The timer that is made for a newly found site `name`, with its two
    /// streams made at `latency_now` and `business_now`.
    pub open spec fn new_timer(
        self,
        name: Seq<char>,
        latency_now: Instant,
        business_now: Instant,
    ) -> TimerDataView {
        let fresh = TimerDataView::initial(
            name,
            self.settings.samples_per_datapoint as nat,
            self.settings.n_datapoints as nat,
            self.clock_overhead,
            self.settings.minimum_duration,
            latency_now,
            business_now,
        );
        TimerDataView {
            latency: TimingDataView { floor_filter: self.floor_filter, ..fresh.latency },
            business: TimingDataView { floor_filter: self.floor_filter, ..fresh.business },
            ..fresh
        }
    }

    /// The selection after the key Down: one further, and back to the first
    /// after the last.
    pub open spec fn below(self) -> nat {
        if self.curid + 1 < self.timers.len() {
            self.curid + 1
        } else {
            0
        }
    }

    /// The selection after the key Up: one back, and on to the last from the
    /// first.
    pub open spec fn above(self) -> nat {
        if self.curid > 0 {
            (self.curid - 1) as nat
        } else if self.timers.len() > 0 {
            (self.timers.len() - 1) as nat
        } else {
            0
        }
    }

    /// The state after the key `s`: every timer takes the stacking direction,
    /// and the stacking direction flips.
    pub open spec fn restacked(self) -> Self {
        SessionView {
            timers: self.timers.map_values(
                |t: TimerDataView| TimerDataView { direction: self.stacking_direction, ..t },
            ),
            stacking_direction: self.stacking_direction.flipped(),
            ..self
        }
    }

    /// The state after a key and what the loop does then: a key that is not
    /// pressed counts for nothing; `q` ends the loop; `s` restacks; Down and
    /// Up move the selection round the timers; the last three draw at once.
    pub open spec fn after_key(self, key: Key, pressed: bool) -> (Self, KeyAction) {
        if !pressed {
            (self, KeyAction::Nothing)
        } else {
            match key {
                Key::Char(c) => if c == 'q' {
                    (self, KeyAction::Quit)
                } else if c == 's' {
                    (self.restacked(), KeyAction::Redraw)
                } else {
                    (self, KeyAction::Nothing)
                },
                Key::Down => (SessionView { curid: self.below(), ..self }, KeyAction::Redraw),
                Key::Up => (SessionView { curid: self.above(), ..self }, KeyAction::Redraw),
                Key::Other => (self, KeyAction::Nothing),
            }
        }
    }
}

/// What the observer keeps from one turn of its loop to the next.
#[derive(Debug, Clone)]
pub struct Session {
    time_datas: Vec<TimerData>,
    curid: usize,
    stacking_direction: Direction,
    floor_filter: bool,
    settings: TimeKeeper,
    clock_overhead: Duration,
}

impl View for Session {
    type V = SessionView;

    closed spec fn view(&self) -> SessionView {
        SessionView {
            timers: self.time_datas@.map_values(|t: TimerData| t@),
            curid: self.curid as nat,
            stacking_direction: self.stacking_direction,
            floor_filter: self.floor_filter,
            settings: self.settings,
            clock_overhead: self.clock_overhead,
        }
    }
}

impl TimeKeeper {
    /// The state in which the observer's loop begins: no timer is known, the
    /// selection is at zero, the next `s` stacks vertically, and the floor
    /// filter is off.
    pub fn session(&self, clock_overhead: Duration) -> (r: Session)
        requires
            next_power_of_two(self.n_datapoints as nat) <= usize::MAX,
        ensures
            r.wf(),
            r@ == (SessionView {
                timers: Seq::empty(),
                curid: 0,
                stacking_direction: Direction::Vertical,
                floor_filter: false,
                settings: *self,
                clock_overhead,
            }),
    {
        let r = Session {
            time_datas: Vec::new(),
            curid: 0,
            stacking_direction: Direction::Vertical,
            floor_filter: false,
            settings: *self,
            clock_overhead,
        };
        proof {
            assert(r@.timers =~= Seq::empty());
        }
        r
    }
}

impl Session {
    /// Every timer is well formed.
    pub closed spec fn timers_wf(&self) -> bool {
        forall|i: int| 0 <= i < self.time_datas@.len() ==> (#[trigger] self.time_datas@[i]).wf()
    }

    /// The invariant of the session.
    pub open spec fn wf(&self) -> bool {
        self.timers_wf() && self@.wf()
    }

    /// Makes the timers found from now on filter by the floor, or not.
    pub fn set_floor_filter(&mut self, on: bool)
        ensures
            final(self)@ == (SessionView { floor_filter: on, ..old(self)@ }),
            final(self).timers_wf() == old(self).timers_wf(),
    {
        self.floor_filter = on;
    }

    /// The number of timers known.
    pub fn len(&self) -> (n: usize)
        ensures
            n == self@.timers.len(),
    {
        self.time_datas.len()
    }

    /// The place of the selected timer.
    pub fn selected(&self) -> (r: usize)
        ensures
            r == self@.curid,
    {
        self.curid
    }

    /// The timer at place `id`.
    pub fn timer(&self, id: usize) -> (r: &TimerData)
        requires
            id < self@.timers.len(),
        ensures
            r@ == self@.timers[id as int],
            self.wf() ==> r.wf(),
    {
        &self.time_datas[id]
    }

    /// Whether a site called `name` is known.
    fn knows(&self, name: &String) -> (b: bool)
        ensures
            b == self@.names().contains(name@),
    {
        let mut i: usize = 0;
        while i < self.time_datas.len()
            invariant
                i <= self.time_datas@.len(),
                forall|j: int| 0 <= j < i ==> self@.names()[j] != name@,
            decreases self.time_datas@.len() - i,
        {
            proof {
                assert(self@.names()[i as int] == self.time_datas@[i as int]@.name);
            }
            if self.time_datas[i].name().eq(name) {
                return true;
            }
            i = i + 1;
        }
        false
    }

    /// Looks at one entry of the queue directory. The entry of a latency
    /// ring whose site is not known yet adds a timer for that site at the
    /// end, and the name of the site is the result: the rings of that site
    /// are the ones to open. Any other entry changes nothing.
    pub fn discover(&mut self, path: &str) -> (added: Option<String>)
        requires
            old(self).wf(),
        ensures
            final(self).wf(),
            final(self)@.names() == scan_entry(old(self)@.names(), path@),
            match added {
                Some(name) => {
                    let n = old(self)@.timers.len() as int;
                    &&& queue_name(path@) == Some(name@)
                    &&& !old(self)@.names().contains(name@)
                    &&& final(self)@.timers.len() == n + 1
                    &&& final(self)@.timers.subrange(0, n) == old(self)@.timers
                    &&& final(self)@.timers[n] == old(self)@.new_timer(
                        name@,
                        final(self)@.timers[n].latency.last_report,
                        final(self)@.timers[n].business.last_report,
                    )
                    &&& final(self)@ == (SessionView { timers: final(self)@.timers, ..old(self)@ })
                },
                None => {
                    &&& queue_name(path@) matches Some(name) ==> old(self)@.names().contains(name)
                    &&& final(self)@ == old(self)@
                },
            },
    {
        match latency_queue_name(path) {
            None => None,
            Some(name) => {
                if self.knows(&name) {
                    None
                } else {
                    let ghost before = self@;
                    let mut d = TimerData::new(
                        name.clone(),
                        self.settings.samples_per_datapoint,
                        self.settings.n_datapoints,
                        self.clock_overhead,
                        self.settings.minimum_duration,
                    );
                    d.set_floor_filter(self.floor_filter);
                    self.time_datas.push(d);
                    proof {
                        let n = before.timers.len() as int;
                        assert(self@.timers =~= before.timers.push(d@));
                        assert(self@.timers.subrange(0, n) =~= before.timers);
                        assert(self@.names() =~= before.names().push(name@));
                        assert(d@ =~= before.new_timer(
                            name@,
                            d@.latency.last_report,
                            d@.business.last_report,
                        ));
                    }
                    Some(name)
                }
            },
        }
    }

    /// Looks at the entries of the queue directory one by one, as `discover`
    /// does. The result holds the names of the sites that were added, in the
    /// order in which their timers were added.
    pub fn scan(&mut self, paths: &Vec<String>) -> (added: Vec<String>)
        requires
            old(self).wf(),
        ensures
            final(self).wf(),
            final(self)@.names() == scan(old(self)@.names(), contents(paths@)),
            final(self)@.names() == old(self)@.names() + contents(added@),
            final(self)@.timers.subrange(0, old(self)@.timers.len() as int) == old(self)@.timers,
            final(self)@ == (SessionView { timers: final(self)@.timers, ..old(self)@ }),
    {
        let ghost before = self@;
        let mut added: Vec<String> = Vec::new();
        let mut i: usize = 0;
        proof {
            assert(before.names() + contents(added@) =~= before.names());
            assert(before.timers.subrange(0, before.timers.len() as int) =~= before.timers);
            assert(contents(paths@).take(0) =~= Seq::<Seq<char>>::empty());
        }
        while i < paths.len()
            invariant
                i <= paths@.len(),
                self.wf(),
                self@.names() == scan(before.names(), contents(paths@).take(i as int)),
                self@.names() == before.names() + contents(added@),
                self@.timers.len() >= before.timers.len(),
                self@.timers.subrange(0, before.timers.len() as int) == before.timers,
                self@ == (SessionView { timers: self@.timers, ..before }),
            decreases paths@.len() - i,
        {
            let ghost prev = self@;
            let ghost listed = contents(added@);
            proof {
                assert(contents(paths@).take(i + 1).drop_last() =~= contents(paths@).take(
                    i as int,
                ));
                assert(contents(paths@).take(i + 1).last() == paths@[i as int]@);
            }
            match self.discover(paths[i].as_str()) {
                Some(name) => {
                    added.push(name);
                    proof {
                        assert(contents(added@) =~= listed.push(name@));
                        assert(self@.names() =~= prev.names().push(name@));
                        assert(self@.names() =~= before.names() + contents(added@));
                        assert(self@.timers.subrange(0, before.timers.len() as int)
                            =~= prev.timers.subrange(0, before.timers.len() as int));
                    }
                },
                None => {},
            }
            i = i + 1;
        }
        proof {
            assert(contents(paths@).take(paths@.len() as int) =~= contents(paths@));
        }
        added
    }

    /// Takes the outcome of one read from the latency ring of the timer at
    /// place `id` on the visit `drain`, and says what the reader does next.
    pub fn on_latency_read(
        &mut self,
        id: usize,
        drain: &mut Drain,
        outcome: ReadOutcome,
    ) -> (action: DrainAction)
        requires
            old(self).wf(),
            id < old(self)@.timers.len(),
            old(drain).accepted < old(drain).quota,
        ensures
            final(self).wf(),
            final(drain).quota == old(drain).quota,
            ({
                let was = old(self)@.timers[id as int];
                let step = drain_step(
                    was.latency,
                    old(drain).accepted as nat,
                    old(drain).quota as nat,
                    outcome,
                );
                &&& final(self)@ == (SessionView {
                    timers: old(self)@.timers.update(
                        id as int,
                        TimerDataView { latency: step.0, ..was },
                    ),
                    ..old(self)@
                })
                &&& final(drain).accepted == step.1
                &&& action == step.2
            }),
    {
        let ghost before = self@;
        match outcome {
            ReadOutcome::Sample(m) => {
                let counts = self.time_datas[id].latency_data().accepts(m.latency());
                self.time_datas[id].track_latency(&m);
                proof {
                    assert(self@.timers =~= before.timers.update(
                        id as int,
                        self.time_datas@[id as int]@,
                    ));
                    assert(self@.names() =~= before.names());
                }
                if counts {
                    drain.accepted = drain.accepted + 1;
                }
                if drain.accepted < drain.quota {
                    DrainAction::Continue
                } else {
                    DrainAction::Stop
                }
            },
            ReadOutcome::Empty => {
                proof {
                    assert(before.timers =~= before.timers.update(
                        id as int,
                        before.timers[id as int],
                    ));
                }
                DrainAction::Stop
            },
            ReadOutcome::SpedPast => {
                proof {
                    assert(before.timers =~= before.timers.update(
                        id as int,
                        before.timers[id as int],
                    ));
                }
                DrainAction::Recover
            },
        }
    }

    /// Takes the outcome of one read from the business ring of the timer at
    /// place `id` on the visit `drain`, and says what the reader does next.
    pub fn on_business_read(
        &mut self,
        id: usize,
        drain: &mut Drain,
        outcome: ReadOutcome,
    ) -> (action: DrainAction)
        requires
            old(self).wf(),
            id < old(self)@.timers.len(),
            old(drain).accepted < old(drain).quota,
        ensures
            final(self).wf(),
            final(drain).quota == old(drain).quota,
            ({
                let was = old(self)@.timers[id as int];
                let step = drain_step(
                    was.business,
                    old(drain).accepted as nat,
                    old(drain).quota as nat,
                    outcome,
                );
                &&& final(self)@ == (SessionView {
                    timers: old(self)@.timers.update(
                        id as int,
                        TimerDataView { business: step.0, ..was },
                    ),
                    ..old(self)@
                })
                &&& final(drain).accepted == step.1
                &&& action == step.2
            }),
    {
        let ghost before = self@;
        match outcome {
            ReadOutcome::Sample(m) => {
                let counts = self.time_datas[id].business_data().accepts(m.elapsed());
                self.time_datas[id].track_business(&m);
                proof {
                    assert(self@.timers =~= before.timers.update(
                        id as int,
                        self.time_datas@[id as int]@,
                    ));
                    assert(self@.names() =~= before.names());
                }
                if counts {
                    drain.accepted = drain.accepted + 1;
                }
                if drain.accepted < drain.quota {
                    DrainAction::Continue
                } else {
                    DrainAction::Stop
                }
            },
            ReadOutcome::Empty => {
                proof {
                    assert(before.timers =~= before.timers.update(
                        id as int,
                        before.timers[id as int],
                    ));
                }
                DrainAction::Stop
            },
            ReadOutcome::SpedPast => {
                proof {
                    assert(before.timers =~= before.timers.update(
                        id as int,
                        before.timers[id as int],
                    ));
                }
                DrainAction::Recover
            },
        }
    }

    /// Gives every timer the stacking direction and flips the latter.
    fn restack(&mut self)
        requires
            old(self).wf(),
        ensures
            final(self).wf(),
            final(self)@ == old(self)@.restacked(),
    {
        let ghost before = self@;
        let direction = self.stacking_direction;
        let n = self.time_datas.len();
        let mut i: usize = 0;
        while i < n
            invariant
                n == self.time_datas@.len(),
                n == before.timers.len(),
                i <= n,
                self.timers_wf(),
                direction == before.stacking_direction,
                self@ == (SessionView { timers: self@.timers, ..before }),
                forall|j: int|
                    0 <= j < i ==> #[trigger] self@.timers[j] == (TimerDataView {
                        direction,
                        ..before.timers[j]
                    }),
                forall|j: int| i <= j < n ==> #[trigger] self@.timers[j] == before.timers[j],
            decreases n - i,
        {
            let ghost prev = self@;
            self.time_datas[i].set_direction(direction);
            proof {
                assert(self@.timers =~= prev.timers.update(
                    i as int,
                    TimerDataView { direction, ..prev.timers[i as int] },
                ));
            }
            i = i + 1;
        }
        self.stacking_direction = direction.flip();
        proof {
            assert(self@.timers =~= before.restacked().timers);
            assert(self@.names() =~= before.names());
        }
    }

    /// Takes a key and says what the loop does next.
    pub fn on_key(&mut self, key: Key, pressed: bool) -> (action: KeyAction)
        requires
            old(self).wf(),
        ensures
            final(self).wf(),
            final(self)@ == old(self)@.after_key(key, pressed).0,
            action == old(self)@.after_key(key, pressed).1,
    {
        if !pressed {
            return KeyAction::Nothing;
        }
        match key {
            Key::Char(c) => {
                if c == 'q' {
                    KeyAction::Quit
                } else if c == 's' {
                    self.restack();
                    KeyAction::Redraw
                } else {
                    KeyAction::Nothing
                }
            },
            Key::Down => {
                if self.curid < self.time_datas.len() && self.curid + 1 < self.time_datas.len() {
                    self.curid = self.curid + 1;
                } else {
                    self.curid = 0;
                }
                KeyAction::Redraw
            },
            Key::Up => {
                if self.curid > 0 {
                    self.curid = self.curid - 1;
                } else if self.time_datas.len() > 0 {
                    self.curid = self.time_datas.len() - 1;
                }
                KeyAction::Redraw
            },
            Key::Other => KeyAction::Nothing,
        }
    }

    /// What a renderer draws now: the names of all timers, the selection, and
    /// the report of the selected timer, which is thereby reported.
    pub fn frame(&mut self) -> (r: Frame)
        requires
            old(self).wf(),
        ensures
            final(self).wf(),
            contents(r.names@) == old(self)@.names(),
            r.selected == old(self)@.curid,
            old(self)@.curid >= old(self)@.timers.len() ==> r.report is None && final(self)@
                == old(self)@,
            old(self)@.curid < old(self)@.timers.len() ==> {
                let id = old(self)@.curid as int;
                let was = old(self)@.timers[id];
                let now = final(self)@.timers[id];
                &&& r.report matches Some(shown)
                &&& shown.name@ == was.name
                &&& shown.direction == was.direction
                &&& shown.latency.describes(was.latency.registered())
                &&& shown.business.describes(was.business.registered())
                &&& final(self)@ == (SessionView {
                    timers: old(self)@.timers.update(
                        id,
                        TimerDataView {
                            latency: was.latency.reported(now.latency.last_report),
                            business: was.business.reported(now.business.last_report),
                            ..was
                        },
                    ),
                    ..old(self)@
                })
            },
    {
        let ghost before = self@;
        let n = self.time_datas.len();
        let mut names: Vec<String> = Vec::new();
        let mut i: usize = 0;
        while i < n
            invariant
                n == self.time_datas@.len(),
                i <= n,
                self@ == before,
                contents(names@) == before.names().take(i as int),
            decreases n - i,
        {
            names.push(self.time_datas[i].name().clone());
            proof {
                assert(contents(names@) =~= before.names().take(i as int).push(
                    before.names()[i as int],
                ));
                assert(before.names().take(i + 1) =~= before.names().take(i as int).push(
                    before.names()[i as int],
                ));
            }
            i = i + 1;
        }
        proof {
            assert(before.names().take(n as int) =~= before.names());
        }
        let selected = self.curid;
        let report = if selected < n {
            let shown = self.time_datas[selected].report();
            proof {
                assert(self@.timers =~= before.timers.update(
                    selected as int,
                    self.time_datas@[selected as int]@,
                ));
                assert(self@.names() =~= before.names());
            }
            Some(shown)
        } else {
            None
        };
        Frame { names, selected, report }
    }
}

} // verus!
