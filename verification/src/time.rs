//! Time units: `Instant` and `Duration` count cycles, `Nanos` counts nanoseconds.

use crate::trusted::unix_time_nanos;
use vstd::prelude::*;

verus! {

/// A reading of the cycle counter.
#[derive(Copy, Clone, Debug, PartialEq, Eq, PartialOrd, Ord, Hash, Structural)]
pub struct Instant(pub u64);

/// A span of time in nanoseconds.
#[derive(Copy, Clone, Debug, PartialEq, Eq, PartialOrd, Ord, Hash, Structural)]
pub struct Nanos(pub u64);

/// A span of time in cycles.
#[derive(Copy, Clone, Debug, PartialEq, Eq, PartialOrd, Ord, Hash, Structural)]
pub struct Duration(pub u64);

/// The nanoseconds in a second.
pub const NANOS_PER_SEC: u64 = 1_000_000_000;

/// The nanoseconds in a millisecond.
pub const NANOS_PER_MILLI: u64 = 1_000_000;

/// The nanoseconds in a microsecond.
pub const NANOS_PER_MICRO: u64 = 1_000;

impl Nanos {
    /// `s` seconds.
    pub fn from_secs(s: u64) -> (r: Self)
        requires
            s * NANOS_PER_SEC <= u64::MAX,
        ensures
            r.0 == s * NANOS_PER_SEC,
    {
        Nanos(s * NANOS_PER_SEC)
    }

    /// `s` milliseconds.
    pub fn from_millis(s: u64) -> (r: Self)
        requires
            s * NANOS_PER_MILLI <= u64::MAX,
        ensures
            r.0 == s * NANOS_PER_MILLI,
    {
        Nanos(s * NANOS_PER_MILLI)
    }

    /// `s` microseconds.
    pub fn from_micros(s: u64) -> (r: Self)
        requires
            s * NANOS_PER_MICRO <= u64::MAX,
        ensures
            r.0 == s * NANOS_PER_MICRO,
    {
        Nanos(s * NANOS_PER_MICRO)
    }

    /// The wall-clock time since the Unix epoch, reduced to 64 bits. A clock
    /// set before the epoch reads as zero.
    pub fn now() -> Self {
        Self::since_epoch(unix_time_nanos())
    }

    /// The span that a reading of the wall clock gives: the low 64 bits of
    /// the nanoseconds since the Unix epoch, and zero for a reading before
    /// the epoch.
    pub fn since_epoch(reading: Option<u128>) -> (r: Self)
        ensures
            r.0 == (match reading {
                Some(n) => n % 0x1_0000_0000_0000_0000,
                None => 0,
            }),
    {
        match reading {
            Some(n) => Nanos((n % 0x1_0000_0000_0000_0000) as u64),
            None => Nanos(0),
        }
    }
}

impl Default for Instant {
    fn default() -> (r: Self)
        ensures
            r.0 == 0,
    {
        Instant(0)
    }
}

impl Default for Nanos {
    fn default() -> (r: Self)
        ensures
            r.0 == 0,
    {
        Nanos(0)
    }
}

impl Default for Duration {
    fn default() -> (r: Self)
        ensures
            r.0 == 0,
    {
        Duration(0)
    }
}

impl Duration {
    /// `self - rhs`, or zero where `rhs` is the larger.
    pub fn saturating_sub(self, rhs: Duration) -> (r: Duration)
        ensures
            r.0 == (if self.0 >= rhs.0 {
                self.0 - rhs.0
            } else {
                0
            }),
    {
        if self.0 >= rhs.0 {
            Duration(self.0 - rhs.0)
        } else {
            Duration(0)
        }
    }
}

/// The machine's clock: it reads the cycle counter and knows how the counter
/// relates to wall time. All clocks of a process agree. Making one costs far
/// more than reading it, so whoever reads often keeps one.
#[derive(Debug)]
pub struct CycleClock {
    inner: quanta::Clock,
}

impl CycleClock {
    /// A clock.
    pub fn new() -> Self {
        CycleClock { inner: quanta::Clock::new() }
    }

    /// A fresh reading of the cycle counter.
    #[inline(always)]
    pub fn now(&self) -> Instant {
        Instant(self.inner.raw())
    }

    /// The time from `start` to `end`. It is zero where `end` is not the
    /// later reading.
    pub fn delta(&self, start: Instant, end: Instant) -> (r: Nanos)
        ensures
            end.0 <= start.0 ==> r.0 == 0,
    {
        Nanos(self.inner.delta_as_nanos(start.0, end.0))
    }

    /// The time from the reading `since` to a fresh one. It is never
    /// negative; it is zero where the counter has not moved past `since`, as
    /// it cannot have where `since` is the last reading that there is.
    pub fn elapsed(&self, since: Instant) -> (r: Nanos)
        ensures
            0 <= r.0,
            since.0 == u64::MAX ==> r.0 == 0,
    {
        self.delta(since, self.now())
    }

    /// What this clock makes of 100 cycles, as a calibration; `None` where
    /// the clock is too fast to tell 100 cycles from none.
    pub fn calibration(&self) -> (r: Option<ClockCalibration>)
        ensures
            r matches Some(c) ==> c.wf(),
    {
        ClockCalibration::new(self.delta(Instant(0), Instant(100)).0)
    }
}

impl Instant {
    /// A fresh reading of the cycle counter, on a clock made for the purpose.
    pub fn now() -> Self {
        CycleClock::new().now()
    }

    /// The time from this reading to a fresh one, on a clock made for the
    /// purpose. It is never negative; it is zero where the counter has not
    /// moved past this reading, as it cannot have where this is the last
    /// reading that there is.
    pub fn elapsed(&self) -> (r: Nanos)
        ensures
            0 <= r.0,
            self.0 == u64::MAX ==> r.0 == 0,
    {
        CycleClock::new().elapsed(*self)
    }

    /// The time from `earlier` to this reading. It is zero where this reading
    /// is not the later one.
    pub fn since(self, earlier: Instant) -> (r: Nanos)
        ensures
            self.0 <= earlier.0 ==> r.0 == 0,
    {
        CycleClock::new().delta(earlier, self)
    }

    /// The reading `rhs` earlier than this one, with `rhs` scaled to cycles;
    /// `None` where that lies before the counter's zero.
    pub fn checked_sub_nanos(self, rhs: Nanos, calibration: &ClockCalibration) -> (r: Option<
        Instant,
    >)
        requires
            calibration.wf(),
        ensures
            r == (if nanos_to_cycles(rhs.0 as nat, calibration.rate()) <= self.0 {
                Some(Instant((self.0 - nanos_to_cycles(rhs.0 as nat, calibration.rate())) as u64))
            } else {
                None
            }),
    {
        match calibration.checked_to_cycles(rhs) {
            Some(d) => if d.0 <= self.0 {
                Some(Instant(self.0 - d.0))
            } else {
                None
            },
            None => None,
        }
    }

    /// The reading `rhs` later than this one, with `rhs` scaled to cycles;
    /// `None` where that lies past the counter's range.
    pub fn checked_add_nanos(self, rhs: Nanos, calibration: &ClockCalibration) -> (r: Option<
        Instant,
    >)
        requires
            calibration.wf(),
        ensures
            r == (if self.0 + nanos_to_cycles(rhs.0 as nat, calibration.rate()) <= u64::MAX {
                Some(Instant((self.0 + nanos_to_cycles(rhs.0 as nat, calibration.rate())) as u64))
            } else {
                None
            }),
    {
        match calibration.checked_to_cycles(rhs) {
            Some(d) => if d.0 <= u64::MAX - self.0 {
                Some(Instant(self.0 + d.0))
            } else {
                None
            },
            None => None,
        }
    }
}

/// Something that carries the time at which it left its origin.
pub trait TimeStamped {
    /// When the value left its origin.
    fn ingestion_t(&self) -> Instant;

    /// The time since the value left its origin.
    #[inline(always)]
    fn elapsed(&self) -> Nanos {
        self.ingestion_t().elapsed()
    }
}

/// The nanoseconds that `cycles` cycles take on a clock that takes `rate`
/// nanoseconds for 100 cycles, rounded down.
pub open spec fn cycles_to_nanos(cycles: nat, rate: nat) -> nat {
    cycles * rate / 100
}

/// The cycles that pass in `nanos` nanoseconds on a clock that takes `rate`
/// nanoseconds for 100 cycles, rounded down.
pub open spec fn nanos_to_cycles(nanos: nat, rate: nat) -> nat {
    nanos * 100 / rate
}

/// From cycles to nanoseconds and back loses exactly the cycles that the
/// rounded-off part of a nanosecond stands for, rounded up: the way back
/// never gives more than `cycles`, and it falls short by
/// `ceil((cycles * rate % 100) / rate)`.
pub proof fn lemma_round_trip_loss(cycles: nat, rate: nat)
    requires
        rate > 0,
    ensures
        ({
            let back = nanos_to_cycles(cycles_to_nanos(cycles, rate), rate);
            let lost = (cycles * rate) % 100;
            &&& back <= cycles
            &&& cycles - back == (lost + rate - 1) / (rate as int)
        }),
{
    let total = cycles * rate;
    let lost = total % 100;
    let nanos = total / 100;
    let short = (lost + rate - 1) / (rate as int);
    assert(nanos * 100 == total - lost) by (nonlinear_arith)
        requires
            nanos == total / 100,
            lost == total % 100,
    ;
    // nanos * 100 == (cycles - short) * rate + (short * rate - lost), and the
    // second term is a remainder below `rate`.
    assert(0 <= short * rate - lost < rate) by (nonlinear_arith)
        requires
            rate > 0,
            lost >= 0,
            short == (lost + rate - 1) / (rate as int),
    ;
    assert(short <= cycles) by (nonlinear_arith)
        requires
            rate > 0,
            0 <= lost <= cycles * rate,
            short == (lost + rate - 1) / (rate as int),
    ;
    let rest = short * rate - lost;
    assert((total - lost) / (rate as int) == cycles - short) by (nonlinear_arith)
        requires
            rate > 0,
            total == cycles * rate,
            rest == short * rate - lost,
            0 <= rest < rate,
            short <= cycles,
    ;
}

/// From cycles to nanoseconds and back gives `cycles` again within one
/// cycle, wherever the part of a nanosecond that is rounded off stands for no
/// more than one cycle. A clock of at least 100 nanoseconds for 100 cycles
/// always meets that.
pub proof fn lemma_round_trip(cycles: nat, rate: nat)
    requires
        rate > 0,
        (cycles * rate) % 100 <= rate,
    ensures
        nanos_to_cycles(cycles_to_nanos(cycles, rate), rate) <= cycles,
        cycles - nanos_to_cycles(cycles_to_nanos(cycles, rate), rate) <= 1,
{
    lemma_round_trip_loss(cycles, rate);
    let lost = (cycles * rate) % 100;
    assert((lost + rate - 1) / (rate as int) <= 1) by (nonlinear_arith)
        requires
            rate > 0,
            0 <= lost <= rate,
    ;
}

/// How the cycle counter relates to wall time: the nanoseconds that 100
/// cycles take. It is taken once from the clock and then handed to whatever
/// converts between cycles and nanoseconds.
#[derive(Copy, Clone, Debug, PartialEq, Eq, Structural)]
pub struct ClockCalibration {
    nanos_per_100_cycles: u64,
}

impl ClockCalibration {
    /// The nanoseconds that 100 cycles take.
    pub closed spec fn rate(&self) -> nat {
        self.nanos_per_100_cycles as nat
    }

    /// The invariant: 100 cycles take some time.
    pub open spec fn wf(&self) -> bool {
        self.rate() > 0
    }

    /// A calibration of `nanos_per_100_cycles`; `None` for zero.
    pub fn new(nanos_per_100_cycles: u64) -> (r: Option<Self>)
        ensures
            nanos_per_100_cycles == 0 ==> r is None,
            nanos_per_100_cycles > 0 ==> (r matches Some(c) && c.wf() && c.rate()
                == nanos_per_100_cycles),
    {
        if nanos_per_100_cycles == 0 {
            None
        } else {
            Some(ClockCalibration { nanos_per_100_cycles })
        }
    }

    /// The calibration of this machine's clock: what the clock makes of 100
    /// cycles. `None` where the clock is too fast to tell 100 cycles from
    /// none.
    pub fn probe() -> (r: Option<Self>)
        ensures
            r matches Some(c) ==> c.wf(),
    {
        CycleClock::new().calibration()
    }

    /// The nanoseconds that 100 cycles take.
    pub fn nanos_per_100_cycles(&self) -> (r: u64)
        ensures
            r == self.rate(),
    {
        self.nanos_per_100_cycles
    }

    /// `d` in nanoseconds, `d * rate / 100`; `None` where that does not fit
    /// in 64 bits.
    pub fn checked_to_nanos(&self, d: Duration) -> (r: Option<Nanos>)
        ensures
            r == (if cycles_to_nanos(d.0 as nat, self.rate()) <= u64::MAX {
                Some(Nanos(cycles_to_nanos(d.0 as nat, self.rate()) as u64))
            } else {
                None
            }),
    {
        assert(d.0 * self.nanos_per_100_cycles <= u64::MAX * u64::MAX) by (nonlinear_arith)
            requires
                d.0 <= u64::MAX,
                self.nanos_per_100_cycles <= u64::MAX,
        ;
        let scaled: u128 = (d.0 as u128) * (self.nanos_per_100_cycles as u128) / 100;
        if scaled <= u64::MAX as u128 {
            Some(Nanos(scaled as u64))
        } else {
            None
        }
    }

    /// `d` in nanoseconds, `d * rate / 100`.
    pub fn to_nanos(&self, d: Duration) -> (r: Nanos)
        requires
            cycles_to_nanos(d.0 as nat, self.rate()) <= u64::MAX,
        ensures
            r.0 == cycles_to_nanos(d.0 as nat, self.rate()),
    {
        assert(d.0 * self.nanos_per_100_cycles <= u64::MAX * u64::MAX) by (nonlinear_arith)
            requires
                d.0 <= u64::MAX,
                self.nanos_per_100_cycles <= u64::MAX,
        ;
        Nanos(((d.0 as u128) * (self.nanos_per_100_cycles as u128) / 100) as u64)
    }

    /// `n` in cycles, `n * 100 / rate`; `None` where that does not fit in 64
    /// bits.
    pub fn checked_to_cycles(&self, n: Nanos) -> (r: Option<Duration>)
        requires
            self.wf(),
        ensures
            r == (if nanos_to_cycles(n.0 as nat, self.rate()) <= u64::MAX {
                Some(Duration(nanos_to_cycles(n.0 as nat, self.rate()) as u64))
            } else {
                None
            }),
    {
        let scaled: u128 = (n.0 as u128) * 100 / (self.nanos_per_100_cycles as u128);
        if scaled <= u64::MAX as u128 {
            Some(Duration(scaled as u64))
        } else {
            None
        }
    }

    /// `n` in cycles, `n * 100 / rate`.
    pub fn to_cycles(&self, n: Nanos) -> (r: Duration)
        requires
            self.wf(),
            nanos_to_cycles(n.0 as nat, self.rate()) <= u64::MAX,
        ensures
            r.0 == nanos_to_cycles(n.0 as nat, self.rate()),
    {
        Duration(((n.0 as u128) * 100 / (self.nanos_per_100_cycles as u128)) as u64)
    }
}

/// Lets something run at most once in every interval.
#[derive(Debug)]
pub struct Repeater {
    interval: Nanos,
    last_acted: Instant,
    clock: CycleClock,
}

impl Repeater {
    /// The time that has to pass between two runs.
    pub closed spec fn interval(&self) -> Nanos {
        self.interval
    }

    /// The reading at which the last run was let through.
    pub closed spec fn last_acted(&self) -> Instant {
        self.last_acted
    }

    /// Whether a run is due when `elapsed` has passed since the last one:
    /// it is once a whole interval has passed.
    pub open spec fn due(&self, elapsed: Nanos) -> bool {
        elapsed.0 >= self.interval().0
    }

    /// A repeater that lets a run through once in every `interval`, counted
    /// from now.
    pub fn every(interval: Nanos) -> (r: Self)
        ensures
            r.interval() == interval,
    {
        let clock = CycleClock::new();
        Repeater { interval, last_acted: clock.now(), clock }
    }

    /// Decides at the reading `now`, `elapsed` after the last run, whether a
    /// run is let through: it is exactly when a whole interval has passed,
    /// and then the next interval counts from `now`.
    pub fn pass(&mut self, elapsed: Nanos, now: Instant) -> (through: bool)
        ensures
            through == old(self).due(elapsed),
            final(self).interval() == old(self).interval(),
            final(self).last_acted() == (if through {
                now
            } else {
                old(self).last_acted()
            }),
    {
        if elapsed.0 >= self.interval.0 {
            self.last_acted = now;
            true
        } else {
            false
        }
    }

    /// Runs `f` if a whole interval has passed since the last run, and not
    /// otherwise; the result says whether it ran. With an interval of zero
    /// every call runs `f`, whatever the clock shows.
    pub fn maybe<F>(&mut self, f: F) -> (ran: bool) where F: FnOnce() -> ()
        requires
            f.requires(()),
        ensures
            final(self).interval() == old(self).interval(),
            ran ==> f.ensures((), ()),
            !ran ==> final(self).last_acted() == old(self).last_acted(),
            old(self).interval().0 == 0 ==> ran,
    {
        let now = self.clock.now();
        let elapsed = self.clock.delta(self.last_acted, now);
        if self.pass(elapsed, now) {
            f();
            true
        } else {
            false
        }
    }
}

/// How often a busy wait polls the clock at most before it gives up.
pub const MAX_POLLS: u64 = u64::MAX;

/// Whether a wait for `duration` is over when `elapsed` has passed.
pub fn wait_is_over(elapsed: Nanos, duration: Nanos) -> (over: bool)
    ensures
        over == (elapsed.0 >= duration.0),
{
    elapsed.0 >= duration.0
}

/// Polls the clock until the wait for `duration` since `start` is over. The
/// result is the time since `start` that the clock showed at the poll that
/// ended the wait, which is at least `duration`; it is `None` where
/// `MAX_POLLS` polls did not see the wait over. A wait for no time is over at
/// the first poll, whatever the clock shows.
pub fn busy_wait(clock: &CycleClock, start: Instant, duration: Nanos) -> (waited: Option<Nanos>)
    ensures
        waited matches Some(elapsed) ==> elapsed.0 >= duration.0,
        duration.0 == 0 ==> waited is Some,
{
    let mut polls: u64 = 0;
    while polls < MAX_POLLS
        invariant
            polls <= MAX_POLLS,
            duration.0 == 0 ==> polls == 0,
        decreases MAX_POLLS - polls,
    {
        let elapsed = clock.elapsed(start);
        if wait_is_over(elapsed, duration) {
            return Some(elapsed);
        }
        polls = polls + 1;
    }
    None
}

/// Runs `f` and then waits, polling the clock, until `duration` has passed
/// since the call began. With no duration, or one of zero, it only runs `f`.
/// Either way the result is that of `f`.
#[inline(always)]
pub fn vsync_busy<F, R>(duration: Option<Nanos>, f: F) -> (out: R) where F: FnOnce() -> R
    requires
        f.requires(()),
    ensures
        f.ensures((), out),
{
    match duration {
        Some(duration) => {
            if duration.0 != 0 {
                let clock = CycleClock::new();
                let start_t = clock.now();
                let out = f();
                let _ = busy_wait(&clock, start_t, duration);
                out
            } else {
                f()
            }
        },
        None => f(),
    }
}

/// How long a caller that began its work `elapsed` ago has to sleep to fill
/// `duration`: the rest of it, where some is left; `None` with no duration,
/// one of zero, or none left.
pub fn vsync_rest(duration: Option<Nanos>, elapsed: Nanos) -> (rest: Option<Nanos>)
    ensures
        rest == (match duration {
            Some(d) => if d.0 != 0 && elapsed.0 < d.0 {
                Some(Nanos((d.0 - elapsed.0) as u64))
            } else {
                None
            },
            None => None,
        }),
{
    match duration {
        Some(d) => {
            if d.0 != 0 && elapsed.0 < d.0 {
                Some(Nanos(d.0 - elapsed.0))
            } else {
                None
            }
        },
        None => None,
    }
}

/// Waits, polling the clock, until `duration` has passed. With no duration,
/// or one of zero, it returns at once.
#[inline(always)]
pub fn busy_sleep(duration: Option<Nanos>) {
    match duration {
        None => {},
        Some(duration) => {
            if duration.0 != 0 {
                let clock = CycleClock::new();
                let curt = clock.now();
                let _ = busy_wait(&clock, curt, duration);
            }
        },
    }
}

} // verus!
