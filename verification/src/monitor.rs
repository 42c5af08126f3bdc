//! The quota monitor of one traffic direction: how a sample of the counter is
//! classified against the quota, what is said about it, and when the quota
//! period starts anew.
//!
//! The monitor decides and never waits. Its owner takes a snapshot with
//! [`QuotaMonitor::begin_sample`], suspends for the sample interval, reads
//! the counter again and hands the reading to [`QuotaMonitor::end_sample`],
//! which returns the line to log, whether the shared counter has to be
//! zeroed, and whether the worker has to stop.

use crate::byte_count::{human_size, ByteCount};
use crate::counter::Globals;
use crate::direction::Direction;
use crate::time::{elapsed_seconds, Timestamp};
use vstd::prelude::*;
use vstd::string::StringExecFns;

verus! {

/// How far into its quota a direction has got.
#[derive(Clone, Copy, Debug, PartialEq, Eq, Structural)]
pub enum Band {
    /// Less than half of the quota is used.
    Normal,
    /// At least half of the quota is used.
    Warn50,
    /// At least three quarters of the quota are used.
    Warn75,
    /// The quota is used up.
    Exceeded,
}

impl Band {
    /// The position of the band, from `Normal` (0) to `Exceeded` (3).
    pub open spec fn rank(self) -> nat {
        match self {
            Band::Normal => 0,
            Band::Warn50 => 1,
            Band::Warn75 => 2,
            Band::Exceeded => 3,
        }
    }
}

/// The band of `consumed` bytes against a quota of `quota` bytes. The
/// thresholds are compared by multiplying, so nothing is lost to division.
pub open spec fn classify_spec(consumed: nat, quota: nat) -> Band {
    if consumed >= quota {
        Band::Exceeded
    } else if consumed * 4 >= quota * 3 {
        Band::Warn75
    } else if consumed * 2 >= quota {
        Band::Warn50
    } else {
        Band::Normal
    }
}

/// Classifies a reading of the counter against the quota.
pub fn classify(consumed: u64, quota: u64) -> (band: Band)
    ensures
        band == classify_spec(consumed as nat, quota as nat),
{
    let c: u128 = consumed as u128;
    let q: u128 = quota as u128;
    if c >= q {
        Band::Exceeded
    } else if c * 4 >= q * 3 {
        Band::Warn75
    } else if c * 2 >= q {
        Band::Warn50
    } else {
        Band::Normal
    }
}

/// More consumption never leads to a lower band.
pub proof fn lemma_classify_monotonic(lower: nat, higher: nat, quota: nat)
    requires
        lower <= higher,
    ensures
        classify_spec(lower, quota).rank() <= classify_spec(higher, quota).rank(),
{
}

/// The bytes that arrived between two readings of the counter. A counter
/// that went backwards counts as no traffic.
pub open spec fn delta_spec(before: nat, after: nat) -> nat {
    if after >= before {
        (after - before) as nat
    } else {
        0
    }
}

/// Bytes per second over `elapsed_secs` whole seconds; less than one second
/// counts as one.
pub open spec fn rate_spec(delta: nat, elapsed_secs: nat) -> nat {
    if elapsed_secs < 1 {
        delta
    } else {
        delta / elapsed_secs
    }
}

/// The rate at which `delta` bytes arrived in `elapsed_secs` whole seconds.
/// The divisor is never zero: an interval shorter than one second is taken
/// as one second.
pub fn rate(delta: u64, elapsed_secs: u64) -> (r: u64)
    ensures
        r == rate_spec(delta as nat, elapsed_secs as nat),
        elapsed_secs < 1 ==> r == delta,
        r <= delta,
{
    let divisor: u64 = if elapsed_secs < 1 {
        1
    } else {
        elapsed_secs
    };
    assert(delta / divisor <= delta) by (nonlinear_arith)
        requires
            divisor >= 1,
    ;
    delta / divisor
}

/// The severity of a log line.
#[derive(Clone, Copy, Debug, PartialEq, Eq, Structural)]
pub enum Level {
    Info,
    Warn,
}

/// What a log line says about a sample.
#[derive(Clone, Copy, Debug, PartialEq, Eq, Structural)]
pub enum Notice {
    /// The plain rate line.
    Rate,
    /// Half of the quota is used.
    HalfUsed,
    /// Three quarters of the quota are used.
    ThreeQuartersUsed,
    /// The quota has just been used up: the first such sample of the period.
    QuotaExceeded,
}

impl Notice {
    /// What follows the rate in the log line.
    pub open spec fn suffix(self) -> Seq<char> {
        match self {
            Notice::Rate => ""@,
            Notice::HalfUsed => " - 50% of quota exceeded!"@,
            Notice::ThreeQuartersUsed => " - 75% of quota exceeded!"@,
            Notice::QuotaExceeded => " - 100% of quota exceeded!"@,
        }
    }

    /// Warnings for every notice but the plain rate line.
    pub open spec fn level_spec(self) -> Level {
        match self {
            Notice::Rate => Level::Info,
            _ => Level::Warn,
        }
    }

    pub fn suffix_str(self) -> (s: &'static str)
        ensures
            s@ == self.suffix(),
    {
        match self {
            Notice::Rate => "",
            Notice::HalfUsed => " - 50% of quota exceeded!",
            Notice::ThreeQuartersUsed => " - 75% of quota exceeded!",
            Notice::QuotaExceeded => " - 100% of quota exceeded!",
        }
    }

    pub fn level(self) -> (l: Level)
        ensures
            l == self.level_spec(),
    {
        match self {
            Notice::Rate => Level::Info,
            _ => Level::Warn,
        }
    }
}

/// What is said about a sample in `band` while the latch is `latched`. The
/// exceeded notice is given on the edge only: once the latch is set, samples
/// at or over the quota get the plain rate line. The two warnings are given
/// for every sample in their band.
pub open spec fn notice_for(band: Band, latched: bool) -> Notice {
    match band {
        Band::Exceeded => if latched {
            Notice::Rate
        } else {
            Notice::QuotaExceeded
        },
        Band::Warn75 => Notice::ThreeQuartersUsed,
        Band::Warn50 => Notice::HalfUsed,
        Band::Normal => Notice::Rate,
    }
}

/// The latch after the samples of one quota period have been observed in
/// order, starting from `latched`.
pub open spec fn latch_after(latched: bool, quota: nat, samples: Seq<nat>) -> bool
    decreases samples.len(),
{
    if samples.len() == 0 {
        latched
    } else {
        latch_after(latched, quota, samples.drop_last()) || classify_spec(samples.last(), quota)
            == Band::Exceeded
    }
}

/// The notice given for sample `i` of a quota period that began with the
/// latch at `latched`.
pub open spec fn notice_at(latched: bool, quota: nat, samples: Seq<nat>, i: int) -> Notice
    recommends
        0 <= i < samples.len(),
{
    notice_for(classify_spec(samples[i], quota), latch_after(latched, quota, samples.take(i)))
}

/// The latch is set after a run of samples exactly if it was set before or
/// one of the samples reached the quota.
pub proof fn lemma_latch_after(latched: bool, quota: nat, samples: Seq<nat>)
    ensures
        latch_after(latched, quota, samples) <==> latched || exists|j: int|
            0 <= j < samples.len() && samples[j] >= quota,
    decreases samples.len(),
{
    if samples.len() > 0 {
        let front = samples.drop_last();
        lemma_latch_after(latched, quota, front);
        assert(forall|j: int| 0 <= j < front.len() ==> front[j] == samples[j]);
        if latch_after(latched, quota, samples) && !latched {
            if latch_after(latched, quota, front) {
                let j = choose|j: int| 0 <= j < front.len() && front[j] >= quota;
                assert(samples[j] >= quota);
            } else {
                assert(samples[samples.len() - 1] >= quota);
            }
        }
        if exists|j: int| 0 <= j < samples.len() && samples[j] >= quota {
            let j = choose|j: int| 0 <= j < samples.len() && samples[j] >= quota;
            if j < front.len() {
                assert(front[j] >= quota);
            }
        }
    }
}

/// The exceeded notice is edge-triggered: within one quota period it is given
/// for a sample exactly if the latch was clear when the period's samples
/// began, the sample has reached the quota, and no earlier sample had.
pub proof fn lemma_exceeded_notice_on_first_crossing(
    latched: bool,
    quota: nat,
    samples: Seq<nat>,
    i: int,
)
    requires
        0 <= i < samples.len(),
    ensures
        notice_at(latched, quota, samples, i) == Notice::QuotaExceeded <==> {
            &&& !latched
            &&& samples[i] >= quota
            &&& forall|j: int| 0 <= j < i ==> samples[j] < quota
        },
{
    let earlier = samples.take(i);
    lemma_latch_after(latched, quota, earlier);
    assert(forall|j: int| 0 <= j < i ==> earlier[j] == samples[j]);
    if exists|j: int| 0 <= j < earlier.len() && earlier[j] >= quota {
        let j = choose|j: int| 0 <= j < earlier.len() && earlier[j] >= quota;
        assert(samples[j] >= quota);
    }
    if !(forall|j: int| 0 <= j < i ==> samples[j] < quota) {
        let j = choose|j: int| 0 <= j < i && !(samples[j] < quota);
        assert(earlier[j] >= quota);
    }
}

/// Within one quota period the exceeded notice is given at most once.
pub proof fn lemma_exceeded_notice_at_most_once(
    latched: bool,
    quota: nat,
    samples: Seq<nat>,
    i: int,
    j: int,
)
    requires
        0 <= i < j < samples.len(),
    ensures
        !(notice_at(latched, quota, samples, i) == Notice::QuotaExceeded && notice_at(
            latched,
            quota,
            samples,
            j,
        ) == Notice::QuotaExceeded),
{
    lemma_exceeded_notice_on_first_crossing(latched, quota, samples, i);
    lemma_exceeded_notice_on_first_crossing(latched, quota, samples, j);
}

/// While the counter does not go backwards, a latch that was clear when the
/// period's samples began is set only if the latest sample has reached the
/// quota.
pub proof fn lemma_latch_implies_exceeded(quota: nat, samples: Seq<nat>)
    requires
        samples.len() > 0,
        forall|i: int, j: int| 0 <= i <= j < samples.len() ==> samples[i] <= samples[j],
    ensures
        latch_after(false, quota, samples) ==> samples.last() >= quota,
{
    lemma_latch_after(false, quota, samples);
}

/// The text of a log line: direction, consumed bytes, rate, and what the
/// notice adds.
pub open spec fn line_text(direction: Direction, consumed: nat, rate: nat, notice: Notice) -> Seq<
    char,
> {
    direction.label() + ": "@ + human_size(consumed) + " @ "@ + human_size(rate) + "/s"@
        + notice.suffix()
}

/// One line for the log.
#[derive(Clone, Debug)]
pub struct LogLine {
    pub level: Level,
    pub text: String,
}

/// Writes the log line of a sample.
pub fn log_line(direction: Direction, consumed: u64, rate: u64, notice: Notice) -> (line: LogLine)
    ensures
        line.level == notice.level_spec(),
        line.text@ == line_text(direction, consumed as nat, rate as nat, notice),
{
    let mut text = String::new();
    text.append(direction.name());
    text.append(": ");
    let size = ByteCount(consumed).to_string();
    text.append(size.as_str());
    text.append(" @ ");
    let speed = ByteCount(rate).to_string();
    text.append(speed.as_str());
    text.append("/s");
    text.append(notice.suffix_str());
    assert(text@ =~= line_text(direction, consumed as nat, rate as nat, notice));
    LogLine { level: notice.level(), text }
}

/// The rolling window over which the quota is granted.
#[derive(Clone, Copy, Debug)]
pub struct QuotaPeriod {
    /// Length of the period in seconds.
    pub length: u64,
    /// When the period began.
    pub last_reset: Timestamp,
    /// The latch: set by the first sample of the period that reaches the
    /// quota, cleared by nothing but a reset.
    pub exceeded: bool,
}

impl QuotaPeriod {
    /// Whether the period has run out at `now`: more than `length` whole
    /// seconds have passed since it began.
    pub open spec fn is_over_spec(&self, now: Timestamp) -> bool {
        elapsed_seconds(self.last_reset.as_nanos(), now.as_nanos()) > self.length
    }

    /// A period of `length` seconds that begins at `now`, latch clear.
    pub fn new(length: u64, now: Timestamp) -> (p: QuotaPeriod)
        ensures
            p.length == length,
            p.last_reset == now,
            !p.exceeded,
    {
        QuotaPeriod { length, last_reset: now, exceeded: false }
    }

    /// Takes note of a sample's band: picks the notice and sets the latch if
    /// the quota is reached.
    pub fn observe(&mut self, band: Band) -> (notice: Notice)
        ensures
            notice == notice_for(band, old(self).exceeded),
            final(self).exceeded == (old(self).exceeded || band == Band::Exceeded),
            final(self).length == old(self).length,
            final(self).last_reset == old(self).last_reset,
    {
        match band {
            Band::Exceeded => {
                if self.exceeded {
                    Notice::Rate
                } else {
                    self.exceeded = true;
                    Notice::QuotaExceeded
                }
            },
            Band::Warn75 => Notice::ThreeQuartersUsed,
            Band::Warn50 => Notice::HalfUsed,
            Band::Normal => Notice::Rate,
        }
    }

    pub fn is_over(&self, now: &Timestamp) -> (over: bool)
        ensures
            over == self.is_over_spec(*now),
    {
        now.whole_seconds_since(&self.last_reset) > self.length
    }

    /// Starts a new period at `now`: the counter goes to zero and the latch is
    /// cleared, whatever either held. The new period has not run out at
    /// `now`, so one evaluation resets at most once.
    pub fn reset(&mut self, record: &mut Globals, now: Timestamp)
        ensures
            final(record).byte_count == 0,
            final(record).hard_quota == old(record).hard_quota,
            !final(self).exceeded,
            final(self).last_reset == now,
            final(self).length == old(self).length,
            !final(self).is_over_spec(now),
    {
        self.last_reset = now;
        record.reset();
        self.exceeded = false;
    }
}

/// What was read when a sample began.
#[derive(Clone, Copy, Debug)]
pub struct SampleWindow {
    pub t0: Timestamp,
    pub bytes_at_t0: u64,
}

/// What the monitor decided at the end of a sample.
#[derive(Clone, Debug)]
pub struct SampleOutcome {
    /// The band of the counter against the quota.
    pub band: Band,
    /// What the log line says.
    pub notice: Notice,
    /// Bytes per second over the sample.
    pub rate: u64,
    /// The one line to log for this sample.
    pub line: LogLine,
    /// Whether a new quota period began; the owner then zeroes the shared
    /// counter.
    pub reset: bool,
    /// Whether the worker has to stop instead of taking another sample.
    pub stop: bool,
}

/// The monitor of one direction.
#[derive(Clone, Copy, Debug)]
pub struct QuotaMonitor {
    pub direction: Direction,
    /// Seconds to suspend between the two readings of a sample.
    pub sample_interval: u64,
    pub period: QuotaPeriod,
}

impl QuotaMonitor {
    /// A monitor whose first quota period begins at `now`.
    pub fn new(direction: Direction, quota_period: u64, sample_interval: u64, now: Timestamp) -> (m:
        QuotaMonitor)
        ensures
            m.direction == direction,
            m.sample_interval == sample_interval,
            m.period.length == quota_period,
            m.period.last_reset == now,
            !m.period.exceeded,
    {
        QuotaMonitor { direction, sample_interval, period: QuotaPeriod::new(quota_period, now) }
    }

    /// Begins a sample: remembers the time and the counter.
    pub fn begin_sample(&self, record: &Globals, now: Timestamp) -> (w: SampleWindow)
        ensures
            w.t0 == now,
            w.bytes_at_t0 == record.byte_count,
    {
        SampleWindow { t0: now, bytes_at_t0: record.byte_count() }
    }

    /// Ends the sample that `window` began. `record` holds the counter as it
    /// was read at `now`, after the suspension; `shutdown` is the shutdown
    /// signal as it was read after that.
    ///
    /// In this order: the rate over the sample is computed, the counter is
    /// classified against the quota and exactly one line is written, the
    /// quota period is renewed if it has run out, and the shutdown signal
    /// decides whether another sample follows.
    pub fn end_sample(
        &mut self,
        record: &mut Globals,
        window: &SampleWindow,
        now: Timestamp,
        shutdown: bool,
    ) -> (out: SampleOutcome)
        ensures
            out.band == classify_spec(old(record).byte_count as nat, old(record).hard_quota as nat),
            out.notice == notice_for(out.band, old(self).period.exceeded),
            out.rate == rate_spec(
                delta_spec(window.bytes_at_t0 as nat, old(record).byte_count as nat),
                elapsed_seconds(window.t0.as_nanos(), now.as_nanos()),
            ),
            out.line.level == out.notice.level_spec(),
            out.line.text@ == line_text(
                old(self).direction,
                old(record).byte_count as nat,
                out.rate as nat,
                out.notice,
            ),
            out.reset == old(self).period.is_over_spec(now),
            out.stop == shutdown,
            final(self).direction == old(self).direction,
            final(self).sample_interval == old(self).sample_interval,
            final(self).period.length == old(self).period.length,
            final(record).hard_quota == old(record).hard_quota,
            out.reset ==> {
                &&& final(record).byte_count == 0
                &&& !final(self).period.exceeded
                &&& final(self).period.last_reset == now
            },
            !out.reset ==> {
                &&& final(record).byte_count == old(record).byte_count
                &&& final(self).period.exceeded == (old(self).period.exceeded || out.band
                    == Band::Exceeded)
                &&& final(self).period.last_reset == old(self).period.last_reset
            },
    {
        let consumed = record.byte_count();
        let elapsed = now.whole_seconds_since(&window.t0);
        let delta: u64 = if consumed >= window.bytes_at_t0 {
            consumed - window.bytes_at_t0
        } else {
            0
        };
        let speed = rate(delta, elapsed);

        let band = classify(consumed, record.hard_quota());
        let notice = self.period.observe(band);
        let line = log_line(self.direction, consumed, speed, notice);

        let reset = self.period.is_over(&now);
        if reset {
            self.period.reset(record, now);
        }
        SampleOutcome { band, notice, rate: speed, line, reset, stop: shutdown }
    }
}

} // verus!
