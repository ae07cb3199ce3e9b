//! The resting-drift test: a countdown, then a fixed sampling window of one analog stick.
//!
//! Time is a monotonic timestamp in nanoseconds chosen by the caller (for instance the time
//! since the application started). The statistics over the collected samples are computed by the
//! caller from [`DriftTest::result`].

use vstd::prelude::*;

verus! {

/// How long the user is given to release the stick before sampling starts.
pub const COUNTDOWN_NANOS: u64 = 3_000_000_000;

/// The length of the sampling window.
pub const SAMPLE_NANOS: u64 = 10_000_000_000;

/// The spacing between two samples.
pub const SAMPLE_INTERVAL_NANOS: u64 = 10_000_000;

/// The most samples one test keeps.
pub const MAX_SAMPLES: usize = 2_000;

/// The latest timestamp the sessions accept.
pub const LATEST_TIMESTAMP_NANOS: u64 = 18_446_744_073_699_551_615;

/// Which analog stick a test measures.
#[derive(Debug, Clone, Copy, PartialEq, Eq, Structural)]
pub enum StickSide {
    Left,
    Right,
}

impl Default for StickSide {
    fn default() -> (side: Self)
        ensures
            side == StickSide::Left,
    {
        StickSide::Left
    }
}

/// The display name of a stick side.
pub open spec fn side_label(side: StickSide) -> Seq<char> {
    match side {
        StickSide::Left => "Left"@,
        StickSide::Right => "Right"@,
    }
}

impl StickSide {
    /// The display name of the side.
    pub fn label(self) -> (label: &'static str)
        ensures
            label@ == side_label(self),
    {
        match self {
            StickSide::Left => "Left",
            StickSide::Right => "Right",
        }
    }
}

/// The time from `start` to `now`, or zero when `now` is earlier.
pub open spec fn time_since(now: u64, start: u64) -> u64 {
    if now >= start {
        (now - start) as u64
    } else {
        0
    }
}

/// The first time of the sample schedule that started at `next` which lies after `now`.
pub open spec fn following_sample_time(next: u64, now: u64) -> int {
    next + ((now - next) / (SAMPLE_INTERVAL_NANOS as int) + 1) * SAMPLE_INTERVAL_NANOS
}

/// The phase once a countdown that has run its course at `now` has turned into sampling.
pub open spec fn after_countdown<S>(phase: DriftPhase<S>, now: u64) -> DriftPhase<S> {
    match phase {
        DriftPhase::Countdown { started_at } => if time_since(now, started_at) >= COUNTDOWN_NANOS {
            DriftPhase::Sampling { started_at: now, next_sample_at: now, samples: Seq::empty() }
        } else {
            phase
        },
        _ => phase,
    }
}

/// The phase after a tick at `now` with the stick at `position`.
pub open spec fn tick_phase<S>(phase: DriftPhase<S>, now: u64, position: Option<S>) -> DriftPhase<S> {
    let current = after_countdown(phase, now);
    match current {
        DriftPhase::Sampling { started_at, next_sample_at, samples } => {
            if time_since(now, started_at) >= SAMPLE_NANOS {
                if samples.len() > 0 {
                    DriftPhase::Complete(samples)
                } else {
                    DriftPhase::Ready
                }
            } else if now >= next_sample_at && samples.len() < MAX_SAMPLES && position is Some {
                DriftPhase::Sampling {
                    started_at,
                    next_sample_at: following_sample_time(next_sample_at, now) as u64,
                    samples: samples.push(position->0),
                }
            } else {
                current
            }
        },
        _ => current,
    }
}

/// A tick at `now` ends the sampling window with at least one sample.
pub open spec fn tick_completes<S>(phase: DriftPhase<S>, now: u64) -> bool {
    match after_countdown(phase, now) {
        DriftPhase::Sampling { started_at, samples, .. } => time_since(now, started_at)
            >= SAMPLE_NANOS && samples.len() > 0,
        _ => false,
    }
}

/// A tick at `now` ends the sampling window without any sample, which abandons the test.
pub open spec fn tick_abandons<S>(phase: DriftPhase<S>, now: u64) -> bool {
    match after_countdown(phase, now) {
        DriftPhase::Sampling { started_at, samples, .. } => time_since(now, started_at)
            >= SAMPLE_NANOS && samples.len() == 0,
        _ => false,
    }
}

/// What the caller sees of a drift test.
#[derive(Debug, Clone, Copy)]
pub enum DriftView<'test, S> {
    Ready,
    Countdown { remaining: u64 },
    Sampling { elapsed: u64, sample_count: usize },
    Complete(&'test [S]),
}

/// The internal state of a drift test.
#[derive(Debug, Clone)]
pub enum DriftState<S> {
    Ready,
    Countdown { started_at: u64 },
    Sampling { started_at: u64, next_sample_at: u64, samples: Vec<S> },
    Complete(Vec<S>),
}

/// The mathematical value of a drift test's state.
pub enum DriftPhase<S> {
    Ready,
    Countdown { started_at: u64 },
    Sampling { started_at: u64, next_sample_at: u64, samples: Seq<S> },
    Complete(Seq<S>),
}

impl<S> View for DriftState<S> {
    type V = DriftPhase<S>;

    open spec fn view(&self) -> DriftPhase<S> {
        match self {
            DriftState::Ready => DriftPhase::Ready,
            DriftState::Countdown { started_at } => DriftPhase::Countdown { started_at: *started_at },
            DriftState::Sampling { started_at, next_sample_at, samples } => DriftPhase::Sampling {
                started_at: *started_at,
                next_sample_at: *next_sample_at,
                samples: samples@,
            },
            DriftState::Complete(samples) => DriftPhase::Complete(samples@),
        }
    }
}

/// A drift test on one stick of one controller.
#[derive(Debug)]
pub struct DriftTest<S> {
    side: StickSide,
    device_id: Option<usize>,
    state: DriftState<S>,
}

impl<S> DriftTest<S> {
    /// The stick being measured.
    pub closed spec fn spec_side(&self) -> StickSide {
        self.side
    }

    /// The controller being measured.
    pub closed spec fn spec_device_id(&self) -> Option<usize> {
        self.device_id
    }

    /// The current phase.
    pub closed spec fn phase(&self) -> DriftPhase<S> {
        self.state@
    }

    /// A sampling test never holds more than `MAX_SAMPLES` samples, and a completed one holds at
    /// least one.
    #[verifier::type_invariant]
    pub open spec fn wf(&self) -> bool {
        match self.phase() {
            DriftPhase::Sampling { samples, .. } => samples.len() <= MAX_SAMPLES,
            DriftPhase::Complete(samples) => 0 < samples.len() <= MAX_SAMPLES,
            _ => true,
        }
    }

    /// A test on the left stick, waiting to be started.
    pub fn new() -> (test: Self)
        ensures
            test.spec_side() == StickSide::Left,
            test.spec_device_id().is_none(),
            test.phase() is Ready,
    {
        DriftTest { side: StickSide::Left, device_id: None, state: DriftState::Ready }
    }

    /// The stick being measured.
    pub fn side(&self) -> (side: StickSide)
        ensures
            side == self.spec_side(),
    {
        self.side
    }

    /// The controller being measured.
    pub fn device_id(&self) -> (id: Option<usize>)
        ensures
            id == self.spec_device_id(),
    {
        self.device_id
    }

    /// The samples of a completed test.
    pub fn result(&self) -> (samples: Option<&[S]>)
        ensures
            match self.phase() {
                DriftPhase::Complete(s) => samples is Some && samples->0@ == s,
                _ => samples is None,
            },
    {
        match &self.state {
            DriftState::Complete(samples) => Some(samples.as_slice()),
            _ => None,
        }
    }

    /// Chooses the stick to measure; only while no test is running, and it discards a result.
    pub fn select_side(&mut self, side: StickSide)
        ensures
            final(self).spec_device_id() == old(self).spec_device_id(),
            match old(self).phase() {
                DriftPhase::Ready | DriftPhase::Complete(_) => {
                    &&& final(self).spec_side() == side
                    &&& final(self).phase() is Ready
                },
                _ => *final(self) == *old(self),
            },
    {
        proof {
            use_type_invariant(&*self);
        }
        match self.state {
            DriftState::Ready | DriftState::Complete(_) => {
                self.side = side;
                self.state = DriftState::Ready;
            },
            _ => {},
        }
    }

    /// Starts the countdown for `device_id` at `now`.
    pub fn start(&mut self, device_id: usize, now: u64)
        ensures
            final(self).spec_side() == old(self).spec_side(),
            final(self).spec_device_id() == Some(device_id),
            final(self).phase() == (DriftPhase::<S>::Countdown { started_at: now }),
    {
        proof {
            use_type_invariant(&*self);
        }
        self.device_id = Some(device_id);
        self.state = DriftState::Countdown { started_at: now };
    }

    /// Abandons the test.
    pub fn cancel(&mut self)
        ensures
            final(self).spec_side() == old(self).spec_side(),
            final(self).spec_device_id().is_none(),
            final(self).phase() is Ready,
    {
        proof {
            use_type_invariant(&*self);
        }
        self.device_id = None;
        self.state = DriftState::Ready;
    }
}

impl<S> DriftTest<S> {
    /// Advances the test to `now`. A finished countdown starts sampling; while sampling, the
    /// stick `position` is recorded when a sample is due (one every `SAMPLE_INTERVAL_NANOS`, at
    /// most `MAX_SAMPLES`); once the window has elapsed the test completes with its samples, or
    /// is abandoned when none was taken. Returns whether the test completed at this tick.
    pub fn tick(&mut self, now: u64, position: Option<S>) -> (completed: bool)
        requires
            now <= LATEST_TIMESTAMP_NANOS,
        ensures
            final(self).spec_side() == old(self).spec_side(),
            final(self).phase() == tick_phase(old(self).phase(), now, position),
            completed == tick_completes(old(self).phase(), now),
            final(self).spec_device_id() == if tick_abandons(old(self).phase(), now) {
                None
            } else {
                old(self).spec_device_id()
            },
    {
        proof {
            use_type_invariant(&*self);
        }
        let mut state = DriftState::Ready;
        std::mem::swap(&mut state, &mut self.state);
        let state = match state {
            DriftState::Countdown { started_at } => {
                let elapsed = if now >= started_at {
                    now - started_at
                } else {
                    0
                };
                if elapsed >= COUNTDOWN_NANOS {
                    DriftState::Sampling { started_at: now, next_sample_at: now, samples: Vec::new() }
                } else {
                    DriftState::Countdown { started_at }
                }
            },
            other => other,
        };
        match state {
            DriftState::Sampling { started_at, next_sample_at, mut samples } => {
                let elapsed = if now >= started_at {
                    now - started_at
                } else {
                    0
                };
                if elapsed >= SAMPLE_NANOS {
                    if samples.len() > 0 {
                        self.state = DriftState::Complete(samples);
                        return true;
                    }
                    self.cancel();
                    return false;
                }
                let mut next = next_sample_at;
                if now >= next_sample_at && samples.len() < MAX_SAMPLES {
                    if let Some(position) = position {
                        samples.push(position);
                        next = next_schedule_time(next_sample_at, now);
                    }
                }
                self.state = DriftState::Sampling { started_at, next_sample_at: next, samples };
                false
            },
            other => {
                self.state = other;
                false
            },
        }
    }

    /// What the test shows at `now`: the countdown left, the sampling progress or the result.
    pub fn view(&self, now: u64) -> (view: DriftView<'_, S>)
        ensures
            match self.phase() {
                DriftPhase::Ready => view is Ready,
                DriftPhase::Countdown { started_at } => view matches DriftView::Countdown {
                    remaining,
                } && remaining == if time_since(now, started_at) >= COUNTDOWN_NANOS {
                    0
                } else {
                    (COUNTDOWN_NANOS - time_since(now, started_at)) as u64
                },
                DriftPhase::Sampling { started_at, samples, .. } => view matches DriftView::Sampling {
                    elapsed,
                    sample_count,
                } && elapsed == (if time_since(now, started_at) >= SAMPLE_NANOS {
                    SAMPLE_NANOS
                } else {
                    time_since(now, started_at)
                }) && sample_count == samples.len(),
                DriftPhase::Complete(samples) => view matches DriftView::Complete(shown)
                    && shown@ == samples,
            },
    {
        match &self.state {
            DriftState::Ready => DriftView::Ready,
            DriftState::Countdown { started_at } => {
                let since = if now >= *started_at {
                    now - *started_at
                } else {
                    0
                };
                DriftView::Countdown {
                    remaining: if since >= COUNTDOWN_NANOS {
                        0
                    } else {
                        COUNTDOWN_NANOS - since
                    },
                }
            },
            DriftState::Sampling { started_at, samples, .. } => {
                let since = if now >= *started_at {
                    now - *started_at
                } else {
                    0
                };
                DriftView::Sampling {
                    elapsed: if since >= SAMPLE_NANOS {
                        SAMPLE_NANOS
                    } else {
                        since
                    },
                    sample_count: samples.len(),
                }
            },
            DriftState::Complete(samples) => DriftView::Complete(samples.as_slice()),
        }
    }
}

/// The next sample time of a schedule lies after the time at which it was advanced.
pub proof fn lemma_following_sample_time_is_later(next: u64, now: u64)
    requires
        next <= now,
    ensures
        now < following_sample_time(next, now) <= now + SAMPLE_INTERVAL_NANOS,
{
    let d = now - next;
    let i = SAMPLE_INTERVAL_NANOS as int;
    assert((d / i) * i <= d < (d / i + 1) * i) by (nonlinear_arith)
        requires
            d >= 0,
            i > 0,
    ;
}

/// While sampling, at most one sample is taken per moment: a second tick at the same time
/// records nothing more, whatever the stick position.
pub proof fn law_one_sample_per_moment<S>(
    started_at: u64,
    next_sample_at: u64,
    samples: Seq<S>,
    now: u64,
    first: S,
    second: S,
)
    requires
        time_since(now, started_at) < SAMPLE_NANOS,
        now <= LATEST_TIMESTAMP_NANOS,
    ensures
        ({
            let phase = DriftPhase::Sampling { started_at, next_sample_at, samples };
            let once = tick_phase(phase, now, Some(first));
            tick_phase(once, now, Some(second)) == once
        }),
{
    if now >= next_sample_at {
        lemma_following_sample_time_is_later(next_sample_at, now);
    }
}

/// A countdown that has not yet run its course is left untouched by a tick.
pub proof fn law_countdown_waits<S>(started_at: u64, now: u64, position: Option<S>)
    requires
        time_since(now, started_at) < COUNTDOWN_NANOS,
    ensures
        tick_phase(DriftPhase::<S>::Countdown { started_at }, now, position) == (DriftPhase::<
            S,
        >::Countdown { started_at }),
        !tick_completes(DriftPhase::<S>::Countdown { started_at }, now),
{
}

/// Sampling starts when the countdown runs out: a countdown started at `started_at` that has run
/// its course at `now` turns into sampling whose window is timed from `now`, not from the start
/// of the countdown, so no tick earlier than `SAMPLE_NANOS` after `now` ends the test, neither by
/// completing it nor by abandoning it. The first sample is taken at the tick that ends the
/// countdown, when the stick position is known.
pub proof fn law_sampling_window_starts_after_countdown<S>(
    started_at: u64,
    now: u64,
    later: u64,
    position: Option<S>,
    later_position: Option<S>,
)
    requires
        time_since(now, started_at) >= COUNTDOWN_NANOS,
        time_since(later, now) < SAMPLE_NANOS,
        now <= LATEST_TIMESTAMP_NANOS,
        later <= LATEST_TIMESTAMP_NANOS,
    ensures
        ({
            let sampling = tick_phase(DriftPhase::<S>::Countdown { started_at }, now, position);
            &&& sampling matches DriftPhase::Sampling { started_at: start, samples, .. } && start
                == now && samples == match position {
                Some(p) => seq![p],
                None => Seq::empty(),
            }
            &&& !tick_completes(DriftPhase::<S>::Countdown { started_at }, now)
            &&& !tick_completes(sampling, later)
            &&& !tick_abandons(sampling, later)
            &&& tick_phase(sampling, later, later_position) is Sampling
        }),
{
}

/// While the sampling window lasts, a tick keeps sampling and keeps the time the window
/// started; it adds at most one sample and drops none.
pub proof fn law_sampling_keeps_its_start<S>(
    started_at: u64,
    next_sample_at: u64,
    samples: Seq<S>,
    now: u64,
    position: Option<S>,
)
    requires
        time_since(now, started_at) < SAMPLE_NANOS,
        now <= LATEST_TIMESTAMP_NANOS,
    ensures
        ({
            let phase = DriftPhase::Sampling { started_at, next_sample_at, samples };
            &&& !tick_completes(phase, now)
            &&& !tick_abandons(phase, now)
            &&& tick_phase(phase, now, position) matches DriftPhase::Sampling {
                started_at: start,
                samples: after,
                ..
            } && start == started_at && samples.len() <= after.len() <= samples.len() + 1
                && after.subrange(0, samples.len() as int) == samples
        }),
{
    let phase = DriftPhase::Sampling { started_at, next_sample_at, samples };
    let after = tick_phase(phase, now, position);
    if now >= next_sample_at && samples.len() < MAX_SAMPLES && position is Some {
        assert(after->samples.subrange(0, samples.len() as int) =~= samples);
    } else {
        assert(after->samples.subrange(0, samples.len() as int) =~= samples);
    }
}

/// The first time after `now` on the sampling schedule that had a sample due at `next`.
fn next_schedule_time(next: u64, now: u64) -> (after: u64)
    requires
        next <= now,
        now <= LATEST_TIMESTAMP_NANOS,
    ensures
        after == following_sample_time(next, now),
        now < after <= now + SAMPLE_INTERVAL_NANOS,
{
    let mut after = next + SAMPLE_INTERVAL_NANOS;
    let ghost mut steps: int = 1;
    while after <= now
        invariant
            next <= now,
            now <= LATEST_TIMESTAMP_NANOS,
            steps >= 1,
            after == next + steps * SAMPLE_INTERVAL_NANOS,
            after <= now + SAMPLE_INTERVAL_NANOS,
            (steps - 1) * SAMPLE_INTERVAL_NANOS <= now - next,
        decreases now + SAMPLE_INTERVAL_NANOS - after,
    {
        after = after + SAMPLE_INTERVAL_NANOS;
        proof {
            steps = steps + 1;
        }
    }
    proof {
        let d = now - next;
        assert((steps - 1) * SAMPLE_INTERVAL_NANOS <= d < steps * SAMPLE_INTERVAL_NANOS);
        assert(d / (SAMPLE_INTERVAL_NANOS as int) == steps - 1) by (nonlinear_arith)
            requires
                (steps - 1) * SAMPLE_INTERVAL_NANOS <= d < steps * SAMPLE_INTERVAL_NANOS,
                
        ;
    }
    after
}

} // verus!
