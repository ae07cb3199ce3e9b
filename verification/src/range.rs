//! The stick range test: records a stick's positions while the user traces its outer edge.
//!
//! The geometry of the recorded samples (edge radius, circularity, sector coverage) is computed
//! by the caller from the samples this session keeps.

use vstd::prelude::*;
use crate::drift::StickSide;

verus! {

/// The most samples a recording keeps; older samples are dropped first.
pub const MAX_RANGE_SAMPLES: usize = 4_096;

/// What the caller sees of a range test.
#[derive(Debug, Clone, Copy)]
pub enum RangeView<'test, S> {
    Ready,
    Recording { sample_count: usize, trace: &'test [S] },
    Complete { trace: &'test [S] },
}

/// The internal state of a range test.
#[derive(Debug, Clone)]
pub enum RangeState<S> {
    Ready,
    Recording { samples: Vec<S> },
    Complete { samples: Vec<S> },
}

/// The mathematical value of a range test's state.
pub enum RangePhase<S> {
    Ready,
    Recording(Seq<S>),
    Complete(Seq<S>),
}

impl<S> View for RangeState<S> {
    type V = RangePhase<S>;

    open spec fn view(&self) -> RangePhase<S> {
        match self {
            RangeState::Ready => RangePhase::Ready,
            RangeState::Recording { samples } => RangePhase::Recording(samples@),
            RangeState::Complete { samples } => RangePhase::Complete(samples@),
        }
    }
}

/// The recording after one more sample: the oldest sample is dropped when the buffer is full.
pub open spec fn recorded<S>(samples: Seq<S>, sample: S) -> Seq<S> {
    if samples.len() == MAX_RANGE_SAMPLES {
        samples.subrange(1, samples.len() as int).push(sample)
    } else {
        samples.push(sample)
    }
}

/// A range test on one stick of one controller.
#[derive(Debug)]
pub struct RangeTest<S> {
    side: StickSide,
    device_id: Option<usize>,
    state: RangeState<S>,
}

impl<S> RangeTest<S> {
    /// The stick being measured.
    pub closed spec fn spec_side(&self) -> StickSide {
        self.side
    }

    /// The controller being measured.
    pub closed spec fn spec_device_id(&self) -> Option<usize> {
        self.device_id
    }

    /// The current phase.
    pub closed spec fn phase(&self) -> RangePhase<S> {
        self.state@
    }

    /// A recording never holds more than `MAX_RANGE_SAMPLES` samples; a completed test holds at
    /// least one.
    #[verifier::type_invariant]
    pub open spec fn wf(&self) -> bool {
        match self.phase() {
            RangePhase::Recording(samples) => samples.len() <= MAX_RANGE_SAMPLES,
            RangePhase::Complete(samples) => 0 < samples.len() <= MAX_RANGE_SAMPLES,
            RangePhase::Ready => true,
        }
    }

    /// A test on the left stick, waiting to be started.
    pub fn new() -> (test: Self)
        ensures
            test.spec_side() == StickSide::Left,
            test.spec_device_id().is_none(),
            test.phase() is Ready,
    {
        RangeTest { side: StickSide::Left, device_id: None, state: RangeState::Ready }
    }

    /// The stick being measured.
    pub fn side(&self) -> (side: StickSide)
        ensures
            side == self.spec_side(),
    {
        self.side
    }

    /// The controller being measured.
    pub fn device_id(&self) -> (id: Option<usize>)
        ensures
            id == self.spec_device_id(),
    {
        self.device_id
    }

    /// The samples of a completed test.
    pub fn result(&self) -> (samples: Option<&[S]>)
        ensures
            match self.phase() {
                RangePhase::Complete(s) => samples is Some && samples->0@ == s,
                _ => samples is None,
            },
    {
        match &self.state {
            RangeState::Complete { samples } => Some(samples.as_slice()),
            _ => None,
        }
    }

    /// Chooses the stick to measure; ignored while recording, and it discards a result.
    pub fn select_side(&mut self, side: StickSide)
        ensures
            final(self).spec_device_id() == old(self).spec_device_id(),
            match old(self).phase() {
                RangePhase::Recording(_) => *final(self) == *old(self),
                _ => {
                    &&& final(self).spec_side() == side
                    &&& final(self).phase() is Ready
                },
            },
    {
        proof {
            use_type_invariant(&*self);
        }
        match self.state {
            RangeState::Recording { .. } => {},
            _ => {
                self.side = side;
                self.state = RangeState::Ready;
            },
        }
    }

    /// Starts an empty recording for `device_id`.
    pub fn start(&mut self, device_id: usize)
        ensures
            final(self).spec_side() == old(self).spec_side(),
            final(self).spec_device_id() == Some(device_id),
            final(self).phase() == RangePhase::<S>::Recording(Seq::empty()),
    {
        proof {
            use_type_invariant(&*self);
        }
        self.device_id = Some(device_id);
        self.state = RangeState::Recording { samples: Vec::new() };
    }

    /// Records a stick position of `device_id`; ignored unless this test records that controller.
    pub fn record(&mut self, device_id: usize, position: S)
        ensures
            final(self).spec_side() == old(self).spec_side(),
            final(self).spec_device_id() == old(self).spec_device_id(),
            match old(self).phase() {
                RangePhase::Recording(samples) => if old(self).spec_device_id() == Some(device_id) {
                    final(self).phase() == RangePhase::Recording(recorded(samples, position))
                } else {
                    final(self).phase() == old(self).phase()
                },
                _ => final(self).phase() == old(self).phase(),
            },
    {
        proof {
            use_type_invariant(&*self);
        }
        if self.device_id != Some(device_id) {
            return;
        }
        let mut state = RangeState::Ready;
        std::mem::swap(&mut state, &mut self.state);
        match state {
            RangeState::Recording { mut samples } => {
                if samples.len() == MAX_RANGE_SAMPLES {
                    let ghost before = samples@;
                    let _ = samples.remove(0);
                    assert(samples@ == before.subrange(1, before.len() as int));
                }
                samples.push(position);
                self.state = RangeState::Recording { samples };
            },
            other => {
                self.state = other;
            },
        }
    }

    /// Ends a recording. `reaches_edge` tells whether a recorded sample lies on the outer part
    /// of the stick's travel; the test completes when it does and something was recorded, and
    /// is abandoned otherwise. Called when not recording, it only discards a result. Returns
    /// whether the test completed.
    pub fn finish(&mut self, reaches_edge: bool) -> (completed: bool)
        ensures
            final(self).spec_side() == old(self).spec_side(),
            match old(self).phase() {
                RangePhase::Recording(samples) => if reaches_edge && samples.len() > 0 {
                    &&& completed
                    &&& final(self).phase() == RangePhase::Complete(samples)
                    &&& final(self).spec_device_id() == old(self).spec_device_id()
                } else {
                    &&& !completed
                    &&& final(self).phase() is Ready
                    &&& final(self).spec_device_id().is_none()
                },
                _ => {
                    &&& !completed
                    &&& final(self).phase() is Ready
                    &&& final(self).spec_device_id() == old(self).spec_device_id()
                },
            },
    {
        proof {
            use_type_invariant(&*self);
        }
        let mut state = RangeState::Ready;
        std::mem::swap(&mut state, &mut self.state);
        match state {
            RangeState::Recording { samples } => {
                if reaches_edge && samples.len() > 0 {
                    self.state = RangeState::Complete { samples };
                    true
                } else {
                    self.device_id = None;
                    false
                }
            },
            _ => false,
        }
    }

    /// Abandons the test.
    pub fn cancel(&mut self)
        ensures
            final(self).spec_side() == old(self).spec_side(),
            final(self).spec_device_id().is_none(),
            final(self).phase() is Ready,
    {
        proof {
            use_type_invariant(&*self);
        }
        self.device_id = None;
        self.state = RangeState::Ready;
    }

    /// Whether a recording is in progress.
    pub fn is_recording(&self) -> (recording: bool)
        ensures
            recording == self.phase() is Recording,
    {
        match self.state {
            RangeState::Recording { .. } => true,
            _ => false,
        }
    }

    /// What the test shows: the recording so far or the completed trace.
    pub fn view(&self) -> (view: RangeView<'_, S>)
        ensures
            match self.phase() {
                RangePhase::Ready => view is Ready,
                RangePhase::Recording(samples) => view matches RangeView::Recording {
                    sample_count,
                    trace,
                } && sample_count == samples.len() && trace@ == samples,
                RangePhase::Complete(samples) => view matches RangeView::Complete { trace }
                    && trace@ == samples,
            },
    {
        match &self.state {
            RangeState::Ready => RangeView::Ready,
            RangeState::Recording { samples } => RangeView::Recording {
                sample_count: samples.len(),
                trace: samples.as_slice(),
            },
            RangeState::Complete { samples } => RangeView::Complete { trace: samples.as_slice() },
        }
    }
}

/// A recording never grows beyond `MAX_RANGE_SAMPLES`, and once full it keeps the newest samples.
pub proof fn law_recording_is_bounded<S>(samples: Seq<S>, sample: S)
    requires
        samples.len() <= MAX_RANGE_SAMPLES,
    ensures
        recorded(samples, sample).len() <= MAX_RANGE_SAMPLES,
        recorded(samples, sample).last() == sample,
        samples.len() < MAX_RANGE_SAMPLES ==> recorded(samples, sample).len() == samples.len() + 1,
{
}

/// What a recording holds after `stream` has been recorded into an empty one, sample by sample.
pub open spec fn recording_of<S>(stream: Seq<S>) -> Seq<S>
    decreases stream.len(),
{
    if stream.len() == 0 {
        Seq::empty()
    } else {
        recorded(recording_of(stream.drop_last()), stream.last())
    }
}

/// Recording a sample keeps the newest samples: the result is the last
/// `min(len + 1, MAX_RANGE_SAMPLES)` samples of the old recording followed by the new one, in
/// the order they came; a full recording drops its oldest sample and nothing else.
pub proof fn law_recording_keeps_newest<S>(samples: Seq<S>, sample: S)
    requires
        samples.len() <= MAX_RANGE_SAMPLES,
    ensures
        ({
            let after = recorded(samples, sample);
            let all = samples.push(sample);
            &&& after.len() == if samples.len() < MAX_RANGE_SAMPLES {
                samples.len() + 1
            } else {
                MAX_RANGE_SAMPLES as nat
            }
            &&& after == all.subrange(all.len() - after.len(), all.len() as int)
            &&& samples.len() == MAX_RANGE_SAMPLES ==> forall|i: int|
                0 <= i < samples.len() - 1 ==> after[i] == samples[i + 1]
        }),
{
    let after = recorded(samples, sample);
    let all = samples.push(sample);
    assert(after =~= all.subrange(all.len() - after.len(), all.len() as int));
}

/// Recording a stream of samples one by one into an empty recording keeps exactly its newest
/// `MAX_RANGE_SAMPLES` samples (all of them for a shorter stream), oldest first.
pub proof fn law_recording_is_newest_suffix<S>(stream: Seq<S>)
    ensures
        recording_of(stream) == stream.subrange(
            if stream.len() > MAX_RANGE_SAMPLES {
                stream.len() - MAX_RANGE_SAMPLES
            } else {
                0
            },
            stream.len() as int,
        ),
    decreases stream.len(),
{
    if stream.len() > 0 {
        let before = stream.drop_last();
        law_recording_is_newest_suffix(before);
        let kept = recording_of(before);
        law_recording_keeps_newest(kept, stream.last());
        let start = if stream.len() > MAX_RANGE_SAMPLES {
            stream.len() - MAX_RANGE_SAMPLES
        } else {
            0
        };
        let all = kept.push(stream.last());
        assert(all.subrange(all.len() - recording_of(stream).len(), all.len() as int)
            =~= stream.subrange(start, stream.len() as int));
    } else {
        assert(stream.subrange(0, 0) =~= Seq::<S>::empty());
    }
}

} // verus!
