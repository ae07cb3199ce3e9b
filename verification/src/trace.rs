//! The recent path of a stick: a bounded record of its latest positions.

use vstd::prelude::*;

verus! {

/// The most positions a trace keeps.
pub const TRACE_CAPACITY: usize = 256;

/// The latest positions of a stick, oldest first; the oldest is dropped once the trace is
/// full.
#[derive(Debug)]
pub struct StickTrace<P> {
    points: Vec<P>,
}

impl<P> View for StickTrace<P> {
    type V = Seq<P>;

    closed spec fn view(&self) -> Seq<P> {
        self.points@
    }
}

/// The positions kept after recording `point` in a trace holding `points`.
pub open spec fn traced<P>(points: Seq<P>, point: P) -> Seq<P> {
    if points.len() >= TRACE_CAPACITY {
        points.subrange(points.len() - TRACE_CAPACITY + 1, points.len() as int).push(point)
    } else {
        points.push(point)
    }
}

impl<P> StickTrace<P> {
    #[verifier::type_invariant]
    spec fn bounded(self) -> bool {
        self.points.len() <= TRACE_CAPACITY
    }

    /// An empty trace.
    pub fn new() -> (trace: Self)
        ensures
            trace@ == Seq::<P>::empty(),
    {
        StickTrace { points: Vec::new() }
    }

    /// Records a position, dropping the oldest when the trace is full.
    pub fn push(&mut self, point: P)
        ensures
            final(self)@ == traced(old(self)@, point),
            final(self)@.len() <= TRACE_CAPACITY,
    {
        proof {
            use_type_invariant(&*self);
        }
        let ghost before = self@;
        let mut points = Vec::new();
        std::mem::swap(&mut points, &mut self.points);
        if points.len() >= TRACE_CAPACITY {
            let _ = points.remove(0);
            assert(points@ =~= before.subrange(1, before.len() as int));
        }
        points.push(point);
        self.points = points;
    }

    /// The kept positions, oldest first.
    pub fn points(&self) -> (points: &[P])
        ensures
            points@ == self@,
            points@.len() <= TRACE_CAPACITY,
    {
        proof {
            use_type_invariant(self);
        }
        self.points.as_slice()
    }

    /// Forgets every position.
    pub fn clear(&mut self)
        ensures
            final(self)@ == Seq::<P>::empty(),
    {
        self.points = Vec::new();
    }
}

impl<P> Default for StickTrace<P> {
    fn default() -> (trace: Self)
        ensures
            trace@ == Seq::<P>::empty(),
    {
        StickTrace::new()
    }
}

/// A trace never holds more than `TRACE_CAPACITY` positions, and the newest position is
/// always the last one recorded.
pub proof fn law_trace_is_bounded<P>(points: Seq<P>, point: P)
    requires
        points.len() <= TRACE_CAPACITY,
    ensures
        traced(points, point).len() <= TRACE_CAPACITY,
        traced(points, point).last() == point,
        points.len() < TRACE_CAPACITY ==> traced(points, point).drop_last() == points,
{
    assert(traced(points, point).drop_last() =~= if points.len() >= TRACE_CAPACITY {
        points.subrange(points.len() - TRACE_CAPACITY + 1, points.len() as int)
    } else {
        points
    });
}

} // verus!
