//! The memory of a linear extrapolation: the two most recent positions. The
//! interpolation between them happens outside this library.
use vstd::prelude::*;
use std::time::{Duration, Instant};
use crate::position::Position;

verus! {

/// A computed position and when it was computed; `extrapolated_by` is how
/// far past its data it was extrapolated, if it was.
#[derive(Debug, Clone, Copy)]
pub struct TimedPosition {
    pub position: Position,
    pub extrapolated_by: Option<Duration>,
    pub time: Instant,
    pub start_time: Instant,
}

/// The two most recent positions, in a ring of two slots: `p` is the slot the
/// next position goes to, which holds the older of the two.
#[derive(Debug)]
pub struct LinearExtrapolation {
    data: [Option<TimedPosition>; 2],
    p: usize,
}

impl LinearExtrapolation {
    /// The slots, in ring order.
    pub closed spec fn slots(&self) -> Seq<Option<TimedPosition>> {
        self.data@
    }

    /// The slot the next position is written to.
    pub closed spec fn cursor(&self) -> int {
        self.p as int
    }

    /// The cursor points at one of the two slots.
    pub closed spec fn wf(&self) -> bool {
        self.p < 2
    }

    /// The older of the two remembered positions (the one overwritten next).
    pub open spec fn older(&self) -> Option<TimedPosition> {
        self.slots()[self.cursor()]
    }

    /// The newer of the two remembered positions.
    pub open spec fn newer(&self) -> Option<TimedPosition> {
        self.slots()[1 - self.cursor()]
    }

    /// No positions yet.
    pub fn new() -> (r: Self)
        ensures
            r.wf(),
            r.older() is None,
            r.newer() is None,
    {
        LinearExtrapolation { data: [None, None], p: 0 }
    }

    /// Remembers `position` as the newest; the older one is forgotten.
    pub fn add_datapoint(&mut self, position: TimedPosition)
        requires
            old(self).wf(),
        ensures
            final(self).wf(),
            final(self).newer() == Some(position),
            final(self).older() == old(self).newer(),
            add_step(*old(self), *final(self), position),
    {
        let p = self.p;
        self.data[p] = Some(position);
        self.p = (p + 1) % 2;
    }

    /// The older remembered position, the first of the two the extrapolation
    /// runs through.
    pub fn get_last_datapoint(&self) -> (r: Option<TimedPosition>)
        requires
            self.wf(),
        ensures
            r == self.older(),
    {
        self.data[self.p]
    }

    /// The two positions to extrapolate through, older first; `None` until
    /// two positions were added.
    pub fn endpoints(&self) -> (r: Option<(TimedPosition, TimedPosition)>)
        requires
            self.wf(),
        ensures
            r == match (self.older(), self.newer()) {
                (Some(a), Some(b)) => Some((a, b)),
                _ => None,
            },
    {
        let p_prev = if self.p == 0 {
            1
        } else {
            self.p - 1
        };
        let d1 = match self.data[self.p] {
            Some(d) => d,
            None => {
                return None;
            },
        };
        let d2 = match self.data[p_prev] {
            Some(d) => d,
            None => {
                return None;
            },
        };
        Some((d1, d2))
    }
}

/// After two positions are added, the extrapolation runs from the first
/// through the second, whatever was remembered before.
pub proof fn law_last_two_positions(e0: LinearExtrapolation, e1: LinearExtrapolation, e2: LinearExtrapolation, a: TimedPosition, b: TimedPosition)
    requires
        e0.wf(),
        e1.wf(),
        e2.wf(),
        e1.newer() == Some(a),
        e1.older() == e0.newer(),
        e2.newer() == Some(b),
        e2.older() == e1.newer(),
    ensures
        e2.older() == Some(a),
        e2.newer() == Some(b),
{
}

/// One call of [`LinearExtrapolation::add_datapoint`] took `a` to `b` with
/// position `d`, as its contract says.
pub open spec fn add_step(a: LinearExtrapolation, b: LinearExtrapolation, d: TimedPosition) -> bool {
    &&& b.newer() == Some(d)
    &&& b.older() == a.newer()
}

/// After positions `ds` are added one by one to a new extrapolation, it has
/// two endpoints exactly when at least two were added, and then they are the
/// last two, older first.
pub proof fn law_ready_after_two(es: Seq<LinearExtrapolation>, ds: Seq<TimedPosition>)
    requires
        es.len() == ds.len() + 1,
        es[0].older() is None,
        es[0].newer() is None,
        forall|j: int| 0 <= j < ds.len() ==> #[trigger] add_step(es[j], es[j + 1], ds[j]),
    ensures
        (es.last().older() is Some && es.last().newer() is Some) <==> ds.len() >= 2,
        ds.len() >= 1 ==> es.last().newer() == Some(ds.last()),
        ds.len() >= 2 ==> es.last().older() == Some(ds[ds.len() - 2]),
    decreases ds.len(),
{
    let n = ds.len();
    if n > 0 {
        law_ready_after_two(es.drop_last(), ds.drop_last());
        assert(add_step(es[n - 1], es[n as int], ds[n - 1]));
    }
}

} // verus!
