use vstd::prelude::*;

verus! {

/// Depth counter of a receive queue: packets acquired by the core (received
/// or stolen) and not yet matched by a transmitted response.
pub struct QueueDepth {
    depth: u64,
}

impl QueueDepth {
    pub closed spec fn value(&self) -> u64 {
        self.depth
    }

    /// A queue with nothing in flight.
    pub fn new() -> (q: QueueDepth)
        ensures
            q.value() == 0,
    {
        QueueDepth { depth: 0 }
    }

    /// Current depth.
    pub fn get_queue_depth(&self) -> (d: u64)
        ensures
            d == self.value(),
    {
        self.depth
    }

    /// Accounts for `n` packets acquired by the core (saturating).
    pub fn incr_queue_depth(&mut self, n: usize)
        ensures
            final(self).value() == if old(self).value() + n <= u64::MAX {
                old(self).value() + n
            } else {
                u64::MAX as int
            },
    {
        self.depth = self.depth.saturating_add(n as u64);
    }

    /// Accounts for `m` transmitted packets; the depth never goes below zero.
    pub fn decr_queue_depth(&mut self, m: usize)
        ensures
            final(self).value() == if m <= old(self).value() {
                old(self).value() - m
            } else {
                0
            },
    {
        self.depth = self.depth.saturating_sub(m as u64);
    }
}

/// Depth after receive and transmit events, as packets in flight: each
/// event is a signed amount, positive for packets acquired and negative for
/// packets transmitted.
pub open spec fn in_flight(events: Seq<int>) -> int
    decreases events.len(),
{
    if events.len() == 0 {
        0
    } else {
        in_flight(events.drop_last()) + events.last()
    }
}

/// Applying a run of events to a counter that starts at zero.
pub open spec fn replay(events: Seq<int>) -> int
    decreases events.len(),
{
    if events.len() == 0 {
        0
    } else {
        let d = replay(events.drop_last());
        let e = events.last();
        if e >= 0 {
            if d + e <= u64::MAX {
                d + e
            } else {
                u64::MAX as int
            }
        } else if -e <= d {
            d + e
        } else {
            0
        }
    }
}

/// As long as no transmit exceeds what is in flight and the counter does
/// not saturate, the depth counter equals the packets in flight and is
/// never negative.
pub proof fn lemma_depth_accounts(events: Seq<int>)
    requires
        forall|i: int|
            0 <= i < events.len() ==> #[trigger] in_flight(events.take(i + 1)) >= 0 && in_flight(
                events.take(i + 1),
            ) <= u64::MAX,
    ensures
        replay(events) == in_flight(events),
        in_flight(events) >= 0,
    decreases events.len(),
{
    if events.len() > 0 {
        let prefix = events.drop_last();
        assert forall|i: int| 0 <= i < prefix.len() implies #[trigger] in_flight(prefix.take(i + 1))
            >= 0 && in_flight(prefix.take(i + 1)) <= u64::MAX by {
            assert(prefix.take(i + 1) =~= events.take(i + 1));
        }
        lemma_depth_accounts(prefix);
        let n = events.len() as int;
        assert(events.take(n) =~= events);
        assert(in_flight(events.take((n - 1) + 1)) >= 0);
        assert(in_flight(events.take((n - 1) + 1)) <= u64::MAX);
    }
}

} // verus!
