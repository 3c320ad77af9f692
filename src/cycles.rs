use vstd::prelude::*;

verus! {

/// Number of samples after which a `Cycles` window is closed and reported.
pub const MAXCOUNT: u64 = 100000;

/// Accumulates cycle counts between `start` and `stop` calls and reports
/// their mean once every `MAXCOUNT` counted events.
pub struct Cycles {
    start: u64,
    count: u64,
    total: u64,
}

impl Cycles {
    pub closed spec fn start_spec(&self) -> u64 {
        self.start
    }

    pub closed spec fn count_spec(&self) -> u64 {
        self.count
    }

    pub closed spec fn total_spec(&self) -> u64 {
        self.total
    }

    /// A counter with nothing recorded.
    pub fn new() -> (c: Cycles)
        ensures
            c.start_spec() == 0,
            c.count_spec() == 0,
            c.total_spec() == 0,
    {
        Cycles { start: 0, count: 0, total: 0 }
    }

    /// Marks the beginning of a measured section at cycle stamp `now`.
    /// Each start is one counted event.
    pub fn start(&mut self, now: u64)
        ensures
            final(self).start_spec() == now,
            final(self).count_spec() == if old(self).count_spec() < u64::MAX {
                old(self).count_spec() + 1
            } else {
                old(self).count_spec() as int
            },
            final(self).total_spec() == old(self).total_spec(),
    {
        self.start = now;
        self.count = self.count.saturating_add(1);
    }

    /// Marks the end of a measured section at cycle stamp `now`.
    ///
    /// When `MAXCOUNT` events have been counted, the window is closed: the
    /// mean cycles per event is returned and the counters restart from zero.
    /// Otherwise the elapsed cycles (zero if the clock went backwards) are
    /// added to the running total, which saturates, and the event is counted.
    pub fn stop(&mut self, now: u64) -> (report: Option<u64>)
        ensures
            old(self).count_spec() == MAXCOUNT ==> {
                &&& report == Some((old(self).total_spec() / MAXCOUNT) as u64)
                &&& final(self).count_spec() == 0
                &&& final(self).total_spec() == 0
            },
            old(self).count_spec() != MAXCOUNT ==> {
                &&& report is None
                &&& final(self).total_spec() == clamp_u64(
                    old(self).total_spec() + elapsed(old(self).start_spec(), now),
                )
                &&& final(self).count_spec() == clamp_u64(old(self).count_spec() + 1)
            },
            final(self).start_spec() == old(self).start_spec(),
    {
        if self.count == MAXCOUNT {
            let mean = self.total / self.count;
            self.count = 0;
            self.total = 0;
            Some(mean)
        } else {
            let spent = now.saturating_sub(self.start);
            self.total = self.total.saturating_add(spent);
            self.count = self.count.saturating_add(1);
            None
        }
    }
}

/// Cycles between two stamps, zero when `now` precedes `from`.
pub open spec fn elapsed(from: u64, now: u64) -> int {
    if now >= from {
        now - from
    } else {
        0
    }
}

/// The value of `x` saturated to the range of a `u64`.
pub open spec fn clamp_u64(x: int) -> int {
    if x > u64::MAX {
        u64::MAX as int
    } else {
        x
    }
}

/// Measures sections of code and keeps a running total over a window of
/// `measurement_count` sections; the window restarts once it is full.
pub struct CycleCounter {
    total: u64,
    start_time: u64,
    run_count: u64,
    measurement_count: u64,
}

impl CycleCounter {
    pub closed spec fn total_spec(&self) -> u64 {
        self.total
    }

    pub closed spec fn start_time_spec(&self) -> u64 {
        self.start_time
    }

    pub closed spec fn run_count_spec(&self) -> u64 {
        self.run_count
    }

    pub closed spec fn measurement_count_spec(&self) -> u64 {
        self.measurement_count
    }

    /// A counter whose window holds `m_count` measurements.
    pub fn new(m_count: u64) -> (c: CycleCounter)
        ensures
            c.total_spec() == 0,
            c.start_time_spec() == 0,
            c.run_count_spec() == 0,
            c.measurement_count_spec() == m_count,
    {
        CycleCounter { total: 0, start_time: 0, run_count: 0, measurement_count: m_count }
    }

    /// Starts a measurement at cycle stamp `now`.
    pub fn start(&mut self, now: u64)
        ensures
            final(self).start_time_spec() == now,
            final(self).total_spec() == old(self).total_spec(),
            final(self).run_count_spec() == old(self).run_count_spec(),
            final(self).measurement_count_spec() == old(self).measurement_count_spec(),
    {
        self.start_time = now;
    }

    /// Ends the measurement started last at cycle stamp `now` and returns
    /// the cycles it took (zero if the clock went backwards). The elapsed
    /// cycles join the window's total (saturating); once the window holds
    /// `measurement_count` runs, it restarts empty.
    pub fn stop(&mut self, now: u64) -> (spent: u64)
        ensures
            spent == elapsed(old(self).start_time_spec(), now),
            ({
                let total = clamp_u64(old(self).total_spec() + spent);
                let runs = clamp_u64(old(self).run_count_spec() + 1);
                if runs == old(self).measurement_count_spec() {
                    final(self).total_spec() == 0 && final(self).run_count_spec() == 0
                } else {
                    final(self).total_spec() == total && final(self).run_count_spec() == runs
                }
            }),
            final(self).start_time_spec() == old(self).start_time_spec(),
            final(self).measurement_count_spec() == old(self).measurement_count_spec(),
    {
        let spent = now.saturating_sub(self.start_time);
        self.total = self.total.saturating_add(spent);
        self.run_count = self.run_count.saturating_add(1);
        if self.run_count == self.measurement_count {
            self.run_count = 0;
            self.total = 0;
        }
        spent
    }

    /// Mean cycles per run over the measurements of the current window.
    pub fn average(self) -> (mean: u64)
        requires
            self.run_count_spec() > 0,
        ensures
            mean == self.total_spec() / self.run_count_spec(),
    {
        self.total / self.run_count
    }
}

} // verus!
