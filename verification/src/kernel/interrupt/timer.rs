//! The periodic timer: tick counting and tick-time statistics.
use vstd::prelude::*;

verus! {

/// Input frequency of the programmable interval timer (Hz).
pub const PIT_FREQUENCY: u64 = 1193182;
/// Tick frequency (Hz): one tick per millisecond.
pub const TIMER_FREQUENCY: u64 = 1000;
/// Divisor programmed into the interval timer.
pub const TIMER_DIVISOR: u16 = 1193;
/// Ticks taking more cycles than this count as missed.
pub const SLOW_TICK_CYCLES: u64 = 1000;

/// Tick-time statistics.
#[derive(Debug, Clone, Copy, PartialEq, Eq, Structural)]
pub struct TimerStatistics {
    pub total_ticks: u64,
    pub missed_ticks: u64,
    pub max_tick_time: u64,
    pub avg_tick_time: u64,
}

/// The timer.
pub struct Timer {
    ticks: u64,
    start_time: u64,
    statistics: TimerStatistics,
}

/// The statistics after one more tick taking `t` cycles.
pub open spec fn after_tick(s: TimerStatistics, t: u64) -> TimerStatistics {
    let total = s.total_ticks.wrapping_add(1);
    TimerStatistics {
        total_ticks: total,
        missed_ticks: if t > SLOW_TICK_CYCLES { s.missed_ticks.wrapping_add(1) } else { s.missed_ticks },
        max_tick_time: if t > s.max_tick_time { t } else { s.max_tick_time },
        avg_tick_time: if total == 0 { s.avg_tick_time } else {
            (s.avg_tick_time.wrapping_mul((total - 1) as u64).wrapping_add(t) / total) as u64
        },
    }
}

impl Timer {
    /// Ticks so far.
    pub closed spec fn spec_ticks(&self) -> u64 {
        self.ticks
    }

    /// Cycle counter value at start-up.
    pub closed spec fn spec_start(&self) -> u64 {
        self.start_time
    }

    /// The statistics.
    pub closed spec fn stats(&self) -> TimerStatistics {
        self.statistics
    }

    /// No ticks yet.
    pub fn new() -> (r: Self)
        ensures
            r.spec_ticks() == 0,
            r.spec_start() == 0,
            r.stats() == (TimerStatistics { total_ticks: 0, missed_ticks: 0, max_tick_time: 0, avg_tick_time: 0 }),
    {
        Timer { ticks: 0, start_time: 0, statistics: TimerStatistics { total_ticks: 0, missed_ticks: 0, max_tick_time: 0, avg_tick_time: 0 } }
    }

    /// Record the start-up cycle count `now` and give the bytes that
    /// program the interval timer: the mode command for port 0x43, then
    /// the divisor's low and high bytes for port 0x40.
    pub fn init(&mut self, now: u64) -> (r: (u8, u8, u8))
        ensures
            final(self).spec_start() == now,
            final(self).spec_ticks() == old(self).spec_ticks(),
            final(self).stats() == old(self).stats(),
            r == (0x34u8, (TIMER_DIVISOR & 0xFF) as u8, (TIMER_DIVISOR >> 8u16) as u8),
    {
        self.start_time = now;
        (0x34u8, (TIMER_DIVISOR & 0xFF) as u8, (TIMER_DIVISOR >> 8u16) as u8)
    }

    /// One tick that took `tick_time` cycles to handle.
    pub fn tick(&mut self, tick_time: u64)
        ensures
            final(self).spec_ticks() == old(self).spec_ticks().wrapping_add(1),
            final(self).spec_start() == old(self).spec_start(),
            final(self).stats() == after_tick(old(self).stats(), tick_time),
    {
        self.ticks = self.ticks.wrapping_add(1);
        let total = self.statistics.total_ticks.wrapping_add(1);
        self.statistics.total_ticks = total;
        if tick_time > self.statistics.max_tick_time {
            self.statistics.max_tick_time = tick_time;
        }
        if total != 0 {
            self.statistics.avg_tick_time = self.statistics.avg_tick_time.wrapping_mul(total - 1).wrapping_add(tick_time) / total;
        }
        if tick_time > SLOW_TICK_CYCLES {
            self.statistics.missed_ticks = self.statistics.missed_ticks.wrapping_add(1);
        }
    }

    /// Ticks so far.
    pub fn ticks(&self) -> (r: u64)
        ensures
            r == self.spec_ticks(),
    {
        self.ticks
    }

    /// Milliseconds since start-up (one tick per millisecond).
    pub fn uptime_ms(&self) -> (r: u64)
        ensures
            r == self.spec_ticks(),
    {
        self.ticks()
    }

    /// Whole seconds since start-up.
    pub fn uptime_seconds(&self) -> (r: u64)
        ensures
            r == self.spec_ticks() / 1000,
    {
        self.uptime_ms() / 1000
    }

    /// Cycle counter value at start-up.
    pub fn start_time(&self) -> (r: u64)
        ensures
            r == self.spec_start(),
    {
        self.start_time
    }

    /// The statistics.
    pub fn statistics(&self) -> (r: TimerStatistics)
        ensures
            r == self.stats(),
    {
        self.statistics
    }
}

} // verus!
