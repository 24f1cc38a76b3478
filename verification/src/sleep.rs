//! Busy waits, counted in cycles of the CPU.
//!
//! The cycle counter belongs to the platform. A wait is opened with the
//! reading of the counter at its start; the platform then reads the counter
//! again and again and asks [`CycleSleep::is_over`], until it is.

use vstd::prelude::*;

verus! {

/// Cycles of the CPU clock in one second.
pub const CPU_FREQUENCY: usize = 390_000_000;

/// Cycles gone by between two readings of the cycle counter, which wraps
/// around at the end of its range.
pub open spec fn cycles_between(start: usize, now: usize) -> int {
    if now >= start {
        now - start
    } else {
        now - start + usize::MAX + 1
    }
}

/// Cycles that a wait of `n` microseconds takes.
pub open spec fn cycles_of_micros(n: usize) -> int {
    CPU_FREQUENCY * n / 1_000_000
}

/// A wait in progress.
#[derive(Clone, Copy, Debug, PartialEq, Eq, Structural)]
pub struct CycleSleep {
    /// The reading of the cycle counter when the wait began.
    pub start: usize,
    /// The number of cycles to wait.
    pub cycles: usize,
}

impl CycleSleep {
    /// Whether the wait is over at the reading `now` of the cycle counter:
    /// whether as many cycles went by as were to be waited.
    pub fn is_over(&self, now: usize) -> (over: bool)
        ensures
            over == (cycles_between(self.start, now) >= self.cycles),
    {
        now.wrapping_sub(self.start) >= self.cycles
    }
}

/// Open a wait of `n` cycles at the reading `start` of the cycle counter.
pub fn cycle_sleep(n: usize, start: usize) -> (sleep: CycleSleep)
    ensures
        sleep == (CycleSleep { start, cycles: n }),
{
    CycleSleep { start, cycles: n }
}

/// Open a wait of `n` microseconds at the reading `start` of the cycle
/// counter.
pub fn usleep(n: usize, start: usize) -> (sleep: CycleSleep)
    requires
        CPU_FREQUENCY * n <= usize::MAX,
    ensures
        sleep.start == start,
        sleep.cycles == cycles_of_micros(n),
{
    cycle_sleep(CPU_FREQUENCY * n / 1_000_000, start)
}

} // verus!
