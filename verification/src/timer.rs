//! Timer frequency discovery. The clock frequency is computed once from the
//! hardware configuration words (base crystal frequency, multiplier and
//! divisor) and cached in process-wide state; later reads return the cached
//! value and must not re-read hardware. The monotonic counter read itself is
//! a privileged instruction and stays outside this model; the configuration
//! words enter as plain values.

use vstd::prelude::*;

verus! {

/// Timer ticks the scheduler takes per second.
pub const TICKS_PER_SEC: usize = 100;

/// The clock frequency computed from the hardware configuration words:
/// base frequency times multiplier, divided by divisor.
pub open spec fn spec_clock_freq(base_freq: usize, mul: usize, div: usize) -> int {
    (base_freq * mul) / (div as int)
}

/// Process-wide cache of the discovered clock frequency.
pub struct TimerConfig {
    clock_freq: Option<usize>,
}

impl TimerConfig {
    /// The cached frequency, if discovery has run.
    pub closed spec fn spec_freq(&self) -> Option<usize> {
        self.clock_freq
    }

    /// Before discovery, nothing is cached.
    pub fn new() -> (r: Self)
        ensures
            r.spec_freq() is None,
    {
        TimerConfig { clock_freq: None }
    }

    /// One-time frequency discovery: compute the clock frequency from the
    /// three hardware configuration fields and cache it for the remainder
    /// of execution.
    pub fn get_timer_freq_first_time(&mut self, base_freq: usize, mul: usize, div: usize)
        requires
            div != 0,
            base_freq * mul <= usize::MAX,
        ensures
            final(self).spec_freq() matches Some(f) && f == spec_clock_freq(
                base_freq,
                mul,
                div,
            ),
    {
        let cc_freq = base_freq * mul / div;
        self.clock_freq = Some(cc_freq);
    }

    /// The cached clock frequency. Discovery must already have run: this
    /// read never touches hardware again.
    pub fn get_clock_freq(&self) -> (r: usize)
        requires
            self.spec_freq() is Some,
        ensures
            Some(r) == self.spec_freq(),
    {
        match self.clock_freq {
            Some(f) => f,
            None => 0,
        }
    }
}

} // verus!
