use vstd::prelude::*;

verus! {

/// Milliseconds per scheduler tick, as the RTOS is configured.
pub const TICK_PERIOD_MS: u64 = 10;

/// Ticks that pass while a 32-bit tick counter goes from `last` to `raw`,
/// reading a step past the top as a wrap of the counter.
pub open spec fn tick_delta(last: u32, raw: u32) -> int {
    if raw >= last {
        raw - last
    } else {
        raw + 0x1_0000_0000 - last
    }
}

/// `v`, held to what a `u64` can hold.
pub open spec fn saturate(v: int) -> int {
    if v > u64::MAX {
        u64::MAX as int
    } else {
        v
    }
}

/// A monotonic clock over the scheduler's 32-bit tick counter: it keeps the
/// ticks seen since start in 64 bits, so a wrap of the counter does not send
/// time backwards.
#[derive(Clone, Copy, Debug, PartialEq, Eq, Structural)]
pub struct TickClock {
    /// The counter as last read.
    pub last_raw: u32,
    /// Ticks since start, up to the last read.
    pub elapsed_ticks: u64,
    /// The duration of a tick in milliseconds.
    pub ms_per_tick: u64,
}

/// The clock after reading `raw` off the counter.
pub open spec fn observed(c: TickClock, raw: u32) -> TickClock {
    TickClock {
        last_raw: raw,
        elapsed_ticks: saturate(c.elapsed_ticks + tick_delta(c.last_raw, raw)) as u64,
        ms_per_tick: c.ms_per_tick,
    }
}

impl TickClock {
    /// Milliseconds since start, up to the last read.
    pub open spec fn millis(self) -> int {
        saturate(self.elapsed_ticks * self.ms_per_tick)
    }

    /// A clock at start, with the counter at zero.
    pub fn new(ms_per_tick: u64) -> (r: TickClock)
        ensures
            r == (TickClock { last_raw: 0, elapsed_ticks: 0, ms_per_tick }),
            r.millis() == 0,
    {
        TickClock { last_raw: 0, elapsed_ticks: 0, ms_per_tick }
    }

    /// Reads `raw` off the tick counter and returns the milliseconds since
    /// start. The counter is to be read at least once per wrap.
    pub fn duration_since_start(&mut self, raw: u32) -> (ms: u64)
        ensures
            *final(self) == observed(*old(self), raw),
            ms == final(self).millis(),
            old(self).millis() <= ms,
    {
        let delta: u64 = raw.wrapping_sub(self.last_raw) as u64;
        assert(delta == tick_delta(self.last_raw, raw));
        self.elapsed_ticks = self.elapsed_ticks.saturating_add(delta);
        self.last_raw = raw;
        let ms: u64 = match self.elapsed_ticks.checked_mul(self.ms_per_tick) {
            Some(v) => v,
            None => u64::MAX,
        };
        proof {
            lemma_millis_grow(*old(self), raw);
        }
        ms
    }
}

proof fn lemma_millis_grow(c: TickClock, raw: u32)
    ensures
        c.millis() <= observed(c, raw).millis(),
{
    let n = observed(c, raw);
    assert(c.elapsed_ticks <= n.elapsed_ticks);
    assert(c.elapsed_ticks * c.ms_per_tick <= n.elapsed_ticks * c.ms_per_tick) by (nonlinear_arith)
        requires
            c.elapsed_ticks <= n.elapsed_ticks,
    ;
}

/// Time never goes backwards: of two reads in sequence, the second gives at
/// least what the first gave.
pub proof fn lemma_duration_monotonic(c: TickClock, first: u32, second: u32)
    ensures
        observed(c, first).millis() <= observed(observed(c, first), second).millis(),
{
    lemma_millis_grow(observed(c, first), second);
}

} // verus!
