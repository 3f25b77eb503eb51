//! The monotonic clock: a free-running millisecond counter driven by a
//! periodic timer interrupt.
//!
//! The timer hardware is configured outside the crate; its interrupt handler
//! calls [`Clock::tick`] once per firing, inside a critical section, and the
//! main loop reads the counter through [`Clock::now`].

use vstd::prelude::*;

verus! {

use crate::shared::Milliseconds;

/// Timer input prescaler: the timer advances once every `PRESCALER` CPU
/// cycles.
pub const PRESCALER: u32 = 1024;

/// Compare value: the timer interrupt fires every `TIMER_COUNTS` timer
/// advances.
pub const TIMER_COUNTS: u32 = 250;

/// Milliseconds added to the counter per timer firing, from a 16 MHz input
/// clock: `PRESCALER * TIMER_COUNTS` CPU cycles per firing, at 16_000 cycles
/// per millisecond, is 16 ms per tick.
pub const MILLIS_INCREMENT: u32 = PRESCALER * TIMER_COUNTS / 16_000;

/// Free-running millisecond counter. The stored counter is always the number
/// of timer firings times [`MILLIS_INCREMENT`], reduced mod 2^32.
pub struct Clock {
    counter: u32,
    ticks: Ghost<nat>,
}

impl Clock {
    /// The counter value after `k` timer firings: `k * MILLIS_INCREMENT`,
    /// wrapped at 2^32.
    pub open spec fn counter_spec(k: nat) -> u32 {
        ((k * MILLIS_INCREMENT) % 0x1_0000_0000) as u32
    }

    /// How many times the timer interrupt has fired since the clock was
    /// armed.
    pub closed spec fn tick_count(self) -> nat {
        self.ticks@
    }

    /// The counter reads exactly `tick_count * MILLIS_INCREMENT` mod 2^32.
    pub closed spec fn wf(self) -> bool {
        self.counter == Self::counter_spec(self.ticks@)
    }

    /// Arm the clock: counter reset to 0, no firings counted yet.
    pub fn new() -> (clock: Clock)
        ensures
            clock.wf(),
            clock.tick_count() == 0,
    {
        Clock { counter: 0, ticks: Ghost(0) }
    }

    /// One timer firing: add the per-tick increment to the counter, wrapping
    /// at 2^32.
    pub fn tick(&mut self)
        requires
            old(self).wf(),
        ensures
            final(self).wf(),
            final(self).tick_count() == old(self).tick_count() + 1,
    {
        proof {
            lemma_counter_spec_step(self.ticks@);
        }
        self.counter = self.counter.wrapping_add(MILLIS_INCREMENT);
        self.ticks = Ghost(self.ticks@ + 1);
    }

    /// Read the counter: after `k` timer firings it equals
    /// `k * MILLIS_INCREMENT` mod 2^32.
    pub fn now(&self) -> (time: Milliseconds)
        requires
            self.wf(),
        ensures
            time == Self::counter_spec(self.tick_count()),
    {
        self.counter
    }
}

/// Adding one more increment to a wrapped multiple of the increment gives the
/// next wrapped multiple.
proof fn lemma_counter_spec_step(k: nat)
    ensures
        Clock::counter_spec(k + 1) == vstd::wrapping::u32_specs::wrapping_add(
            Clock::counter_spec(k),
            MILLIS_INCREMENT,
        ),
{
    let m = 0x1_0000_0000int;
    let i = MILLIS_INCREMENT as int;
    let a = (k * i) % m;
    assert((k + 1) * i == k * i + i) by (nonlinear_arith);
    vstd::arithmetic::div_mod::lemma_add_mod_noop(k * i, i, m);
    vstd::arithmetic::div_mod::lemma_small_mod(i as nat, m as nat);
    vstd::arithmetic::div_mod::lemma_mod_bound(k * i, m);
    if a + i <= u32::MAX {
        vstd::arithmetic::div_mod::lemma_small_mod((a + i) as nat, m as nat);
    } else {
        vstd::arithmetic::div_mod::lemma_mod_multiples_vanish(-1, a + i, m);
        vstd::arithmetic::div_mod::lemma_small_mod((a + i - m) as nat, m as nat);
    }
}

} // verus!
