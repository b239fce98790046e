use vstd::arithmetic::div_mod::{lemma_mod_self_0, lemma_small_mod};
use vstd::prelude::*;

verus! {

/// The rate at which both timers count down, whatever the CPU clock.
pub const TIMER_HZ: u64 = 60;

/// The delay and sound timers with the modulus counter that decouples their
/// 60 Hz countdown from the CPU clock: every `divisor` cycles both non-zero
/// timers drop by one.
#[derive(Debug, Clone, Copy, PartialEq, Eq)]
pub struct Timers {
    pub delay: u8,
    pub sound: u8,
    /// Cycles since the last decrement, modulo `divisor`.
    pub counter: u64,
    /// Cycles per decrement: the clock rate divided by 60.
    pub divisor: u64,
}

/// One cycle of the timer subsystem: the new timers, and whether the sound
/// timer went from 1 to 0 (a sound request).
pub open spec fn tick_spec(t: Timers) -> (Timers, bool) {
    let counter = ((t.counter + 1) % (t.divisor as int)) as u64;
    if counter == 0 {
        (
            Timers {
                delay: if t.delay > 0 { (t.delay - 1) as u8 } else { 0 },
                sound: if t.sound > 0 { (t.sound - 1) as u8 } else { 0 },
                counter,
                divisor: t.divisor,
            },
            t.sound == 1,
        )
    } else {
        (Timers { counter, ..t }, false)
    }
}

/// The timers after `k` cycles.
pub open spec fn ticks(t: Timers, k: nat) -> Timers
    decreases k,
{
    if k == 0 {
        t
    } else {
        tick_spec(ticks(t, (k - 1) as nat)).0
    }
}

impl Timers {
    /// The divisor is at least one and the counter below it.
    pub open spec fn wf(&self) -> bool {
        self.divisor >= 1 && self.counter < self.divisor
    }

    /// Stopped timers for a CPU clocked at `clock_hz`.
    pub fn new(clock_hz: u64) -> (t: Self)
        requires
            clock_hz >= TIMER_HZ,
        ensures
            t.wf(),
            t == (Timers { delay: 0, sound: 0, counter: 0, divisor: clock_hz / TIMER_HZ }),
    {
        Timers { delay: 0, sound: 0, counter: 0, divisor: clock_hz / TIMER_HZ }
    }

    /// Runs one cycle of the timers and tells whether sound was requested.
    pub fn tick(&mut self) -> (sound_request: bool)
        requires
            old(self).wf(),
        ensures
            final(self).wf(),
            (*final(self), sound_request) == tick_spec(*old(self)),
    {
        self.counter = (self.counter + 1) % self.divisor;
        let mut sound_request = false;
        if self.counter == 0 {
            if self.delay > 0 {
                self.delay = self.delay - 1;
            }
            if self.sound > 0 {
                sound_request = self.sound == 1;
                self.sound = self.sound - 1;
            }
        }
        sound_request
    }
}

/// Before the counter wraps, cycles only advance the counter.
proof fn lemma_ticks_before_wrap(t: Timers, k: nat)
    requires
        t.wf(),
        t.counter == 0,
        k < t.divisor,
    ensures
        ticks(t, k) == (Timers { counter: k as u64, ..t }),
    decreases k,
{
    if k > 0 {
        lemma_ticks_before_wrap(t, (k - 1) as nat);
        lemma_small_mod(k, t.divisor as nat);
    }
}

/// Counting from a wrap, the timers hold still for `clock_hz / 60 - 1`
/// cycles and drop by exactly one on cycle `clock_hz / 60` (at 600 Hz: once
/// in ten cycles).
pub proof fn lemma_timer_rate(t: Timers, clock_hz: u64)
    requires
        clock_hz >= TIMER_HZ,
        t.divisor == clock_hz / TIMER_HZ,
        t.counter == 0,
    ensures
        forall|k: nat| k < t.divisor ==> #[trigger] ticks(t, k).delay == t.delay && ticks(t, k).sound == t.sound,
        ticks(t, t.divisor as nat).delay == if t.delay > 0 { t.delay - 1 } else { 0 },
        ticks(t, t.divisor as nat).sound == if t.sound > 0 { t.sound - 1 } else { 0 },
        ticks(t, t.divisor as nat).counter == 0,
{
    assert forall|k: nat| k < t.divisor implies #[trigger] ticks(t, k).delay == t.delay && ticks(t, k).sound == t.sound by {
        lemma_ticks_before_wrap(t, k);
    }
    lemma_ticks_before_wrap(t, (t.divisor - 1) as nat);
    lemma_mod_self_0(t.divisor as int);
    assert(ticks(t, t.divisor as nat) == tick_spec(ticks(t, (t.divisor - 1) as nat)).0);
}

} // verus!
