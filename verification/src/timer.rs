//! Millisecond tick counter and free-running cycle counter.
//!
//! The millisecond counter is incremented by the 1 kHz timer interrupt and
//! read by the foreground task inside an atomic section; here it is owned
//! explicitly by [`Timer`]. The cycle counter is the hardware register
//! `TCNT1L`, incremented once per CPU cycle, and is read from the register
//! file. All elapsed-time arithmetic wraps, and its correctness holds
//! across the wraparound boundary.
use vstd::prelude::*;

use crate::pins::{Register, RegisterFile, CS00, CS01, CS10, OCIE0A, OCR0A, TCCR0A, TCCR0B,
    TCCR1A, TCCR1B, TCNT1L, TIMSK0, WGM01};

verus! {

/// CPU clock frequency in Hz.
pub const F_CPU: u64 = 16000000;

/// Timer 0 prescaler: one timer step every 64 CPU cycles (4 us).
pub const TIMER_PRESCALER: u8 = 64;

/// Timer 0 step frequency after prescaling.
pub const TIMER_RAW_FREQ: u64 = F_CPU / 64;

/// Timer 0 top value: the interrupt fires every `TIMER_RAW_TOP` steps.
pub const TIMER_RAW_TOP: u8 = 250;

/// The configured timer really ticks at 1 kHz: top * prescaler * 1000
/// steps per second is exactly the CPU clock.
pub proof fn timer_top_matches_clock()
    ensures
        TIMER_RAW_TOP as u64 == TIMER_RAW_FREQ / 1000,
        (TIMER_RAW_TOP as u64) * (TIMER_PRESCALER as u64) * 1000 == F_CPU,
{
    assert((250 as u64) * (64 as u64) * 1000 == 16000000) by (nonlinear_arith);
}

/// Wrapping 32-bit difference: the number of ticks from `last` to `now`.
pub open spec fn spec_elapsed32(now: u32, last: u32) -> u32 {
    if now >= last {
        (now - last) as u32
    } else {
        (now - last + 0x1_0000_0000) as u32
    }
}

/// Wrapping 8-bit difference: the number of cycles from `last` to `now`.
pub open spec fn spec_elapsed8(now: u8, last: u8) -> u8 {
    if now >= last {
        (now - last) as u8
    } else {
        (now - last + 0x100) as u8
    }
}

/// The millisecond tick counter, incremented by the timer interrupt.
///
/// Shared between the interrupt handler and the main loop; every access in
/// the firmware happens inside an atomic section, which exclusive ownership
/// models here.
pub struct Timer {
    /// Milliseconds since power-on, wrapping.
    pub ms: u32,
}

impl Timer {
    /// A timer that has not ticked yet.
    pub fn new() -> (t: Timer)
        ensures
            t.ms == 0,
    {
        Timer { ms: 0 }
    }

    /// One 1 kHz interrupt: the counter advances by a millisecond.
    pub fn timer_increment(&mut self)
        ensures
            final(self).ms == old(self).ms.wrapping_add(1),
            spec_elapsed32(final(self).ms, old(self).ms) == 1,
    {
        self.ms = self.ms.wrapping_add(1);
    }

    /// Reads the current millisecond count (an atomic read in the firmware).
    pub fn timer_read(&self) -> (r: u32)
        ensures
            r == self.ms,
    {
        self.ms
    }

    /// Milliseconds elapsed since `last`, correct across wraparound.
    pub fn timer_elapsed(&self, last: u32) -> (r: u32)
        ensures
            r == spec_elapsed32(self.ms, last),
            last.wrapping_add(r) == self.ms,
    {
        self.ms.wrapping_sub(last)
    }

    /// Elapsed milliseconds truncated to 16 bits.
    pub fn timer_elapsed16(&self, last: u32) -> (r: u16)
        ensures
            r == spec_elapsed32(self.ms, last) & 0xFFFF,
    {
        let e = self.timer_elapsed(last);
        proof {
            let ev = spec_elapsed32(self.ms, last);
            assert((ev & 0xFFFFu32) < 0x1_0000) by (bit_vector);
            assert((ev & 0xFFFFu32) as u16 == (ev & 0xFFFFu32)) by (bit_vector);
        }
        (e & 0xFFFF) as u16
    }

    /// True when the given future time has already passed.
    pub fn timer_expired(&self, future: u32) -> (r: bool)
        ensures
            r == (future < self.ms),
    {
        future < self.ms
    }
}

/// Configures timer 0 as the 1 ms clock and timer 1 as the cycle counter.
pub fn timer_init(regs: &mut RegisterFile)
    requires
        old(regs).wf(),
    ensures
        final(regs).wf(),
        final(regs)@[TCCR0A as int] == WGM01,
        final(regs)@[TCCR0B as int] == CS00 | CS01,
        final(regs)@[OCR0A as int] == TIMER_RAW_TOP,
        final(regs)@[TIMSK0 as int] == OCIE0A,
        final(regs)@[TCCR1A as int] == 0,
        final(regs)@[TCCR1B as int] == CS10,
{
    // 1 ms clock
    Register(TCCR0A).write(regs, WGM01);
    Register(TCCR0B).write(regs, CS00 | CS01);

    Register(OCR0A).write(regs, TIMER_RAW_TOP);
    Register(TIMSK0).write(regs, OCIE0A);

    // 1 cycle clock
    Register(TCCR1A).write(regs, 0);
    Register(TCCR1B).write(regs, CS10);
}

/// Reads the current value of the free-running cycle counter.
pub fn cycles_read(regs: &RegisterFile) -> (r: u8)
    requires
        regs.wf(),
    ensures
        r == regs@[TCNT1L as int],
{
    Register(TCNT1L).read(regs)
}

/// Cycles elapsed since `last`, correct across wraparound.
pub fn cycles_elapsed(regs: &RegisterFile, last: u8) -> (r: u8)
    requires
        regs.wf(),
    ensures
        r == spec_elapsed8(regs@[TCNT1L as int], last),
{
    cycles_read(regs).wrapping_sub(last)
}

} // verus!
