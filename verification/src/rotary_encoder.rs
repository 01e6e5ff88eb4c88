//! Quadrature decoding for the rotary encoder.
//!
//! The encoder state is a 2-bit pad history plus a signed pulse
//! accumulator. It is mutated only inside the timer interrupt and
//! read/reset atomically by the foreground task; exclusive ownership
//! models that discipline here.
use vstd::prelude::*;

verus! {

/// The encoder's raw state: pad history and accumulated pulses.
#[derive(Clone, Copy, PartialEq, Eq, Structural, Debug)]
pub struct RotaryState {
    /// The last two 2-bit pad samples, newest in the low bits.
    pub state: u8,
    /// Signed pulse accumulator, wrapping.
    pub pulses: i8,
}

/// A rotary encoder with its decoding state.
#[derive(Clone, Copy, PartialEq, Eq, Structural, Debug)]
pub struct RotaryEncoder {
    pub encoder: RotaryState,
}

/// The quadrature transition table: pulse contribution of one 4-bit
/// (previous sample, new sample) pair.
pub open spec fn spec_pulse_delta(index: u8) -> i8 {
    match index % 16 {
        0 => 0i8,
        1 => -1i8,
        2 => 1i8,
        3 => 0i8,
        4 => 1i8,
        5 => 0i8,
        6 => 0i8,
        7 => -1i8,
        8 => -1i8,
        9 => 0i8,
        10 => 0i8,
        11 => 1i8,
        12 => 0i8,
        13 => 1i8,
        14 => -1i8,
        _ => 0i8,
    }
}

/// Looks up the pulse contribution of a transition.
fn pulse_delta(index: u8) -> (r: i8)
    ensures
        r == spec_pulse_delta(index),
{
    match index % 16 {
        0 => 0,
        1 => -1,
        2 => 1,
        3 => 0,
        4 => 1,
        5 => 0,
        6 => 0,
        7 => -1,
        8 => -1,
        9 => 0,
        10 => 0,
        11 => 1,
        12 => 0,
        13 => 1,
        14 => -1,
        _ => 0,
    }
}

/// The pad history after sampling the two pads: the old history shifted
/// left by one sample, the new sample in the low bits.
pub open spec fn spec_next_state(state: u8, pad_a: bool, pad_b: bool) -> u8 {
    (((state * 4) % 256) as u8) | ((if pad_a {
        1u8
    } else {
        0u8
    }) | (if pad_b {
        2u8
    } else {
        0u8
    }))
}

/// Signed division truncating toward zero.
pub open spec fn spec_trunc_div(p: int, res: int) -> int {
    if p >= 0 {
        p / res
    } else {
        -((-p) / res)
    }
}

/// The remainder of truncating division, keeping the dividend's sign.
pub open spec fn spec_trunc_rem(p: int, res: int) -> int {
    if p >= 0 {
        p % res
    } else {
        -((-p) % res)
    }
}

/// What draining the accumulator does: the result is the pulse count
/// divided by the resolution, truncating toward zero; the remainder stays,
/// keeping the dividend's sign; the pad history is untouched.
pub open spec fn spec_rotary_task_effect(
    pre: RotaryEncoder,
    post: RotaryEncoder,
    resolution: i8,
    r: i8,
) -> bool {
    &&& r == spec_trunc_div(pre.encoder.pulses as int, resolution as int)
    &&& post.encoder.pulses == spec_trunc_rem(pre.encoder.pulses as int, resolution as int)
    &&& pre.encoder.pulses == r * resolution + post.encoder.pulses
    &&& -resolution < post.encoder.pulses < resolution
    &&& post.encoder.state == pre.encoder.state
}

/// The drained encoder state: the remainder stays, the history is kept.
pub open spec fn spec_rotary_task_post(pre: RotaryEncoder, resolution: i8) -> RotaryEncoder {
    RotaryEncoder {
        encoder: RotaryState {
            state: pre.encoder.state,
            pulses: spec_trunc_rem(pre.encoder.pulses as int, resolution as int) as i8,
        },
    }
}

impl RotaryEncoder {
    /// A quiescent encoder.
    pub fn new() -> (r: RotaryEncoder)
        ensures
            r.encoder.state == 0,
            r.encoder.pulses == 0,
    {
        RotaryEncoder { encoder: RotaryState { state: 0, pulses: 0 } }
    }

    /// Configures this side's two encoder pads as inputs with the pull-ups
    /// on.
    pub fn init(regs: &mut crate::pins::RegisterFile, pin1: crate::pins::Pin,
        pin2: crate::pins::Pin)
        requires
            old(regs).wf(),
            pin1.valid(),
            pin2.valid(),
        ensures
            final(regs).wf(),
            ({
                let mid = old(regs)@.update(
                    pin1.spec_port_base() + 1,
                    old(regs)@[pin1.spec_port_base() + 1] & !pin1.spec_mask(),
                ).update(
                    pin1.spec_port_base() + 2,
                    old(regs)@[pin1.spec_port_base() + 2] | pin1.spec_mask(),
                );
                final(regs)@ == mid.update(
                    pin2.spec_port_base() + 1,
                    mid[pin2.spec_port_base() + 1] & !pin2.spec_mask(),
                ).update(pin2.spec_port_base() + 2, mid[pin2.spec_port_base() + 2] | pin2.spec_mask())
            }),
    {
        pin1.gpio_set_pin_input_high(regs);
        pin2.gpio_set_pin_input_high(regs);
    }

    /// One timer-interrupt step: shifts in the new pad sample and
    /// accumulates the pulse contribution of the transition.
    ///
    /// Runs inside the timer interrupt in the firmware, so it must only be
    /// called while the encoder is not being read by the foreground task.
    pub fn fast_encoder_task(&mut self, pad_a: bool, pad_b: bool)
        ensures
            final(self).encoder.state == spec_next_state(old(self).encoder.state, pad_a, pad_b),
            final(self).encoder.pulses == old(self).encoder.pulses.wrapping_add(
                spec_pulse_delta(spec_next_state(old(self).encoder.state, pad_a, pad_b)),
            ),
    {
        let new_sample: u8 = (if pad_a {
            1u8
        } else {
            0u8
        }) | (if pad_b {
            2u8
        } else {
            0u8
        });
        let shifted: u8 = self.encoder.state.wrapping_mul(4);
        proof {
            let st = old(self).encoder.state;
            assert(st as nat * 4 % 256 == (st * 4) % 256);
        }
        self.encoder.state = shifted | new_sample;
        let delta = pulse_delta(self.encoder.state % 16);
        proof {
            let ns = spec_next_state(old(self).encoder.state, pad_a, pad_b);
            assert(spec_pulse_delta(ns % 16) == spec_pulse_delta(ns));
        }
        self.encoder.pulses = self.encoder.pulses.wrapping_add(delta);
    }

    /// Foreground task: returns the whole rotations accumulated since the
    /// last call and keeps the remainder (an atomic read-and-reset in the
    /// firmware).
    pub fn task(&mut self, resolution: i8) -> (r: i8)
        requires
            resolution >= 1,
        ensures
            spec_rotary_task_effect(*old(self), *final(self), resolution, r),
    {
        // The accumulator is signed but the division must truncate toward
        // zero, so divide magnitudes unsigned and restore the signs.
        let p = self.encoder.pulses;
        let ru: u16 = resolution as u16;
        let res: i8;
        if p >= 0 {
            let pu: u16 = p as u16;
            let q: u16 = pu / ru;
            let m: u16 = pu % ru;
            proof {
                vstd::arithmetic::div_mod::lemma_fundamental_div_mod(pu as int, ru as int);
                assert((ru as int) * (pu as int / ru as int) == (pu as int / ru as int) * (
                ru as int)) by (nonlinear_arith);
                assert(q <= q * ru) by (nonlinear_arith)
                    requires
                        0 <= q,
                        1 <= ru,
                ;
                assert(pu as int == (q as int) * (ru as int) + (m as int));
            }
            res = q as i8;
            self.encoder.pulses = m as i8;
        } else {
            // Negating i8::MIN overflows in i8, so widen first.
            let pu: u16 = (-(p as i16)) as u16;
            let q: u16 = pu / ru;
            let m: u16 = pu % ru;
            proof {
                vstd::arithmetic::div_mod::lemma_fundamental_div_mod(pu as int, ru as int);
                assert((ru as int) * (pu as int / ru as int) == (pu as int / ru as int) * (
                ru as int)) by (nonlinear_arith);
                assert(q <= q * ru) by (nonlinear_arith)
                    requires
                        0 <= q,
                        1 <= ru,
                ;
                assert(pu as int == (q as int) * (ru as int) + (m as int));
            }
            let nq: i16 = -(q as i16);
            let nm: i16 = -(m as i16);
            res = nq as i8;
            self.encoder.pulses = nm as i8;
            proof {
                assert((ru as int) * (q as int) == (q as int) * (ru as int)) by (nonlinear_arith);
                assert(nq * (ru as int) == -((q as int) * (ru as int))) by (nonlinear_arith)
                    requires
                        nq == -(q as int),
                ;
            }
        }
        res
    }
}

} // verus!
