//! Exact integer timing for a hobby-servo PWM signal: solving a pulse-width
//! specification against the peripheral's source clock for a period register
//! value, a fixed-point clock divider and the duty-cycle travel bounds, and
//! mapping a commanded angle to a duty count. Angles are carried in
//! thousandths of a degree and the divider as an integer with sixteenth
//! steps, so every result is bit-exact. The PWM register writes themselves
//! live outside this crate.

use vstd::prelude::*;

use vstd::arithmetic::div_mod::lemma_basic_div;
use vstd::arithmetic::div_mod::lemma_div_is_ordered;
use vstd::arithmetic::div_mod::lemma_div_is_ordered_by_denominator;
use vstd::arithmetic::div_mod::lemma_div_multiples_vanish;
use vstd::arithmetic::div_mod::lemma_hoist_over_denominator;

verus! {

/// Servo signal specification: the frame period and pulse-width travel in
/// microseconds, and the angles (thousandths of a degree) those pulses
/// stand for.
#[derive(Debug, Clone, Copy, PartialEq, Eq, Structural)]
pub struct ServoSpec {
    /// Full frame period (20_000 for the usual 50 Hz signal).
    pub frame_us: u32,
    /// Pulse width commanding the low end of the travel.
    pub pulse_min_us: u32,
    /// Pulse width commanding the high end of the travel.
    pub pulse_max_us: u32,
    /// Angle the minimum pulse stands for, in millidegrees.
    pub angle_min_mdeg: i32,
    /// Angle the maximum pulse stands for, in millidegrees.
    pub angle_max_mdeg: i32,
}

impl ServoSpec {
    /// Inland KS0209 blue 9 g servo motor.
    pub fn inland_ks0209() -> (r: ServoSpec)
        ensures
            r == (ServoSpec {
                frame_us: 20_000u32,
                pulse_min_us: 1000u32,
                pulse_max_us: 2000u32,
                angle_min_mdeg: 0i32,
                angle_max_mdeg: 90_000i32,
            }),
    {
        ServoSpec {
            frame_us: 20_000,
            pulse_min_us: 1000,
            pulse_max_us: 2000,
            angle_min_mdeg: 0,
            angle_max_mdeg: 90_000,
        }
    }

    /// MakerHawk MG-995 DIGI Hi-Speed.
    pub fn makerhawk_mg995() -> (r: ServoSpec)
        ensures
            r == (ServoSpec {
                frame_us: 20_000u32,
                pulse_min_us: 500u32,
                pulse_max_us: 2500u32,
                angle_min_mdeg: 0i32,
                angle_max_mdeg: 180_000i32,
            }),
    {
        ServoSpec {
            frame_us: 20_000,
            pulse_min_us: 500,
            pulse_max_us: 2500,
            angle_min_mdeg: 0,
            angle_max_mdeg: 180_000,
        }
    }
}

/// The frame period after the defensive clamp: at least one microsecond.
pub open spec fn clamped_frame(s: ServoSpec) -> int {
    if s.frame_us >= 1 {
        s.frame_us as int
    } else {
        1
    }
}

/// The minimum pulse after the defensive clamp: within `[0, frame)`.
pub open spec fn clamped_pulse_min(s: ServoSpec) -> int {
    if s.pulse_min_us < clamped_frame(s) {
        s.pulse_min_us as int
    } else {
        clamped_frame(s) - 1
    }
}

/// The maximum pulse after the defensive clamp: within `(min, frame]`.
pub open spec fn clamped_pulse_max(s: ServoSpec) -> int {
    let lo = clamped_pulse_min(s) + 1;
    let raw = if s.pulse_max_us >= lo {
        s.pulse_max_us as int
    } else {
        lo
    };
    if raw <= clamped_frame(s) {
        raw
    } else {
        clamped_frame(s)
    }
}

/// The tick rate aimed for: one tick per microsecond, lowered just enough
/// that the period register can stay within its 16 bits.
pub open spec fn target_tick_hz(frame: int) -> int {
    let cap = 65536int * 1_000_000 / frame;
    let cap1 = if cap >= 1 {
        cap
    } else {
        1
    };
    if cap1 <= 1_000_000 {
        cap1
    } else {
        1_000_000
    }
}

/// The starting divider, in sixteenth steps: the clock over the target tick
/// rate, rounded to the nearest step and clamped into the register's
/// `[1.0, 255.9375]`.
pub open spec fn initial_divider(clock: int, target: int) -> int {
    let d = (clock * 16 + target / 2) / target;
    let lo = if d >= 16 {
        d
    } else {
        16
    };
    if lo <= 4095 {
        lo
    } else {
        4095
    }
}

/// The effective tick rate a divider yields from the source clock.
pub open spec fn tick_of(clock: int, d: int) -> int {
    clock * 16 / d
}

/// The period register value a frame needs at a tick rate: the tick count
/// per frame, rounded to nearest, less one (never below zero).
pub open spec fn top_of(frame: int, tick: int) -> int {
    let p = (frame * tick + 500_000) / 1_000_000;
    if p == 0 {
        0
    } else {
        p - 1
    }
}

/// The divider the discrete search settles on: from `d` upward, one
/// sixteenth step at a time, until the period register fits its 16 bits or
/// the divider is pinned at its maximum. The coarsest fitting divider wins,
/// for the best angular resolution.
pub open spec fn solved_divider(clock: int, frame: int, d: int) -> int
    decreases 4095 - d,
    when 16 <= d <= 4095
{
    if top_of(frame, tick_of(clock, d)) <= 65535 || d >= 4095 {
        d
    } else {
        solved_divider(clock, frame, d + 1)
    }
}

/// A pulse width as a duty count at a tick rate: ticks per pulse, rounded
/// to nearest, clamped to the period register.
pub open spec fn counts_of(pulse: int, tick: int, top: int) -> int {
    let c = (pulse * tick + 500_000) / 1_000_000;
    if c <= top {
        c
    } else {
        top
    }
}

/// Derived PWM timing for a servo: period register, fixed-point divider
/// (integer part plus sixteenths), effective tick rate, and the duty-cycle
/// counts bounding the travel. Computed once; immutable thereafter.
#[derive(Debug, Clone, Copy, PartialEq, Eq, Structural)]
pub struct ServoConfig {
    /// PWM period register value (period less one).
    pub top: u16,
    /// Integer part of the clock divider.
    pub div_int: u8,
    /// Fractional part of the clock divider, in sixteenths.
    pub div_frac: u8,
    /// Effective tick rate in Hz.
    pub tick_hz: u32,
    /// Angle of the low travel end, in millidegrees.
    pub angle_min_mdeg: i32,
    /// Angle of the high travel end, in millidegrees.
    pub angle_max_mdeg: i32,
    /// Duty count at the minimum pulse width.
    pub duty_min: u16,
    /// Duty count at the maximum pulse width.
    pub duty_max: u16,
}

/// What solving a specification against a source clock yields; the solver
/// returns exactly this, so its output is bit-exact for fixed inputs.
pub open spec fn solve_model(clock: int, s: ServoSpec) -> ServoConfig {
    let frame = clamped_frame(s);
    let d = solved_divider(clock, frame, initial_divider(clock, target_tick_hz(frame)));
    let tick = tick_of(clock, d);
    let rawtop = top_of(frame, tick);
    let top = if rawtop <= 65535 {
        rawtop
    } else {
        65535
    };
    ServoConfig {
        top: top as u16,
        div_int: (d / 16) as u8,
        div_frac: (d % 16) as u8,
        tick_hz: tick as u32,
        angle_min_mdeg: s.angle_min_mdeg,
        angle_max_mdeg: s.angle_max_mdeg,
        duty_min: counts_of(clamped_pulse_min(s), tick, top) as u16,
        duty_max: counts_of(clamped_pulse_max(s), tick, top) as u16,
    }
}

/// The divider register limits hold of the solved configuration.
pub open spec fn config_wf(c: ServoConfig) -> bool {
    &&& 1 <= c.div_int
    &&& c.duty_min <= c.duty_max <= c.top
}

/// The effective tick rate of `d` sixteenth steps over `clock_hz`.
fn tick_exec(clock_hz: u32, d: u32) -> (r: u32)
    requires
        16 <= d,
    ensures
        r == tick_of(clock_hz as int, d as int),
        r <= clock_hz,
{
    proof {
        lemma_div_is_ordered_by_denominator(clock_hz as int * 16, 16, d as int);
        lemma_div_multiples_vanish(clock_hz as int, 16);
        assert(16 * (clock_hz as int) == clock_hz as int * 16);
    }
    ((clock_hz as u64) * 16 / (d as u64)) as u32
}

/// The period register value for `frame_us` at `tick_hz`.
fn top_exec(frame_us: u32, tick_hz: u32) -> (r: u64)
    ensures
        r == top_of(frame_us as int, tick_hz as int),
{
    proof {
        assert((frame_us as int) * (tick_hz as int) <= 0xffff_ffff * 0xffff_ffff) by (nonlinear_arith)
            requires
                frame_us as int <= 0xffff_ffff,
                tick_hz as int <= 0xffff_ffff,
                0 <= frame_us as int,
                0 <= tick_hz as int,
        ;
    }
    let p: u64 = ((frame_us as u64) * (tick_hz as u64) + 500_000) / 1_000_000;
    if p == 0 {
        0
    } else {
        p - 1
    }
}

/// A pulse width as a duty count: ticks per pulse, rounded to nearest,
/// clamped to the period register.
pub fn us_to_counts(pulse_us: u32, tick_hz: u32, top: u16) -> (r: u16)
    ensures
        r as int == counts_of(pulse_us as int, tick_hz as int, top as int),
{
    proof {
        assert((pulse_us as int) * (tick_hz as int) <= 0xffff_ffff * 0xffff_ffff) by (nonlinear_arith)
            requires
                pulse_us as int <= 0xffff_ffff,
                tick_hz as int <= 0xffff_ffff,
                0 <= pulse_us as int,
                0 <= tick_hz as int,
        ;
    }
    let c: u64 = ((pulse_us as u64) * (tick_hz as u64) + 500_000) / 1_000_000;
    if c <= top as u64 {
        c as u16
    } else {
        top
    }
}

impl ServoConfig {
    /// Solve `sg` against the PWM peripheral's source clock (125 MHz on the
    /// usual target): a discrete search over sixteenth divider steps for
    /// the coarsest divider whose period register still fits 16 bits —
    /// range is never sacrificed for resolution. The result is a pure
    /// function of the inputs, so repeated calls agree bit for bit.
    pub fn new_precomputed(pwm_clock_hz: u32, sg: &ServoSpec) -> (r: ServoConfig)
        ensures
            r == solve_model(pwm_clock_hz as int, *sg),
            config_wf(r),
    {
        let clock = pwm_clock_hz;
        // Defensive clamps on the specification.
        let frame_us: u32 = if sg.frame_us >= 1 {
            sg.frame_us
        } else {
            1
        };
        let pulse_min_us: u32 = if sg.pulse_min_us < frame_us {
            sg.pulse_min_us
        } else {
            frame_us - 1
        };
        let raw_max: u32 = if sg.pulse_max_us >= pulse_min_us + 1 {
            sg.pulse_max_us
        } else {
            pulse_min_us + 1
        };
        let pulse_max_us: u32 = if raw_max <= frame_us {
            raw_max
        } else {
            frame_us
        };
        // Target tick rate: 1 MHz, lowered so the period register can fit.
        let cap: u64 = 65536u64 * 1_000_000u64 / (frame_us as u64);
        let cap1: u64 = if cap >= 1 {
            cap
        } else {
            1
        };
        let target: u64 = if cap1 <= 1_000_000 {
            cap1
        } else {
            1_000_000
        };
        // Initial divider in sixteenth steps, rounded to nearest.
        let d0: u64 = ((clock as u64) * 16 + target / 2) / target;
        let d0lo: u64 = if d0 >= 16 {
            d0
        } else {
            16
        };
        let mut d: u32 = if d0lo <= 4095 {
            d0lo as u32
        } else {
            4095
        };
        let ghost d_init = d as int;
        proof {
            assert(d_init == initial_divider(clock as int, target_tick_hz(frame_us as int)));
        }
        // Search upward until the period register fits or the divider pins.
        let mut tick: u32 = tick_exec(clock, d);
        let mut top: u64 = top_exec(frame_us, tick);
        while top > 65535 && d < 4095
            invariant
                16 <= d <= 4095,
                tick == tick_of(clock as int, d as int),
                tick <= clock,
                top == top_of(frame_us as int, tick as int),
                solved_divider(clock as int, frame_us as int, d as int) == solved_divider(
                    clock as int,
                    frame_us as int,
                    d_init,
                ),
            decreases 4095 - d,
        {
            d = d + 1;
            tick = tick_exec(clock, d);
            top = top_exec(frame_us, tick);
        }
        proof {
            assert(d as int == solved_divider(clock as int, frame_us as int, d_init));
        }
        let div_int: u8 = (d / 16) as u8;
        let div_frac: u8 = (d % 16) as u8;
        let top_u16: u16 = if top <= 65535 {
            top as u16
        } else {
            65535
        };
        // Duty counts for the travel bounds, clamped to the register.
        let duty_min = us_to_counts(pulse_min_us, tick, top_u16);
        let duty_max = us_to_counts(pulse_max_us, tick, top_u16);
        proof {
            assert((pulse_min_us as int) * (tick as int) <= (pulse_max_us as int) * (tick as int))
                by (nonlinear_arith)
                requires
                    pulse_min_us as int <= pulse_max_us as int,
                    0 <= tick as int,
            ;
            lemma_div_is_ordered(
                (pulse_min_us as int) * (tick as int) + 500_000,
                (pulse_max_us as int) * (tick as int) + 500_000,
                1_000_000,
            );
        }
        ServoConfig {
            top: top_u16,
            div_int,
            div_frac,
            tick_hz: tick,
            angle_min_mdeg: sg.angle_min_mdeg,
            angle_max_mdeg: sg.angle_max_mdeg,
            duty_min,
            duty_max,
        }
    }

    /// The divider as the register's raw bits: integer part high, sixteenth
    /// steps in the low four bits.
    pub fn divider_bits(&self) -> (r: u16)
        ensures
            r == self.div_int as int * 16 + self.div_frac as int,
    {
        (self.div_int as u16) * 16 + (self.div_frac as u16)
    }
}

/// Faults of the servo driver. Produced by the PWM wiring outside this
/// crate when a duty-cycle write is rejected.
#[derive(Debug, Clone, Copy, PartialEq, Eq, Structural)]
pub enum ServoError {
    SetDutyCycle,
}

/// The duty count a commanded angle maps to. A degenerate angle range
/// always answers the low travel bound (no division by zero); otherwise
/// the angle is clamped into the travel, interpolated linearly between the
/// duty bounds (rounding to nearest, and working equally for an inverted
/// mounting with `angle_max < angle_min`), and clamped into the period
/// register as a last defence.
pub open spec fn angle_duty_model(angle_mdeg: int, c: ServoConfig) -> int {
    let a0 = c.angle_min_mdeg as int;
    let a1 = c.angle_max_mdeg as int;
    let d0 = c.duty_min as int;
    let d1 = c.duty_max as int;
    if a0 == a1 {
        d0
    } else {
        let lo = if a0 <= a1 {
            a0
        } else {
            a1
        };
        let hi = if a0 <= a1 {
            a1
        } else {
            a0
        };
        let a = if angle_mdeg < lo {
            lo
        } else if angle_mdeg > hi {
            hi
        } else {
            angle_mdeg
        };
        let span = hi - lo;
        let rel = if a0 <= a1 {
            a - a0
        } else {
            a0 - a
        };
        let duty = if d1 >= d0 {
            d0 + (rel * (d1 - d0) + span / 2) / span
        } else {
            d0 - (rel * (d0 - d1) + span / 2) / span
        };
        if duty < 0 {
            0
        } else if duty > c.top as int {
            c.top as int
        } else {
            duty
        }
    }
}

/// Interpolation stays within the duty bounds: for `0 <= rel <= span`,
/// `(rel * delta + span / 2) / span` lies in `[0, delta]`.
proof fn lemma_interp_bounds(rel: int, span: int, delta: int)
    requires
        0 < span,
        0 <= rel <= span,
        0 <= delta,
    ensures
        0 <= (rel * delta + span / 2) / span <= delta,
{
    assert(0 <= rel * delta <= span * delta) by (nonlinear_arith)
        requires
            0 <= rel <= span,
            0 <= delta,
    ;
    vstd::arithmetic::div_mod::lemma_div_pos_is_pos(rel * delta + span / 2, span);
    lemma_div_is_ordered(rel * delta + span / 2, span * delta + span / 2, span);
    assert(span * delta == delta * span) by (nonlinear_arith);
    lemma_hoist_over_denominator(span / 2, delta, span as nat);
    lemma_basic_div(span / 2, span);
}

/// Map a commanded angle (millidegrees) to a duty count, per
/// `angle_duty_model`. Total: any angle and any configuration give an
/// in-range duty count; the hardware write that may still fail is reported
/// separately by the caller.
pub fn angle_to_duty(angle_mdeg: i32, config: &ServoConfig) -> (r: u16)
    ensures
        r as int == angle_duty_model(angle_mdeg as int, *config),
{
    let a0 = config.angle_min_mdeg;
    let a1 = config.angle_max_mdeg;
    if a0 == a1 {
        return config.duty_min;
    }
    let lo = if a0 <= a1 {
        a0
    } else {
        a1
    };
    let hi = if a0 <= a1 {
        a1
    } else {
        a0
    };
    let a = if angle_mdeg < lo {
        lo
    } else if angle_mdeg > hi {
        hi
    } else {
        angle_mdeg
    };
    let span: u64 = ((hi as i64) - (lo as i64)) as u64;
    let rel: u64 = if a0 <= a1 {
        ((a as i64) - (a0 as i64)) as u64
    } else {
        ((a0 as i64) - (a as i64)) as u64
    };
    let d0 = config.duty_min;
    let d1 = config.duty_max;
    let duty: u64 = if d1 >= d0 {
        let delta: u64 = (d1 - d0) as u64;
        proof {
            lemma_interp_bounds(rel as int, span as int, delta as int);
            assert(rel as int * delta as int <= 0xffff_ffff * 0xffff) by (nonlinear_arith)
                requires
                    0 <= rel as int <= 0xffff_ffff,
                    0 <= delta as int <= 0xffff,
            ;
        }
        (d0 as u64) + (rel * delta + span / 2) / span
    } else {
        let delta: u64 = (d0 - d1) as u64;
        proof {
            lemma_interp_bounds(rel as int, span as int, delta as int);
            assert(rel as int * delta as int <= 0xffff_ffff * 0xffff) by (nonlinear_arith)
                requires
                    0 <= rel as int <= 0xffff_ffff,
                    0 <= delta as int <= 0xffff,
            ;
        }
        (d0 as u64) - (rel * delta + span / 2) / span
    };
    if duty > config.top as u64 {
        config.top
    } else {
        duty as u16
    }
}

/// Law: for a solver-shaped configuration with a real angle range, the
/// mapper hits the travel bounds exactly — the minimum angle answers
/// `duty_min` and the maximum angle answers `duty_max`.
pub proof fn lemma_angle_endpoints(c: ServoConfig)
    requires
        config_wf(c),
        c.angle_min_mdeg != c.angle_max_mdeg,
    ensures
        angle_duty_model(c.angle_min_mdeg as int, c) == c.duty_min,
        angle_duty_model(c.angle_max_mdeg as int, c) == c.duty_max,
{
    let a0 = c.angle_min_mdeg as int;
    let a1 = c.angle_max_mdeg as int;
    let d0 = c.duty_min as int;
    let d1 = c.duty_max as int;
    let lo = if a0 <= a1 {
        a0
    } else {
        a1
    };
    let hi = if a0 <= a1 {
        a1
    } else {
        a0
    };
    let span = hi - lo;
    lemma_basic_div(span / 2, span);
    lemma_hoist_over_denominator(span / 2, d1 - d0, span as nat);
    assert(span * (d1 - d0) == (d1 - d0) * span) by (nonlinear_arith);
}

/// Law: a commanded angle outside the travel clamps to the nearer bound's
/// duty — any angle at or below the low end of the range maps as that end
/// does, and likewise above the high end.
pub proof fn lemma_angle_clamps(c: ServoConfig, angle_mdeg: int)
    requires
        c.angle_min_mdeg != c.angle_max_mdeg,
    ensures
        ({
            let a0 = c.angle_min_mdeg as int;
            let a1 = c.angle_max_mdeg as int;
            let lo = if a0 <= a1 {
                a0
            } else {
                a1
            };
            let hi = if a0 <= a1 {
                a1
            } else {
                a0
            };
            &&& angle_mdeg <= lo ==> angle_duty_model(angle_mdeg, c) == angle_duty_model(lo, c)
            &&& angle_mdeg >= hi ==> angle_duty_model(angle_mdeg, c) == angle_duty_model(hi, c)
        }),
{
}

/// Law: a degenerate specification, with the two travel angles equal,
/// answers `duty_min` for every commanded angle and never divides.
pub proof fn lemma_degenerate_spec(c: ServoConfig, angle_mdeg: int)
    requires
        c.angle_min_mdeg == c.angle_max_mdeg,
    ensures
        angle_duty_model(angle_mdeg, c) == c.duty_min,
{
}

} // verus!
