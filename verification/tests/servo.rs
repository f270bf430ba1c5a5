//! The PWM timing solver and the angle-to-duty mapper.

use pico_bsp::angle_to_duty;
use pico_bsp::us_to_counts;
use pico_bsp::ServoConfig;
use pico_bsp::ServoSpec;

const PWM_CLOCK_HZ: u32 = 125_000_000;

#[test]
fn ks0209_solves_to_microsecond_ticks() {
    let c = ServoConfig::new_precomputed(PWM_CLOCK_HZ, &ServoSpec::inland_ks0209());
    // 125 MHz / 125.0 = 1 MHz: one tick per microsecond, 20 ms frame.
    assert_eq!(c.div_int, 125);
    assert_eq!(c.div_frac, 0);
    assert_eq!(c.tick_hz, 1_000_000);
    assert_eq!(c.top, 19_999);
    assert_eq!(c.duty_min, 1_000);
    assert_eq!(c.duty_max, 2_000);
    assert_eq!(c.angle_min_mdeg, 0);
    assert_eq!(c.angle_max_mdeg, 90_000);
}

#[test]
fn mg995_duty_bounds_follow_its_pulses() {
    let c = ServoConfig::new_precomputed(PWM_CLOCK_HZ, &ServoSpec::makerhawk_mg995());
    assert_eq!(c.tick_hz, 1_000_000);
    assert_eq!(c.top, 19_999);
    assert_eq!(c.duty_min, 500);
    assert_eq!(c.duty_max, 2_500);
    assert_eq!(c.angle_max_mdeg, 180_000);
}

#[test]
fn solver_is_deterministic() {
    let a = ServoConfig::new_precomputed(PWM_CLOCK_HZ, &ServoSpec::inland_ks0209());
    let b = ServoConfig::new_precomputed(PWM_CLOCK_HZ, &ServoSpec::inland_ks0209());
    assert_eq!(a, b);
}

#[test]
fn long_frame_lowers_the_tick_rate_to_keep_top_in_range() {
    // A 70 ms frame cannot fit 16 bits at 1 MHz; the search bumps the
    // divider one sixteenth step past the rounded start.
    let sg = ServoSpec {
        frame_us: 70_000,
        pulse_min_us: 1_000,
        pulse_max_us: 2_000,
        angle_min_mdeg: 0,
        angle_max_mdeg: 90_000,
    };
    let c = ServoConfig::new_precomputed(PWM_CLOCK_HZ, &sg);
    assert_eq!(c.div_int, 133);
    assert_eq!(c.div_frac, 9);
    assert_eq!(c.tick_hz, 935_891);
    assert_eq!(c.top, 65_511);
    assert!(c.duty_min <= c.duty_max && c.duty_max <= c.top);
}

#[test]
fn degenerate_frame_clamps_without_panicking() {
    let sg = ServoSpec {
        frame_us: 0,
        pulse_min_us: 5,
        pulse_max_us: 3,
        angle_min_mdeg: 0,
        angle_max_mdeg: 1_000,
    };
    let c = ServoConfig::new_precomputed(PWM_CLOCK_HZ, &sg);
    assert_eq!(c.top, 0);
    assert_eq!(c.duty_min, 0);
    assert_eq!(c.duty_max, 0);
    assert!(c.div_int >= 1);
}

#[test]
fn duty_count_formula_is_exact() {
    assert_eq!(us_to_counts(1_500, 1_000_000, 19_999), 1_500);
    // 1 us at 1.5 MHz is 1.5 ticks: rounds up to 2.
    assert_eq!(us_to_counts(1, 1_500_000, 65_535), 2);
    // Clamped to the period register.
    assert_eq!(us_to_counts(30_000, 1_000_000, 19_999), 19_999);
    assert_eq!(us_to_counts(0, 1_000_000, 19_999), 0);
}

#[test]
fn mapper_hits_the_travel_bounds_exactly() {
    let c = ServoConfig::new_precomputed(PWM_CLOCK_HZ, &ServoSpec::inland_ks0209());
    assert_eq!(angle_to_duty(0, &c), c.duty_min);
    assert_eq!(angle_to_duty(90_000, &c), c.duty_max);
    assert_eq!(angle_to_duty(45_000, &c), 1_500);
}

#[test]
fn out_of_range_angles_clamp_to_the_nearest_bound() {
    let c = ServoConfig::new_precomputed(PWM_CLOCK_HZ, &ServoSpec::inland_ks0209());
    assert_eq!(angle_to_duty(-5_000, &c), c.duty_min);
    assert_eq!(angle_to_duty(200_000, &c), c.duty_max);
}

#[test]
fn inverted_mounting_maps_in_reverse() {
    let sg = ServoSpec {
        frame_us: 20_000,
        pulse_min_us: 1_000,
        pulse_max_us: 2_000,
        angle_min_mdeg: 90_000,
        angle_max_mdeg: 0,
    };
    let c = ServoConfig::new_precomputed(PWM_CLOCK_HZ, &sg);
    assert_eq!(angle_to_duty(90_000, &c), c.duty_min);
    assert_eq!(angle_to_duty(0, &c), c.duty_max);
    assert_eq!(angle_to_duty(45_000, &c), 1_500);
}

#[test]
fn degenerate_angle_range_always_answers_duty_min() {
    let sg = ServoSpec {
        frame_us: 20_000,
        pulse_min_us: 1_000,
        pulse_max_us: 2_000,
        angle_min_mdeg: 30_000,
        angle_max_mdeg: 30_000,
    };
    let c = ServoConfig::new_precomputed(PWM_CLOCK_HZ, &sg);
    assert_eq!(angle_to_duty(-100_000, &c), c.duty_min);
    assert_eq!(angle_to_duty(0, &c), c.duty_min);
    assert_eq!(angle_to_duty(30_000, &c), c.duty_min);
    assert_eq!(angle_to_duty(100_000, &c), c.duty_min);
}

#[test]
fn divider_bits_pack_int_and_sixteenths() {
    let c = ServoConfig::new_precomputed(PWM_CLOCK_HZ, &ServoSpec::inland_ks0209());
    assert_eq!(c.divider_bits(), 125 * 16);
}
