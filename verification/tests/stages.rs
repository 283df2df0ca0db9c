use micromath::float::powf::PowfPlan;
use micromath::F32;

fn f(x: f32) -> F32 {
    F32::from_bits(x.to_bits())
}

fn g(v: F32) -> f32 {
    f32::from_bits(v.to_bits())
}

#[test]
fn field_accessors() {
    let one = f(1.0);
    assert_eq!(one.sign_bit(), 0);
    assert_eq!(one.exponent_bits(), 127);
    assert_eq!(one.mantissa_bits(), 0);
    assert_eq!(one.exponent_value(), 0);

    let x = f(-6.5);
    assert_eq!(x.sign_bit(), 1);
    assert_eq!(x.exponent_value(), 2);
    assert_eq!(g(x.without_sign()), 6.5);

    assert_eq!(g(f(1.5).set_exponent(3)), 12.0);
}

#[test]
fn integer_and_even_tests() {
    assert!(f(2.0).is_integer());
    assert!(f(-3.0).is_integer());
    assert!(!f(2.5).is_integer());
    assert!(!f(-0.75).is_integer());
    assert!(f(100_000_000.0).is_integer());

    assert!(f(2.0).is_even());
    assert!(!f(3.0).is_even());
    assert!(f(0.0).is_even());
    assert!(f(-4.0).is_even());
    assert!(!f(-7.0).is_even());
    assert!(f(1.0e12).is_even());
}

#[test]
fn exp_special_points() {
    // exp(0) is exactly one, exp(1) is e, exp(-1) is 1/e
    assert_eq!(g(f(0.0).exp_special().unwrap()), 1.0);
    assert_eq!(g(f(-0.0).exp_special().unwrap()), 1.0);
    assert_eq!(g(f(1.0).exp_special().unwrap()), core::f32::consts::E);
    assert_eq!(g(f(-1.0).exp_special().unwrap()), 1.0 / core::f32::consts::E);
    assert!(f(0.5).exp_special().is_none());
    assert!(f(2.0).exp_special().is_none());
}

#[test]
fn exp_reconstruct_range() {
    // overflow of the exponent range flushes to infinity, underflow to zero
    let fract_exp = f(1.5);
    assert_eq!(g(fract_exp.exp_reconstruct(3)), 12.0);
    assert_eq!(g(fract_exp.exp_reconstruct(-2)), 0.375);
    assert_eq!(g(fract_exp.exp_reconstruct(-1000)), 0.0);
    assert_eq!(g(fract_exp.exp_reconstruct(1000)), f32::INFINITY);
    assert_eq!(g(fract_exp.exp_reconstruct(i32::MAX)), f32::INFINITY);
    assert_eq!(g(fract_exp.exp_reconstruct(i32::MIN)), 0.0);
}

#[test]
fn ln_near_one_and_split() {
    // ln(1.0) is exactly zero: the near-one test routes it to 0.0
    assert!(f(1.0).near_one());
    assert!(!f(1.5).near_one());
    assert!(!f(0.5).near_one());

    let (n, divisor) = f(10.0).ln_split();
    assert_eq!(n, 3);
    assert_eq!(g(divisor), 8.0);

    let (n2, divisor2) = f(1.0).ln_split();
    assert_eq!(n2, 0);
    assert_eq!(g(divisor2), 1.0);
}

#[test]
fn powf_plan_parity() {
    // a negative base admits only whole exponents; odd ones carry the sign
    assert_eq!(f(-0.5881598).powf_plan(f(2.0)), PowfPlan::EvenMagnitude);
    assert_eq!(f(-0.5881598).powf_plan(f(3.2)), PowfPlan::Undefined);
    assert_eq!(f(-0.5881598).powf_plan(f(3.0)), PowfPlan::OddMagnitude);
    assert_eq!(f(-1000000.0).powf_plan(f(4.0)), PowfPlan::EvenMagnitude);
    assert_eq!(f(3.0).powf_plan(f(0.5)), PowfPlan::Direct);
    assert_eq!(f(0.0).powf_plan(f(0.5)), PowfPlan::Direct);
}

#[test]
fn atan2_quadrant_offsets() {
    assert_eq!(f(1.0).atan2_quadrant(f(1.0)), 0);
    assert_eq!(f(-1.0).atan2_quadrant(f(1.0)), 4);
    assert_eq!(f(1.0).atan2_quadrant(f(-1.0)), 2);
    assert_eq!(f(-1.0).atan2_quadrant(f(-1.0)), 2);
}

#[test]
fn atan2_combine_signs() {
    let ratio = f(0.5);
    assert_eq!(g(f(1.0).atan2_combine(f(1.0), ratio)), 0.5);
    assert_eq!(g(f(-1.0).atan2_combine(f(1.0), ratio)), -0.5);
    assert_eq!(g(f(1.0).atan2_combine(f(-1.0), ratio)), -0.5);
    assert_eq!(g(f(-1.0).atan2_combine(f(-1.0), ratio)), 0.5);
}

#[test]
fn masking_counts_small_powers_of_two_as_whole() {
    // the mantissa-masking method inspects only the mantissa below one,
    // so a power of two below one passes the test
    assert!(f(0.5).is_integer());
    assert!(f(0.25).is_integer());
    assert!(!f(0.75).is_integer());
}

#[test]
fn rounding_edges() {
    let just_below_half = 0.49999997_f32;
    assert_eq!(g(f(just_below_half).round()), 0.0);
    let largest_fractional = 8388607.5_f32;
    assert_eq!(g(f(largest_fractional).round()), 8388608.0);
    assert_eq!(g(f(8388608.0).round()), 8388608.0);
    assert_eq!(g(f(-8388607.5).round()), -8388608.0);
}

#[test]
fn subnormal_magnitudes() {
    let tiny = 1.0e-40_f32;
    assert_eq!(g(f(tiny).trunc()), 0.0);
    assert_eq!(g(f(tiny).fract()), tiny);
    assert_eq!(g(f(-tiny).floor()), -1.0);
    assert_eq!(g(f(tiny).ceil()), 1.0);
    assert_eq!(g(f(tiny).round()), 0.0);
}

#[test]
fn predicates_on_special_patterns() {
    assert!(f(f32::NAN).is_nan());
    assert!(!f(1.0).is_nan());
    assert!(f(f32::INFINITY).is_infinite());
    assert!(f(f32::NEG_INFINITY).is_infinite());
    assert!(!f(1.0).is_infinite());
    assert!(f(1.0).is_finite());
    assert!(!f(f32::NAN).is_finite());
    assert!(f(1.0).is_sign_positive());
    assert!(f(-1.0).is_sign_negative());
}
