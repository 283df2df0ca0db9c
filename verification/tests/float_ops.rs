use micromath::F32;

fn f(x: f32) -> F32 {
    F32::from_bits(x.to_bits())
}

fn g(v: F32) -> f32 {
    f32::from_bits(v.to_bits())
}

#[test]
fn abs_sanity_check() {
    assert_eq!(g(f(1.0).abs()), 1.0);
    assert_eq!(g(f(0.0).abs()), 0.0);
    assert_eq!(g(f(-1.0).abs()), 1.0);
}

#[test]
fn copysign_sanity_check() {
    assert_eq!(g(f(1.0).copysign(f(-1.0))), -1.0);
    assert_eq!(g(f(-1.0).copysign(f(1.0))), 1.0);
    assert_eq!(g(f(1.0).copysign(f(1.0))), 1.0);
    assert_eq!(g(f(-1.0).copysign(f(-1.0))), -1.0);
    let large_float: f32 = 100_000_000.13425345345;
    assert_eq!(g(f(large_float).copysign(f(-large_float))), -large_float);
    assert_eq!(g(f(-large_float).copysign(f(large_float))), large_float);
    assert_eq!(g(f(large_float).copysign(f(large_float))), large_float);
    assert_eq!(g(f(-large_float).copysign(f(-large_float))), -large_float);
}

#[test]
fn trunc_sanity_check() {
    assert_eq!(g(f(-1.1).trunc()), -1.0);
    assert_eq!(g(f(-0.1).trunc()), -0.0);
    assert_eq!(g(f(0.0).trunc()), 0.0);
    assert_eq!(g(f(1.0).trunc()), 1.0);
    assert_eq!(g(f(1.1).trunc()), 1.0);
    assert_eq!(g(f(2.9).trunc()), 2.0);

    assert_eq!(g(f(-100_000_000.13425345345).trunc()), -100_000_000.0);
    assert_eq!(g(f(100_000_000.13425345345).trunc()), 100_000_000.0);
}

#[test]
fn fract_sanity_check() {
    assert_eq!(g(f(2.9).fract()) + 2.0, 2.9_f32);
    assert_eq!(g(f(-1.1).fract()) - 1.0, -1.1_f32);
    assert_eq!(g(f(-0.1).fract()), -0.1);
    assert_eq!(g(f(0.0).fract()), 0.0);
    assert_eq!(g(f(1.0).fract()) + 1.0, 1.0);
    assert_eq!(g(f(1.1).fract()) + 1.0, 1.1);

    assert_eq!(g(f(-100_000_000.13425345345).fract()), -0.0);
    assert_eq!(g(f(100_000_000.13425345345).fract()), 0.0);
}

#[test]
fn floor_sanity_check() {
    assert_eq!(g(f(-1.1).floor()), -2.0);
    assert_eq!(g(f(-0.1).floor()), -1.0);
    assert_eq!(g(f(0.0).floor()), 0.0);
    assert_eq!(g(f(1.0).floor()), 1.0);
    assert_eq!(g(f(1.1).floor()), 1.0);
    assert_eq!(g(f(2.9).floor()), 2.0);
}

#[test]
fn ceil_sanity_check() {
    assert_eq!(g(f(-1.1).ceil()), -1.0);
    assert_eq!(g(f(-0.1).ceil()), 0.0);
    assert_eq!(g(f(0.0).ceil()), 0.0);
    assert_eq!(g(f(1.0).ceil()), 1.0);
    assert_eq!(g(f(1.1).ceil()), 2.0);
    assert_eq!(g(f(2.9).ceil()), 3.0);
}

#[test]
fn round_sanity_check() {
    assert_eq!(g(f(0.0).round()), 0.0);
    assert_eq!(g(f(-0.0).round()), -0.0);

    assert_eq!(g(f(0.49999).round()), 0.0);
    assert_eq!(g(f(-0.49999).round()), -0.0);

    assert_eq!(g(f(0.5).round()), 1.0);
    assert_eq!(g(f(-0.5).round()), -1.0);

    assert_eq!(g(f(9999.499).round()), 9999.0);
    assert_eq!(g(f(-9999.499).round()), -9999.0);

    assert_eq!(g(f(9999.5).round()), 10000.0);
    assert_eq!(g(f(-9999.5).round()), -10000.0);
}

/// Square root test vectors - `(input, output)`
const SQRT_TEST_VECTORS: &[(f32, f32)] = &[
    (1.0, 1.0),
    (2.0, 1.414),
    (3.0, 1.732),
    (4.0, 2.0),
    (5.0, 2.236),
    (10.0, 3.162),
    (100.0, 10.0),
    (250.0, 15.811),
    (500.0, 22.36),
    (1000.0, 31.622),
    (2500.0, 50.0),
    (5000.0, 70.710),
    (1000000.0, 1000.0),
    (2500000.0, 1581.138),
    (5000000.0, 2236.067),
    (10000000.0, 3162.277),
    (25000000.0, 5000.0),
    (50000000.0, 7071.067),
    (100000000.0, 10000.0),
];

#[test]
fn sqrt_sanity_check() {
    const MAX_ERROR: f32 = 0.05;
    for (x, expected) in SQRT_TEST_VECTORS {
        let sqrt_x = g(f(*x).sqrt());
        let allowed_delta = x * MAX_ERROR;
        let actual_delta = sqrt_x - expected;

        assert!(
            actual_delta <= allowed_delta,
            "delta {} too large: {} vs {}",
            actual_delta,
            sqrt_x,
            expected
        );
    }
}

#[test]
fn invsqrt_sanity_check() {
    const MAX_ERROR: f32 = 0.05;
    for (x, expected) in SQRT_TEST_VECTORS {
        // The test vectors are for sqrt(x), so invert the expected value
        let expected = 1.0 / expected;

        let invsqrt_x = g(f(*x).invsqrt());
        let allowed_delta = x * MAX_ERROR;
        let actual_delta = invsqrt_x - expected;

        assert!(
            actual_delta <= allowed_delta,
            "delta {} too large: {} vs {}",
            actual_delta,
            invsqrt_x,
            expected
        );
    }
}

#[test]
fn inv_sanity_check() {
    const MAX_ERROR: f32 = 0.08;
    for x in 0..100 {
        let x = x as f32;
        let inv_x = g(f(x).inv());
        let expected = 1.0 / x;
        let allowed_delta = x * MAX_ERROR;
        let actual_delta = inv_x - expected;

        assert!(
            actual_delta <= allowed_delta,
            "delta {} too large: {} vs {}",
            actual_delta,
            inv_x,
            expected
        );
    }
}

#[test]
fn special_floats() {
    assert!(f32::NAN.to_bits() > 0x7f00_0000);

    assert_eq!(g(F32::from_bits(0x7f00_0001).inv()), 0.0);
    assert!(g(f(f32::NAN).inv()).is_nan());
    assert_eq!(g(f(f32::INFINITY).inv()), 0.0);
    assert_eq!(g(f(f32::NEG_INFINITY).inv()), -0.0);
    assert!(g(f(f32::INFINITY).inv()).is_sign_positive());
    assert!(g(f(f32::NEG_INFINITY).inv()).is_sign_negative());
}

#[test]
fn signum_sanity_check() {
    assert_eq!(g(f(f32::INFINITY).signum()), 1.0);
    assert_eq!(g(f(0.0).signum()), 1.0);
    assert_eq!(g(f(1.0).signum()), 1.0);
    assert_eq!(g(f(f32::NEG_INFINITY).signum()), -1.0);
    assert_eq!(g(f(-0.0).signum()), -1.0);
    assert_eq!(g(f(-1.0).signum()), -1.0);
    assert!(g(f(f32::NAN).signum()).is_nan());
}

#[test]
fn sign_is_preserved_on_zero_results() {
    assert!(g(f(-0.1).trunc()).is_sign_negative());
    assert!(g(f(-100_000_000.13425345345).fract()).is_sign_negative());
    assert!(g(f(0.1).trunc()).is_sign_positive());
    assert!(g(f(-0.0).round()).is_sign_negative());
}

#[test]
fn inv_is_an_involution_on_its_domain() {
    for x in [0.125_f32, 0.5, 1.0, 2.0, 3.5, 100.0, 1.0e10] {
        assert_eq!(g(f(x).inv().inv()), x);
    }
}

#[test]
fn sqrt_is_exact_on_even_powers_of_two() {
    assert_eq!(g(f(4.0).sqrt()), 2.0);
    assert_eq!(g(f(16.0).sqrt()), 4.0);
    assert_eq!(g(f(0.25).sqrt()), 0.5);
    assert_eq!(g(f(1024.0).sqrt()), 32.0);
}

#[test]
fn trunc_and_fract_recompose_the_value() {
    for x in [2.9_f32, -1.1, 0.0, 7.75, -1234.5678, 100_000_000.134, -0.375] {
        let whole = g(f(x).trunc());
        let fractional = g(f(x).fract());
        assert_eq!(whole + fractional, x);
    }
}
