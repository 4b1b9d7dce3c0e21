use sa2_piece_gen::vector::{snaps_to_zero, GcFp, Vector};

fn test_fn_bits_eq(func: fn(u64) -> u64, input: u64, output: u64) {
    assert_eq!(func(input), output);
}

#[test]
fn test_frsqrte() {
    test_fn_bits_eq(GcFp::frsqrte, 0x3ea8792d45540000, 0x40924c1090000000);
    test_fn_bits_eq(GcFp::frsqrte, 0x3f00293b64599c80, 0x406683d560000000);
    test_fn_bits_eq(GcFp::frsqrte, 0x0000000000000000, 0x7ff0000000000000);
    test_fn_bits_eq(GcFp::frsqrte, 0x3ef4d01b63e44000, 0x406c0ed800000000);
    test_fn_bits_eq(GcFp::frsqrte, 0x3e6b34191b000000, 0x40b15a8c80000000);
}

#[test]
fn test_fres() {
    test_fn_bits_eq(GcFp::fres, 0x40b15a8c80000000, 0x3f2d8186c0000000);
    test_fn_bits_eq(GcFp::fres, 0x7ff0000000000000, 0x0000000000000000);
    test_fn_bits_eq(GcFp::fres, 0x408103dcfc000000, 0x3f5e16cc20000000);
    test_fn_bits_eq(GcFp::fres, 0x4059e10cb8000000, 0x3f83c8ea80000000);
    test_fn_bits_eq(GcFp::fres, 0x4054ca52ec000000, 0x3f88a0eee0000000);
}

#[test]
fn frsqrte_special_inputs() {
    // negative zero gives negative infinity
    assert_eq!(GcFp::frsqrte(0x8000_0000_0000_0000), 0xFFF0_0000_0000_0000);
    // positive infinity gives positive zero
    assert_eq!(GcFp::frsqrte(f64::INFINITY.to_bits()), 0);
    // negative infinity and negative numbers give NaN
    assert!(f64::from_bits(GcFp::frsqrte(f64::NEG_INFINITY.to_bits())).is_nan());
    assert!(f64::from_bits(GcFp::frsqrte((-4.0f64).to_bits())).is_nan());
    // a NaN comes back as a quiet NaN with its payload
    assert_eq!(GcFp::frsqrte(0x7FF0_0000_0000_0001), 0x7FF8_0000_0000_0001);
}

#[test]
fn frsqrte_estimates_reciprocal_square_root() {
    for v in [0.25f64, 1.0, 2.0, 4.0, 10.0, 12345.678] {
        let est = f64::from_bits(GcFp::frsqrte(v.to_bits()));
        let exact = 1.0 / v.sqrt();
        assert!((est - exact).abs() / exact < 1.0e-3, "{} {} {}", v, est, exact);
    }
}

#[test]
fn fres_special_inputs() {
    assert_eq!(GcFp::fres(0), 0x7FF0_0000_0000_0000);
    assert_eq!(GcFp::fres(0x8000_0000_0000_0000), 0xFFF0_0000_0000_0000);
    // tiny inputs give the largest finite value, whatever their sign
    assert_eq!(GcFp::fres((1.0e-300f64).to_bits()), f64::MAX.to_bits());
    assert_eq!(GcFp::fres((-1.0e-300f64).to_bits()), f64::MAX.to_bits());
    // huge inputs give positive zero
    assert_eq!(GcFp::fres((1.0e300f64).to_bits()), 0);
}

#[test]
fn fres_estimates_reciprocal_and_keeps_sign() {
    for v in [0.5f64, 1.0, 3.0, -3.0, 100.0, -0.125] {
        let est = f64::from_bits(GcFp::fres(v.to_bits()));
        let exact = 1.0 / v;
        assert!((est - exact).abs() / exact.abs() < 1.0e-3, "{} {} {}", v, est, exact);
    }
}

#[test]
fn console_square_root_of_four() {
    let four = 4.0f32;
    let root = f64::from_bits(GcFp::fres(GcFp::frsqrte((four as f64).to_bits()))) as f32;
    assert!((root - 2.0).abs() < 0.01);
}

#[test]
fn vector_new_and_default() {
    let v = Vector::new(1.0f32.to_bits(), 2.0f32.to_bits(), 3.0f32.to_bits());
    assert_eq!(f32::from_bits(v.y), 2.0);
    let d = Vector::default();
    assert_eq!((d.x, d.y, d.z), (0, 0, 0));
}

#[test]
fn snap_threshold_is_point_zero_two_five() {
    assert!(snaps_to_zero(0.0f32.to_bits()));
    assert!(snaps_to_zero(0.0249f32.to_bits()));
    assert!(!snaps_to_zero(0.025f32.to_bits()));
    assert!(!snaps_to_zero(1.0f32.to_bits()));
    assert!(!snaps_to_zero(f32::NAN.to_bits()));
    assert!(snaps_to_zero((-1.0f32).to_bits()));
}

#[test]
fn fres_subnormal_inputs_give_signed_infinity() {
    assert_eq!(GcFp::fres(0x0000_0000_0000_0001), 0x7FF0_0000_0000_0000);
    assert_eq!(GcFp::fres(0x000F_FFFF_FFFF_FFFF), 0x7FF0_0000_0000_0000);
    assert_eq!(GcFp::fres(0x8000_0000_0000_0001), 0xFFF0_0000_0000_0000);
    assert_eq!(GcFp::fres((-1.0e-310f64).to_bits()), f64::NEG_INFINITY.to_bits());
    // the smallest normal value still gives the largest finite value
    assert_eq!(GcFp::fres(0x0010_0000_0000_0000), f64::MAX.to_bits());
}
