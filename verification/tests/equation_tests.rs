//! Equation strings and numeric rendering, cross-checked against the
//! floating-point formatting they stand for.

use alice_view::{format_bytes, LinearPayload};

/// The floating-point rendering the integer formatter must match.
fn reference_equation(slope_q16: i32, intercept_q16: i32) -> String {
    let slope = slope_q16 as f32 / 65536.0;
    let intercept = intercept_q16 as f32 / 65536.0;
    if slope.abs() < 0.0001 {
        format!("y = {:.4}", intercept)
    } else if intercept.abs() < 0.0001 {
        format!("y = {:.6}x", slope)
    } else if intercept >= 0.0 {
        format!("y = {:.6}x + {:.4}", slope, intercept)
    } else {
        format!("y = {:.6}x - {:.4}", slope, intercept.abs())
    }
}

fn eq_of(slope_q16: i32, intercept_q16: i32) -> String {
    LinearPayload { slope_q16, intercept_q16, sample_count: 0 }.equation_string()
}

#[test]
fn test_equation_string() {
    let payload = LinearPayload {
        slope_q16: 32767,
        intercept_q16: 163840000,
        sample_count: 1000,
    };
    let eq = payload.equation_string();
    assert!(eq.contains("y ="));
    assert!(eq.contains("x"));
}

#[test]
fn equation_matches_float_rendering() {
    let cases: [(i32, i32); 16] = [
        (32767, 163840000),
        (32767, 163824115),
        (0, 0),
        (6, 123456),
        (7, 123456),
        (-6, -123456),
        (-7, 0),
        (65536, 5),
        (-65536, -5),
        (1000000, -2000000),
        (i32::MAX, i32::MAX),
        (i32::MIN, i32::MIN),
        (123456789, -7),
        (-98765432, 98765432),
        (16777216, 16777217),
        (33554431, -33554433),
    ];
    for (s, i) in cases {
        assert_eq!(eq_of(s, i), reference_equation(s, i), "slope {} intercept {}", s, i);
    }
}

#[test]
fn equation_constant_form() {
    assert_eq!(eq_of(0, 655360), "y = 10.0000");
    assert_eq!(eq_of(3, -655360), "y = -10.0000");
}

#[test]
fn equation_pure_slope_form() {
    assert_eq!(eq_of(98304, 0), "y = 1.500000x");
    assert_eq!(eq_of(-98304, 6), "y = -1.500000x");
}

#[test]
fn equation_plus_and_minus_forms() {
    assert_eq!(eq_of(32768, 65536), "y = 0.500000x + 1.0000");
    assert_eq!(eq_of(32768, -65536), "y = 0.500000x - 1.0000");
}

#[test]
fn evaluate_at_zero_returns_intercept() {
    let p = LinearPayload { slope_q16: 12345, intercept_q16: 163824115, sample_count: 0 };
    let raw = p.evaluate_q16(0);
    assert_eq!(raw, 163824115);
    let value = raw as f32 / 65536.0;
    let expected = 163824115i32 as f32 / 65536.0;
    assert!((value - expected).abs() <= f32::EPSILON * expected.abs());
}

#[test]
fn evaluate_matches_wrapping_reference() {
    let cases: [(i32, i32, i32); 6] = [
        (32767, 163824115, 1000),
        (i32::MAX, i32::MAX, i32::MAX),
        (i32::MIN, -1, 2),
        (-50000, 70000, -123456),
        (1, 0, i32::MIN),
        (65536, 65536, 65536),
    ];
    for (s, ic, x) in cases {
        let p = LinearPayload { slope_q16: s, intercept_q16: ic, sample_count: 0 };
        let mx = (s as i64).wrapping_mul(x as i64);
        let expected = (mx as i32).wrapping_add(ic);
        assert_eq!(p.evaluate_q16(x), expected, "slope {} intercept {} x {}", s, ic, x);
    }
}

/// The floating-point rendering the byte formatter must match.
fn reference_format_bytes(bytes: u64) -> String {
    if bytes < 1024 {
        format!("{} B", bytes)
    } else if bytes < 1024 * 1024 {
        format!("{:.1} KB", bytes as f64 / 1024.0)
    } else if bytes < 1024 * 1024 * 1024 {
        format!("{:.1} MB", bytes as f64 / (1024.0 * 1024.0))
    } else {
        format!("{:.2} GB", bytes as f64 / (1024.0 * 1024.0 * 1024.0))
    }
}

#[test]
fn format_bytes_matches_float_rendering() {
    let cases: [u64; 12] = [
        0,
        1,
        1023,
        1024,
        1536,
        10_240,
        1_048_575,
        1_048_576,
        123_456_789,
        1_073_741_824,
        987_654_321_000,
        u64::MAX,
    ];
    for b in cases {
        assert_eq!(format_bytes(b), reference_format_bytes(b), "bytes {}", b);
    }
}

#[test]
fn format_bytes_exact_values() {
    assert_eq!(format_bytes(512), "512 B");
    assert_eq!(format_bytes(1536), "1.5 KB");
    assert_eq!(format_bytes(2 * 1024 * 1024), "2.0 MB");
    assert_eq!(format_bytes(3 * 1024 * 1024 * 1024), "3.00 GB");
}
