//! Perlin and fractal equation strings, cross-checked against the
//! floating-point formatting they reproduce.

use alice_view::{AliceFileBuilder, AlicePayload, FractalPayload, PerlinPayload};

fn reference_perlin(p: &PerlinPayload) -> String {
    format!(
        "FBM(seed={}, scale={:.2}, octaves={}, persistence={:.2}, lacunarity={:.2})",
        p.seed,
        f32::from_bits(p.scale_bits),
        p.octaves,
        f32::from_bits(p.persistence_bits),
        f32::from_bits(p.lacunarity_bits)
    )
}

fn reference_fractal(p: &FractalPayload) -> String {
    match p.fractal_type {
        0 => format!(
            "Mandelbrot: z = z² + c, iter={}, center=({:.6}, {:.6})",
            p.max_iterations,
            f64::from_bits(p.center_x_bits),
            f64::from_bits(p.center_y_bits)
        ),
        1 => format!(
            "Julia: z = z² + ({:.4}, {:.4}), iter={}",
            f64::from_bits(p.julia_cx_bits),
            f64::from_bits(p.julia_cy_bits),
            p.max_iterations
        ),
        2 => format!(
            "BurningShip: z = (|Re(z)| + i|Im(z)|)² + c, iter={}",
            p.max_iterations
        ),
        3 => format!("Tricorn: z = conj(z)² + c, iter={}", p.max_iterations),
        _ => "Unknown fractal".to_string(),
    }
}

#[test]
fn julia_equation_contains_constants_to_four_places() {
    let file = AliceFileBuilder::julia(256, (-0.7f64).to_bits(), 0.27f64.to_bits())
        .build()
        .unwrap();
    let eq = file.equation_string();
    assert!(eq.contains("Julia:"));
    assert!(eq.contains("-0.7000"));
    assert!(eq.contains("0.2700"));
    assert_eq!(eq, "Julia: z = z² + (-0.7000, 0.2700), iter=256");
}

#[test]
fn perlin_equation_matches_float_rendering() {
    let samples: [(u64, f32, u32, f32, f32); 5] = [
        (12345, 5.0, 8, 0.5, 2.0),
        (0, 0.0, 0, -0.0, 1.0e-10),
        (u64::MAX, 3.4e38, u32::MAX, 1.25e-7, 123456.78),
        (7, f32::INFINITY, 1, f32::NEG_INFINITY, f32::NAN),
        (9, f32::MIN_POSITIVE, 2, 1.0e-45, -1.0e-45),
    ];
    for (seed, sc, oct, per, lac) in samples {
        let p = PerlinPayload {
            seed,
            scale_bits: sc.to_bits(),
            octaves: oct,
            persistence_bits: per.to_bits(),
            lacunarity_bits: lac.to_bits(),
        };
        assert_eq!(p.equation_string(), reference_perlin(&p), "sample {:?}", (seed, sc, oct));
    }
}

#[test]
fn fractal_equation_matches_float_rendering() {
    let doubles: [f64; 10] = [
        0.0,
        -0.75,
        0.27,
        1.0e300,
        -1.0e300,
        5.0e-324,
        -2.5e-308,
        123456789.123456789,
        f64::MAX,
        f64::MIN_POSITIVE,
    ];
    for ft in 0u8..=4 {
        for (i, &a) in doubles.iter().enumerate() {
            let b = doubles[(i + 3) % doubles.len()];
            let p = FractalPayload {
                fractal_type: ft,
                max_iterations: 1000 + i as u32,
                escape_radius_bits: 2.0f32.to_bits(),
                center_x_bits: a.to_bits(),
                center_y_bits: b.to_bits(),
                julia_cx_bits: b.to_bits(),
                julia_cy_bits: a.to_bits(),
            };
            assert_eq!(
                p.equation_string(),
                reference_fractal(&p),
                "kind {} center {} {}",
                ft,
                a,
                b
            );
        }
    }
}

#[test]
fn fractal_equation_nonfinite_values() {
    let p = FractalPayload {
        fractal_type: 1,
        max_iterations: 5,
        escape_radius_bits: 0,
        center_x_bits: 0,
        center_y_bits: 0,
        julia_cx_bits: f64::NAN.to_bits(),
        julia_cy_bits: f64::NEG_INFINITY.to_bits(),
    };
    assert_eq!(p.equation_string(), reference_fractal(&p));
}

#[test]
fn payload_equation_dispatch() {
    let lin = AlicePayload::Linear(alice_view::LinearPayload {
        slope_q16: 32768,
        intercept_q16: 65536,
        sample_count: 1,
    });
    assert_eq!(lin.equation_string(), "y = 0.500000x + 1.0000");
    let per = AlicePayload::Perlin(PerlinPayload {
        seed: 1,
        scale_bits: 1.5f32.to_bits(),
        octaves: 2,
        persistence_bits: 0.5f32.to_bits(),
        lacunarity_bits: 2.0f32.to_bits(),
    });
    assert_eq!(
        per.equation_string(),
        "FBM(seed=1, scale=1.50, octaves=2, persistence=0.50, lacunarity=2.00)"
    );
}
