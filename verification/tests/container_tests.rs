//! Container round trips and builder behavior.

use alice_view::{
    AliceContentType, AliceError, AliceFile, AliceFileBuilder, AlicePayload, FractalPayload,
    LinearPayload, PerlinPayload,
};

#[test]
fn test_linear_roundtrip() {
    let file = AliceFileBuilder::from_linear(32767, 163824115, 1000)
        .sensor_id("TEMP-001")
        .unit("°C")
        .build()
        .unwrap();

    let bytes = file.to_bytes();
    let parsed = AliceFile::parse(&bytes).unwrap();

    assert_eq!(parsed.header.content_type, AliceContentType::Linear);
    if let AlicePayload::Linear(p) = &parsed.payload {
        assert_eq!(p.slope_q16, 32767);
        assert_eq!(p.intercept_q16, 163824115);
    } else {
        panic!("Wrong payload type");
    }
}

#[test]
fn linear_roundtrip_all_fields() {
    let file = AliceFileBuilder::from_linear(32767, 163824115, 1000)
        .sensor_id("TEMP-001")
        .unit("°C")
        .build()
        .unwrap();
    assert_eq!(file.header.original_size, 4000);
    let bytes = file.to_bytes();
    let parsed = AliceFile::parse(&bytes).unwrap();
    if let AlicePayload::Linear(p) = &parsed.payload {
        assert_eq!(p.sample_count, 1000);
    } else {
        panic!("Wrong payload type");
    }
    assert_eq!(parsed.header.original_size, 4000);
    assert_eq!(parsed.metadata.sensor_id.as_deref(), Some("TEMP-001"));
    assert_eq!(parsed.metadata.unit.as_deref(), Some("°C"));
    assert_eq!(parsed.metadata.timestamp, None);
    assert_eq!(parsed.metadata.location, None);
    assert_eq!(parsed.metadata.description, None);
}

#[test]
fn perlin_roundtrip() {
    let file = AliceFileBuilder::perlin(42, 5.5f32.to_bits(), 6).build().unwrap();
    let parsed = AliceFile::parse(&file.to_bytes()).unwrap();
    assert_eq!(parsed.header.content_type, AliceContentType::Perlin);
    if let AlicePayload::Perlin(p) = &parsed.payload {
        assert_eq!(p.seed, 42);
        assert_eq!(f32::from_bits(p.scale_bits), 5.5);
        assert_eq!(p.octaves, 6);
        assert_eq!(f32::from_bits(p.persistence_bits), 0.5);
        assert_eq!(f32::from_bits(p.lacunarity_bits), 2.0);
    } else {
        panic!("Wrong payload type");
    }
}

#[test]
fn julia_roundtrip() {
    let file = AliceFileBuilder::julia(256, (-0.7f64).to_bits(), 0.27f64.to_bits())
        .build()
        .unwrap();
    let parsed = AliceFile::parse(&file.to_bytes()).unwrap();
    if let AlicePayload::Fractal(p) = &parsed.payload {
        assert_eq!(p.fractal_type, 1);
        assert_eq!(p.max_iterations, 256);
        assert_eq!(f32::from_bits(p.escape_radius_bits), 2.0);
        assert_eq!(f64::from_bits(p.julia_cx_bits), -0.7);
        assert_eq!(f64::from_bits(p.julia_cy_bits), 0.27);
        assert_eq!(p.fractal_name(), "Julia");
    } else {
        panic!("Wrong payload type");
    }
}

#[test]
fn mandelbrot_builder() {
    let file = AliceFileBuilder::mandelbrot(512, (-0.75f64).to_bits(), 0.0f64.to_bits())
        .build()
        .unwrap();
    if let AlicePayload::Fractal(p) = &file.payload {
        assert_eq!(p.fractal_type, 0);
        assert_eq!(p.fractal_name(), "Mandelbrot");
        assert_eq!(f64::from_bits(p.center_x_bits), -0.75);
    } else {
        panic!("Wrong payload type");
    }
    // Unset original size: estimated as one hundred times the container.
    assert_eq!(
        file.header.original_size,
        file.header.compressed_size * 100
    );
}

#[test]
fn build_without_payload_fails() {
    let r = AliceFileBuilder::new(AliceContentType::Perlin).build();
    assert!(matches!(r, Err(AliceError::MissingPayload)));
}

#[test]
fn builder_compressed_size_is_emitted_length() {
    let file = AliceFileBuilder::from_linear(1, 2, 3).sensor_id("X").build().unwrap();
    let bytes = file.to_bytes();
    assert_eq!(file.header.compressed_size, bytes.len() as u64);
}

#[test]
fn reserved_content_type_fails_unsupported() {
    let mut h = alice_view::AliceHeader {
        magic: *b"ALICE",
        version: 1,
        content_type: AliceContentType::Voronoi,
        flags: 0,
        original_size: 0,
        compressed_size: 0,
        metadata_length: 0,
    };
    let mut bytes = h.to_bytes();
    bytes.extend_from_slice(&[0u8; 16]);
    assert!(matches!(
        AliceFile::parse(&bytes),
        Err(AliceError::UnsupportedContentType)
    ));
    h.content_type = AliceContentType::Fourier;
    let mut bytes2 = h.to_bytes();
    bytes2.extend_from_slice(&[0u8; 16]);
    assert!(matches!(
        AliceFile::parse(&bytes2),
        Err(AliceError::UnsupportedContentType)
    ));
}

#[test]
fn linear_payload_legacy_eight_bytes() {
    let mut data = Vec::new();
    data.extend_from_slice(&(99i32).to_le_bytes());
    data.extend_from_slice(&(-7i32).to_le_bytes());
    let p = LinearPayload::parse(&data).unwrap();
    assert_eq!(p.slope_q16, 99);
    assert_eq!(p.intercept_q16, -7);
    assert_eq!(p.sample_count, 0);
    assert_eq!(
        LinearPayload::parse(&data[..7]),
        Err(AliceError::PayloadTooShort)
    );
}

#[test]
fn linear_payload_bytes_match_reference_layout() {
    let p = LinearPayload { slope_q16: -32768, intercept_q16: 65536, sample_count: 9 };
    let bytes = p.to_bytes();
    let mut expected = Vec::new();
    expected.extend_from_slice(&(-32768i32).to_le_bytes());
    expected.extend_from_slice(&(65536i32).to_le_bytes());
    expected.extend_from_slice(&(9u32).to_le_bytes());
    assert_eq!(bytes, expected);
}

#[test]
fn perlin_payload_too_short() {
    assert_eq!(
        PerlinPayload::parse(&[0u8; 23]),
        Err(AliceError::PayloadTooShort)
    );
}

#[test]
fn fractal_payload_size_is_field_sum() {
    let p = FractalPayload {
        fractal_type: 3,
        max_iterations: 1000,
        escape_radius_bits: 4.0f32.to_bits(),
        center_x_bits: 0.125f64.to_bits(),
        center_y_bits: (-2.5f64).to_bits(),
        julia_cx_bits: 0,
        julia_cy_bits: 0,
    };
    let bytes = p.to_bytes();
    assert_eq!(bytes.len(), 41);
    let q = FractalPayload::parse(&bytes).unwrap();
    assert_eq!(q, p);
    assert_eq!(
        FractalPayload::parse(&bytes[..40]),
        Err(AliceError::PayloadTooShort)
    );
}

#[test]
fn fractal_names() {
    let mut p = FractalPayload {
        fractal_type: 0,
        max_iterations: 1,
        escape_radius_bits: 0,
        center_x_bits: 0,
        center_y_bits: 0,
        julia_cx_bits: 0,
        julia_cy_bits: 0,
    };
    assert_eq!(p.fractal_name(), "Mandelbrot");
    p.fractal_type = 2;
    assert_eq!(p.fractal_name(), "Burning Ship");
    p.fractal_type = 3;
    assert_eq!(p.fractal_name(), "Tricorn");
    p.fractal_type = 200;
    assert_eq!(p.fractal_name(), "Unknown");
}

#[test]
fn container_with_invalid_metadata_encoding_fails() {
    let h = alice_view::AliceHeader {
        magic: *b"ALICE",
        version: 1,
        content_type: AliceContentType::Linear,
        flags: 0,
        original_size: 0,
        compressed_size: 0,
        metadata_length: 2,
    };
    let mut bytes = h.to_bytes();
    bytes.extend_from_slice(&[0u8; 12]);
    bytes.extend_from_slice(&[0xFF, 0xFE]);
    assert!(matches!(
        AliceFile::parse(&bytes),
        Err(AliceError::InvalidEncoding)
    ));
}

#[test]
fn container_metadata_length_bound_is_checked() {
    // A header that claims more metadata than the buffer holds must fail,
    // not panic.
    let h = alice_view::AliceHeader {
        magic: *b"ALICE",
        version: 1,
        content_type: AliceContentType::Linear,
        flags: 0,
        original_size: 0,
        compressed_size: 0,
        metadata_length: 1000,
    };
    let mut bytes = h.to_bytes();
    bytes.extend_from_slice(&[0u8; 12]);
    assert!(matches!(
        AliceFile::parse(&bytes),
        Err(AliceError::PayloadTooShort)
    ));
}
