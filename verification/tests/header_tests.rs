//! Header codec behavior: round trips, defensive failures, ratios.

use alice_view::{AliceContentType, AliceError, AliceHeader};

fn sample_header(ct: AliceContentType) -> AliceHeader {
    AliceHeader {
        magic: *b"ALICE",
        version: 1,
        content_type: ct,
        flags: 7,
        original_size: 123456789012345,
        compressed_size: 987654321,
        metadata_length: 4242,
    }
}

#[test]
fn header_roundtrip_all_content_types() {
    let types = [
        AliceContentType::Linear,
        AliceContentType::Polynomial,
        AliceContentType::Perlin,
        AliceContentType::Fractal,
        AliceContentType::Fourier,
        AliceContentType::Voronoi,
        AliceContentType::SineWave,
    ];
    for ct in types {
        let h = sample_header(ct);
        let bytes = h.to_bytes();
        assert_eq!(bytes.len(), 32);
        let parsed = AliceHeader::parse(&bytes).unwrap();
        assert_eq!(parsed.magic, h.magic);
        assert_eq!(parsed.version, h.version);
        assert_eq!(parsed.content_type, h.content_type);
        assert_eq!(parsed.flags, h.flags);
        assert_eq!(parsed.original_size, h.original_size);
        assert_eq!(parsed.compressed_size, h.compressed_size);
        assert_eq!(parsed.metadata_length, h.metadata_length);
    }
}

#[test]
fn header_roundtrip_extreme_sizes() {
    let mut h = sample_header(AliceContentType::Perlin);
    h.original_size = u64::MAX;
    h.compressed_size = 0;
    h.metadata_length = u32::MAX;
    let parsed = AliceHeader::parse(&h.to_bytes()).unwrap();
    assert_eq!(parsed.original_size, u64::MAX);
    assert_eq!(parsed.compressed_size, 0);
    assert_eq!(parsed.metadata_length, u32::MAX);
}

#[test]
fn short_header_fails_with_too_short() {
    for len in [0usize, 1, 5, 16, 31] {
        let data = vec![0u8; len];
        assert_eq!(AliceHeader::parse(&data), Err(AliceError::TooShort));
    }
    // Even with a valid magic prefix, fewer than 32 bytes is too short.
    let mut data = b"ALICE".to_vec();
    data.resize(31, 0);
    assert_eq!(AliceHeader::parse(&data), Err(AliceError::TooShort));
}

#[test]
fn bad_magic_fails() {
    let mut bytes = sample_header(AliceContentType::Linear).to_bytes();
    bytes[0] = b'B';
    assert_eq!(AliceHeader::parse(&bytes), Err(AliceError::BadMagic));
}

#[test]
fn content_type_99_fails_with_unknown() {
    let mut bytes = sample_header(AliceContentType::Linear).to_bytes();
    bytes[6] = 99;
    assert_eq!(AliceHeader::parse(&bytes), Err(AliceError::UnknownContentType));
    assert_eq!(AliceContentType::from_u8(99), Err(AliceError::UnknownContentType));
    assert_eq!(AliceContentType::from_u8(7), Err(AliceError::UnknownContentType));
}

#[test]
fn compression_ratio_zero_compressed_is_one() {
    let mut h = sample_header(AliceContentType::Linear);
    h.original_size = 400;
    h.compressed_size = 0;
    let (num, den) = h.compression_ratio_parts();
    assert_eq!((num, den), (1, 1));
    assert!(den > 0);
    let ratio = num as f64 / den as f64;
    assert_eq!(ratio, 1.0);
}

#[test]
fn compression_ratio_ordinary() {
    let mut h = sample_header(AliceContentType::Linear);
    h.original_size = 4000;
    h.compressed_size = 50;
    let (num, den) = h.compression_ratio_parts();
    assert_eq!(num as f64 / den as f64, 80.0);
}

#[test]
fn content_type_names() {
    assert_eq!(AliceContentType::Linear.name(), "Linear");
    assert_eq!(AliceContentType::Perlin.name(), "Perlin Noise");
    assert_eq!(AliceContentType::Fractal.name(), "Fractal");
    assert_eq!(AliceContentType::Fourier.name(), "Fourier Series");
    assert_eq!(AliceContentType::Voronoi.name(), "Voronoi");
    assert_eq!(AliceContentType::SineWave.name(), "Sine Wave");
    assert_eq!(AliceContentType::Polynomial.name(), "Polynomial");
}

#[test]
fn has_metadata_flag() {
    let mut h = sample_header(AliceContentType::Linear);
    h.metadata_length = 0;
    assert!(!h.has_metadata());
    h.metadata_length = 1;
    assert!(h.has_metadata());
}
