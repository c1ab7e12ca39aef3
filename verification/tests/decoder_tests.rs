//! Decode orchestration: routing, normalization, fallback, and the
//! atomic-commit guarantee on failure.

use alice_view::{
    AliceFileBuilder, AliceError, ContentType, Decoder, FractalType, LoadRoute, ProceduralContent,
    classify_path, is_asdf_file,
};

#[test]
fn classify_routes() {
    assert_eq!(classify_path("model.asdf"), LoadRoute::Scene);
    assert_eq!(classify_path("model.asdf.json"), LoadRoute::Scene);
    assert_eq!(classify_path("scene.json"), LoadRoute::Scene);
    assert_eq!(classify_path("a/b/file.alice"), LoadRoute::Container);
    assert_eq!(classify_path("a/b/file.ALZ"), LoadRoute::Container);
    assert_eq!(classify_path("stream.asp"), LoadRoute::Stream);
    assert_eq!(classify_path("photo.png"), LoadRoute::Image);
    assert_eq!(classify_path("photo.JPeG"), LoadRoute::Image);
    assert_eq!(classify_path("clip.mp4"), LoadRoute::Video);
    assert_eq!(classify_path("clip.webm"), LoadRoute::Video);
    assert_eq!(classify_path("noextension"), LoadRoute::Unknown);
    assert_eq!(classify_path("dir.d/noextension"), LoadRoute::Unknown);
    assert_eq!(classify_path("archive.tar"), LoadRoute::Unknown);
}

#[test]
fn test_is_asdf_file() {
    assert!(is_asdf_file("model.asdf"));
    assert!(is_asdf_file("model.asdf.json"));
    assert!(!is_asdf_file("model.obj"));
    assert!(!is_asdf_file("model.alice"));
}

#[test]
fn new_decoder_is_empty() {
    let d = Decoder::new();
    assert_eq!(d.content_type(), ContentType::Empty);
    assert!(d.content().is_none());
    assert!(d.file_path().is_none());
    assert!(d.alice_file().is_none());
    assert!(d.sdf_content().is_none());
    assert!(!d.is_procedural());
    assert_eq!(d.compression_ratio_parts(), (1, 1));
}

#[test]
fn linear_container_normalizes_to_synthetic_perlin() {
    let file = AliceFileBuilder::from_linear(32767, 163824115, 1000)
        .sensor_id("TEMP-001")
        .build()
        .unwrap();
    let bytes = file.to_bytes();
    let mut d = Decoder::new();
    d.load_bytes("sensor.alice", &bytes).unwrap();
    assert_eq!(d.content_type(), ContentType::AliceZip);
    assert!(d.is_procedural());
    assert_eq!(d.file_path(), Some("sensor.alice"));
    match d.content().unwrap() {
        ProceduralContent::Perlin { seed, scale_bits, octaves, persistence_bits, lacunarity_bits } => {
            assert_eq!(*seed, 32767u64);
            let expected_scale = (32767i32 as f32 / 65536.0).abs() * 10.0 + 1.0;
            assert_eq!(f32::from_bits(*scale_bits), expected_scale);
            assert_eq!(*octaves, 6);
            assert_eq!(f32::from_bits(*persistence_bits), 0.5);
            assert_eq!(f32::from_bits(*lacunarity_bits), 2.0);
        },
        other => panic!("unexpected content {:?}", other),
    }
    let f = d.alice_file().unwrap();
    assert_eq!(f.metadata.sensor_id.as_deref(), Some("TEMP-001"));
}

#[test]
fn negative_slope_seed_sign_extends() {
    let file = AliceFileBuilder::from_linear(-2, 7, 1).build().unwrap();
    let mut d = Decoder::new();
    d.load_bytes("s.alz", &file.to_bytes()).unwrap();
    match d.content().unwrap() {
        ProceduralContent::Perlin { seed, scale_bits, .. } => {
            assert_eq!(*seed, (-2i32) as u64);
            let expected_scale = ((-2i32) as f32 / 65536.0).abs() * 10.0 + 1.0;
            assert_eq!(f32::from_bits(*scale_bits), expected_scale);
        },
        other => panic!("unexpected content {:?}", other),
    }
}

#[test]
fn synthetic_scale_matches_float_chain_widely() {
    for s in [1i32, -1, 6, 7, 32767, -32767, 65536, 16777216, 16777217, i32::MAX, i32::MIN, -99999999] {
        let file = AliceFileBuilder::from_linear(s, 1, 1).build().unwrap();
        let mut d = Decoder::new();
        d.load_bytes("s.alice", &file.to_bytes()).unwrap();
        match d.content().unwrap() {
            ProceduralContent::Perlin { scale_bits, .. } => {
                let expected = (s as f32 / 65536.0).abs() * 10.0 + 1.0;
                assert_eq!(
                    f32::from_bits(*scale_bits),
                    expected,
                    "slope {} bits {:08x} vs {:08x}",
                    s,
                    scale_bits,
                    expected.to_bits()
                );
            },
            other => panic!("unexpected content {:?}", other),
        }
    }
}

#[test]
fn fractal_container_maps_field_for_field() {
    let file = AliceFileBuilder::julia(777, (-0.7f64).to_bits(), 0.27f64.to_bits())
        .build()
        .unwrap();
    let mut d = Decoder::new();
    d.load_bytes("j.alice", &file.to_bytes()).unwrap();
    match d.content().unwrap() {
        ProceduralContent::Fractal {
            fractal_type,
            max_iterations,
            escape_radius_bits,
            julia_bits,
            ..
        } => {
            assert_eq!(*fractal_type, FractalType::Julia);
            assert_eq!(*max_iterations, 777);
            assert_eq!(f32::from_bits(*escape_radius_bits), 2.0);
            let (cx, cy) = julia_bits.unwrap();
            assert_eq!(f64::from_bits(cx), -0.7);
            assert_eq!(f64::from_bits(cy), 0.27);
        },
        other => panic!("unexpected content {:?}", other),
    }
}

#[test]
fn magicless_container_falls_back_to_mandelbrot() {
    let data = b"this is not a container at all".to_vec();
    let mut d = Decoder::new();
    d.load_bytes("legacy.alz", &data).unwrap();
    assert_eq!(d.content_type(), ContentType::AliceZip);
    assert!(d.alice_file().is_none());
    let (orig, comp) = d.compression_ratio_parts();
    assert_eq!(comp, data.len() as u64);
    assert_eq!(orig, data.len() as u64 * 500);
    match d.content().unwrap() {
        ProceduralContent::Fractal { fractal_type, max_iterations, escape_radius_bits, center_x_bits, center_y_bits, julia_bits } => {
            assert_eq!(*fractal_type, FractalType::Mandelbrot);
            assert_eq!(*max_iterations, 256);
            assert_eq!(f32::from_bits(*escape_radius_bits), 2.0);
            assert_eq!(f64::from_bits(*center_x_bits), -0.75);
            assert_eq!(f64::from_bits(*center_y_bits), 0.0);
            assert!(julia_bits.is_none());
        },
        other => panic!("unexpected content {:?}", other),
    }
}

#[test]
fn stream_route_commits_placeholder() {
    let data = vec![9u8; 64];
    let mut d = Decoder::new();
    d.load_bytes("feed.asp", &data).unwrap();
    assert_eq!(d.content_type(), ContentType::AspStream);
    let (orig, comp) = d.compression_ratio_parts();
    assert_eq!((orig, comp), (64000, 64));
    match d.content().unwrap() {
        ProceduralContent::Perlin { seed, scale_bits, octaves, .. } => {
            assert_eq!(*seed, 12345);
            assert_eq!(f32::from_bits(*scale_bits), 5.0);
            assert_eq!(*octaves, 8);
        },
        other => panic!("unexpected content {:?}", other),
    }
}

#[test]
fn failed_load_leaves_state_unchanged() {
    // Load something real first.
    let file = AliceFileBuilder::from_linear(32767, 163824115, 1000).build().unwrap();
    let good = file.to_bytes();
    let mut d = Decoder::new();
    d.load_bytes("good.alice", &good).unwrap();
    let ct_before = d.content_type();
    let path_before = d.file_path().map(|s| s.to_string());
    let procedural_before = d.is_procedural();
    let parts_before = d.compression_ratio_parts();

    // A container whose content-type byte is unknown fails...
    let mut bad = good.clone();
    bad[6] = 99;
    assert_eq!(d.load_bytes("bad.alice", &bad), Err(AliceError::UnknownContentType));
    // ... a truncated container fails ...
    assert_eq!(d.load_bytes("tiny.alice", b"ALICE"), Err(AliceError::TooShort));
    // ... videos and unknown formats fail ...
    assert_eq!(d.load_bytes("movie.mp4", &good), Err(AliceError::UnsupportedFormat));
    assert_eq!(d.load_bytes("data.bin", &good), Err(AliceError::UnsupportedFormat));

    // ... and none of it touched the committed state.
    assert_eq!(d.content_type(), ct_before);
    assert_eq!(d.file_path().map(|s| s.to_string()), path_before);
    assert_eq!(d.is_procedural(), procedural_before);
    assert_eq!(d.compression_ratio_parts(), parts_before);
    assert!(d.content().is_some());
}

#[test]
fn image_bytes_decode_to_raster() {
    let pixels: Vec<u8> = vec![10, 20, 30, 255, 40, 50, 60, 255];
    let img = image::RgbaImage::from_raw(2, 1, pixels.clone()).unwrap();
    let mut buf = std::io::Cursor::new(Vec::new());
    img.write_to(&mut buf, image::ImageFormat::Png).unwrap();
    let png = buf.into_inner();

    let mut d = Decoder::new();
    d.load_bytes("tiny.png", &png).unwrap();
    assert_eq!(d.content_type(), ContentType::Image);
    assert!(!d.is_procedural());
    match d.content().unwrap() {
        ProceduralContent::Raster { width, height, data } => {
            assert_eq!((*width, *height), (2, 1));
            assert_eq!(*data, pixels);
        },
        other => panic!("unexpected content {:?}", other),
    }
    let (orig, comp) = d.compression_ratio_parts();
    assert_eq!(orig, 8);
    assert_eq!(comp, png.len() as u64);
}

#[test]
fn broken_image_bytes_fail_without_commit() {
    let mut d = Decoder::new();
    assert_eq!(
        d.load_bytes("broken.png", b"certainly not a png"),
        Err(AliceError::IoFailure)
    );
    assert_eq!(d.content_type(), ContentType::Empty);
    assert!(d.file_path().is_none());
}

#[test]
fn scene_info_commit() {
    let mut d = Decoder::new();
    d.load_scene_info("model.asdf", 42, "0.1.0".to_string(), 512);
    assert_eq!(d.content_type(), ContentType::AliceSdf);
    assert!(d.content().is_none());
    let info = d.sdf_content().unwrap();
    assert_eq!(info.node_count, 42);
    assert_eq!(info.version, "0.1.0");
    assert_eq!(d.compression_ratio_parts(), (51200, 512));
}
