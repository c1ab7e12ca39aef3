//! Decode orchestration: route containers, streams and images into one
//! content-agnostic rendering model, and commit decoder state atomically.
//!
//! Every load either commits the whole new state — classification,
//! content model, file path and size statistics, in one assignment — or
//! returns an error and leaves the decoder exactly as it was.

use vstd::prelude::*;
use vstd::string::*;
use vstd::utf8::valid_utf8;

use crate::container::{spec_meta_region, spec_parse_container, AliceFile};
use crate::metadata::spec_meta_matches;
use crate::errors::AliceError;
use crate::header::{spec_magic, HeaderModel};
use crate::numfmt::{f32_bits_q16, round_sig, spec_f32_bits_q16, spec_round_sig};
use crate::paths::{classify_path, spec_route, LoadRoute};
use crate::payload::{abs_i32, abs_u64, f32_sig, AlicePayload};

verus! {

/// Classification of what the decoder currently holds.
#[derive(Debug, Clone, Copy, PartialEq, Eq, Structural)]
pub enum ContentType {
    /// Nothing loaded yet.
    Empty,
    /// Procedural container content.
    AliceZip,
    /// Streaming-protocol content.
    AspStream,
    /// 3-D signed-distance-field content.
    AliceSdf,
    /// Standard raster image.
    Image,
    /// Standard video (not decodable).
    Video,
}

/// Fractal kinds of the rendering model.
#[derive(Debug, Clone, Copy, PartialEq, Eq, Structural)]
pub enum FractalType {
    Mandelbrot,
    Julia,
    BurningShip,
    Tricorn,
}

/// Which fractal kind a payload byte denotes; unknown bytes render as
/// Mandelbrot.
pub open spec fn spec_fractal_type(b: u8) -> FractalType {
    if b == 1 {
        FractalType::Julia
    } else if b == 2 {
        FractalType::BurningShip
    } else if b == 3 {
        FractalType::Tricorn
    } else {
        FractalType::Mandelbrot
    }
}

/// The content-agnostic rendering model every source format is
/// normalized into. Floating-point parameters are IEEE-754 bit patterns.
#[derive(Debug, Clone)]
pub enum ProceduralContent {
    /// Perlin noise parameters.
    Perlin { seed: u64, scale_bits: u32, octaves: u32, persistence_bits: u32, lacunarity_bits: u32 },
    /// Polynomial coefficients (double-precision bits).
    Polynomial { coefficient_bits: Vec<u64> },
    /// Sine wave parameters (single-precision bits).
    SineWave { frequency_bits: u32, amplitude_bits: u32, phase_bits: u32 },
    /// Fourier series: (frequency, amplitude bits, phase bits).
    Fourier { coefficients: Vec<(u32, u32, u32)> },
    /// Fractal parameters; the Julia constant is present exactly for the
    /// Julia kind.
    Fractal {
        fractal_type: FractalType,
        max_iterations: u32,
        escape_radius_bits: u32,
        center_x_bits: u64,
        center_y_bits: u64,
        julia_bits: Option<(u64, u64)>,
    },
    /// Raster image data, RGBA, four bytes per pixel.
    Raster { width: u32, height: u32, data: Vec<u8> },
}

/// Whether content can be re-rendered at any zoom (everything but a
/// fixed raster).
pub open spec fn spec_is_procedural(c: Option<ProceduralContent>) -> bool {
    match c {
        Some(ProceduralContent::Perlin { .. }) => true,
        Some(ProceduralContent::Polynomial { .. }) => true,
        Some(ProceduralContent::SineWave { .. }) => true,
        Some(ProceduralContent::Fourier { .. }) => true,
        Some(ProceduralContent::Fractal { .. }) => true,
        _ => false,
    }
}

/// Statistics of a loaded 3-D scene; the scene tree itself lives with
/// the rendering layer.
#[derive(Debug, Clone)]
pub struct SdfInfo {
    /// Number of nodes in the scene tree.
    pub node_count: u64,
    /// File format version text.
    pub version: String,
}

/// The sign-extending widening of a 32-bit slope used as a noise seed.
pub open spec fn spec_seed_u64(slope: i32) -> u64 {
    if slope >= 0 {
        slope as u64
    } else {
        (slope + 0x10000000000000000) as u64
    }
}

/// The synthetic noise scale a Linear payload maps to: the slope as a
/// single-precision value, made absolute, times ten, plus one — each
/// step with single-precision rounding — as its bit pattern.
pub open spec fn spec_lin_scale_bits(slope: i32) -> u32 {
    let k1 = f32_sig(abs_i32(slope));
    let k2 = spec_round_sig(k1 * 10, 0x1000000);
    let k3 = spec_round_sig(k2 + 0x10000, 0x1000000);
    spec_f32_bits_q16(k3)
}

/// How each payload maps into the rendering model. A Linear payload is
/// deliberately reinterpreted as a synthetic Perlin visualization (seed
/// from the raw slope, scale from its magnitude); Perlin and Fractal
/// payloads map through field for field.
pub open spec fn spec_content_of(p: AlicePayload) -> ProceduralContent {
    match p {
        AlicePayload::Linear(q) => ProceduralContent::Perlin {
            seed: spec_seed_u64(q.slope_q16),
            scale_bits: spec_lin_scale_bits(q.slope_q16),
            octaves: 6,
            persistence_bits: 0x3F000000,
            lacunarity_bits: 0x40000000,
        },
        AlicePayload::Perlin(q) => ProceduralContent::Perlin {
            seed: q.seed,
            scale_bits: q.scale_bits,
            octaves: q.octaves,
            persistence_bits: q.persistence_bits,
            lacunarity_bits: q.lacunarity_bits,
        },
        AlicePayload::Fractal(q) => ProceduralContent::Fractal {
            fractal_type: spec_fractal_type(q.fractal_type),
            max_iterations: q.max_iterations,
            escape_radius_bits: q.escape_radius_bits,
            center_x_bits: q.center_x_bits,
            center_y_bits: q.center_y_bits,
            julia_bits: if q.fractal_type == 1 {
                Some((q.julia_cx_bits, q.julia_cy_bits))
            } else {
                None
            },
        },
    }
}

/// The fixed default content for a legacy container without the magic:
/// a Mandelbrot view centered at (-0.75, 0) with 256 iterations and
/// escape radius two.
pub open spec fn spec_fallback_fractal() -> ProceduralContent {
    ProceduralContent::Fractal {
        fractal_type: FractalType::Mandelbrot,
        max_iterations: 256,
        escape_radius_bits: 0x40000000,
        center_x_bits: 0xBFE8000000000000,
        center_y_bits: 0,
        julia_bits: None,
    }
}

/// The placeholder content a stream file maps to until stream decoding
/// exists: fixed Perlin parameters.
pub open spec fn spec_stream_placeholder() -> ProceduralContent {
    ProceduralContent::Perlin {
        seed: 12345,
        scale_bits: 0x40A00000,
        octaves: 8,
        persistence_bits: 0x3F000000,
        lacunarity_bits: 0x40000000,
    }
}

/// Name for what the raster decoder returns on given bytes: the decode
/// is a pure function of the encoded bytes.
pub uninterp spec fn image_rgba_decode(data: Seq<u8>) -> Option<(u32, u32, Seq<u8>)>;

/// Relies on `image::load_from_memory` and `DynamicImage::to_rgba8`:
/// decoding is deterministic in the bytes, and the RGBA buffer holds
/// exactly width times height four-byte pixels.
#[verifier::external_body]
fn decode_image_rgba(data: &[u8]) -> (r: Option<(u32, u32, Vec<u8>)>)
    ensures
        match r {
            Some(t) => image_rgba_decode(data@) == Some((t.0, t.1, t.2@)) && t.2@.len() == t.0
                * t.1 * 4,
            None => image_rgba_decode(data@) is None,
        },
{
    match image::load_from_memory(data) {
        Ok(img) => {
            let rgba = img.to_rgba8();
            let (w, h) = rgba.dimensions();
            Some((w, h, rgba.into_raw()))
        },
        Err(_) => None,
    }
}

/// Mathematical model of the decoder state.
pub struct DecoderModel {
    pub content_type: ContentType,
    pub content: Option<ProceduralContent>,
    pub file_path: Option<Seq<char>>,
    pub original_size: u64,
    pub compressed_size: u64,
    pub alice_file: Option<AliceFile>,
    pub sdf_content: Option<SdfInfo>,
}

/// The single-viewer decoder state. It changes only at the commit point
/// of a fully successful load; a failed load leaves every field as it
/// was.
pub struct Decoder {
    content_type: ContentType,
    content: Option<ProceduralContent>,
    file_path: Option<String>,
    original_size: u64,
    compressed_size: u64,
    alice_file: Option<AliceFile>,
    sdf_content: Option<SdfInfo>,
}

impl View for Decoder {
    type V = DecoderModel;

    closed spec fn view(&self) -> DecoderModel {
        DecoderModel {
            content_type: self.content_type,
            content: self.content,
            file_path: self.file_path.deep_view(),
            original_size: self.original_size,
            compressed_size: self.compressed_size,
            alice_file: self.alice_file,
            sdf_content: self.sdf_content,
        }
    }
}

/// The state a successful load commits, all at once.
pub open spec fn spec_committed(
    post: DecoderModel,
    path: Seq<char>,
    ct: ContentType,
    content: Option<ProceduralContent>,
    original_size: u64,
    compressed_size: u64,
) -> bool {
    post.content_type == ct && post.content == content && post.file_path == Some(path)
        && post.original_size == original_size && post.compressed_size == compressed_size
}

/// Contract of a container load over bytes `data`: with the magic, the
/// parsed container commits (or its parse error leaves the state
/// untouched); without it, the legacy fallback commits.
pub open spec fn spec_container_load(
    pre: DecoderModel,
    post: DecoderModel,
    path: Seq<char>,
    data: Seq<u8>,
    r: Result<(), AliceError>,
) -> bool {
    if data.len() >= 5 && data.subrange(0, 5) == spec_magic() {
        match spec_parse_container(data) {
            Ok(hp) => {
                let region = spec_meta_region(data, hp.0.metadata_length);
                if hp.0.metadata_length > 0 && !valid_utf8(region) {
                    post == pre && r == Err::<(), AliceError>(AliceError::InvalidEncoding)
                } else {
                    r is Ok && spec_committed(
                        post,
                        path,
                        ContentType::AliceZip,
                        Some(spec_content_of(hp.1)),
                        hp.0.original_size,
                        hp.0.compressed_size,
                    ) && post.sdf_content is None && (post.alice_file matches Some(f) && f.header@
                        == hp.0 && f.payload == hp.1 && spec_meta_matches(f.metadata, region))
                }
            },
            Err(e) => post == pre && r == Err::<(), AliceError>(e),
        }
    } else {
        r is Ok && spec_committed(
            post,
            path,
            ContentType::AliceZip,
            Some(spec_fallback_fractal()),
            ((data.len() * 500) % 0x10000000000000000) as u64,
            data.len() as u64,
        ) && post.alice_file is None && post.sdf_content is None
    }
}

impl Decoder {
    /// A decoder with nothing loaded.
    pub fn new() -> (r: Decoder)
        ensures
            r@.content_type == ContentType::Empty,
            r@.content is None,
            r@.file_path is None,
            r@.original_size == 0,
            r@.compressed_size == 0,
            r@.alice_file is None,
            r@.sdf_content is None,
    {
        Decoder {
            content_type: ContentType::Empty,
            content: None,
            file_path: None,
            original_size: 0,
            compressed_size: 0,
            alice_file: None,
            sdf_content: None,
        }
    }

    /// Current content classification.
    pub fn content_type(&self) -> (r: ContentType)
        ensures
            r == self@.content_type,
    {
        self.content_type
    }

    /// Current rendering model, if any.
    pub fn content(&self) -> (r: Option<&ProceduralContent>)
        ensures
            match r {
                Some(c) => self@.content == Some(*c),
                None => self@.content is None,
            },
    {
        self.content.as_ref()
    }

    /// Path of the currently loaded file, if any.
    pub fn file_path(&self) -> (r: Option<&str>)
        ensures
            match r {
                Some(s) => self@.file_path == Some(s@),
                None => self@.file_path is None,
            },
    {
        match &self.file_path {
            Some(s) => Some(s.as_str()),
            None => None,
        }
    }

    /// The parsed container of the current content, if one was loaded.
    pub fn alice_file(&self) -> (r: Option<&AliceFile>)
        ensures
            match r {
                Some(f) => self@.alice_file == Some(*f),
                None => self@.alice_file is None,
            },
    {
        self.alice_file.as_ref()
    }

    /// Statistics of the loaded 3-D scene, if one was loaded.
    pub fn sdf_content(&self) -> (r: Option<&SdfInfo>)
        ensures
            match r {
                Some(s) => self@.sdf_content == Some(*s),
                None => self@.sdf_content is None,
            },
    {
        self.sdf_content.as_ref()
    }

    /// Numerator and denominator of the compression ratio; the
    /// denominator is never zero, and a zero compressed size reads as a
    /// ratio of one.
    pub fn compression_ratio_parts(&self) -> (r: (u64, u64))
        ensures
            r.1 > 0,
            self@.compressed_size > 0 ==> r == (self@.original_size, self@.compressed_size),
            self@.compressed_size == 0 ==> r == (1u64, 1u64),
    {
        if self.compressed_size > 0 {
            (self.original_size, self.compressed_size)
        } else {
            (1, 1)
        }
    }

    /// Whether the current content is procedural (infinitely zoomable).
    pub fn is_procedural(&self) -> (r: bool)
        ensures
            r == spec_is_procedural(self@.content),
    {
        match &self.content {
            Some(ProceduralContent::Perlin { .. }) => true,
            Some(ProceduralContent::Polynomial { .. }) => true,
            Some(ProceduralContent::SineWave { .. }) => true,
            Some(ProceduralContent::Fourier { .. }) => true,
            Some(ProceduralContent::Fractal { .. }) => true,
            _ => false,
        }
    }

    /// The single commit point: replace the whole state at once.
    fn commit(
        &mut self,
        ct: ContentType,
        content: Option<ProceduralContent>,
        path: String,
        original_size: u64,
        compressed_size: u64,
        alice_file: Option<AliceFile>,
        sdf_content: Option<SdfInfo>,
    )
        ensures
            spec_committed(final(self)@, path@, ct, content, original_size, compressed_size),
            final(self)@.alice_file == alice_file,
            final(self)@.sdf_content == sdf_content,
    {
        *self = Decoder {
            content_type: ct,
            content,
            file_path: Some(path),
            original_size,
            compressed_size,
            alice_file,
            sdf_content,
        };
    }

    /// Load container bytes: with the magic they are parsed and
    /// normalized into the rendering model; without it the file is
    /// treated as an opaque legacy blob and the fixed fallback fractal
    /// commits. Any parse error leaves the state exactly as it was.
    /// Callers keep buffers below the size the display-estimate
    /// arithmetic admits (the legacy fallback scales the file size five
    /// hundredfold in a 64-bit counter).
    pub fn load_container_bytes(&mut self, path: &str, data: &[u8]) -> (r: Result<(), AliceError>)
        requires
            data@.len() <= 0x1000000000000,
        ensures
            spec_container_load(old(self)@, final(self)@, path@, data@, r),
    {
        let has_magic = data.len() >= 5 && data[0] == 0x41 && data[1] == 0x4C && data[2] == 0x49
            && data[3] == 0x43 && data[4] == 0x45;
        proof {
            if data@.len() >= 5 {
                if has_magic {
                    assert(data@.subrange(0, 5) =~= spec_magic());
                } else {
                    assert(data@.subrange(0, 5) != spec_magic());
                }
            }
        }
        if has_magic {
            let file = match AliceFile::parse(data) {
                Ok(f) => f,
                Err(e) => {
                    return Err(e);
                },
            };
            let content = content_of_payload(&file.payload);
            let original_size = file.header.original_size;
            let compressed_size = file.header.compressed_size;
            self.commit(
                ContentType::AliceZip,
                Some(content),
                path.to_owned(),
                original_size,
                compressed_size,
                Some(file),
                None,
            );
            Ok(())
        } else {
            let compressed_size = data.len() as u64;
            self.commit(
                ContentType::AliceZip,
                Some(
                    ProceduralContent::Fractal {
                        fractal_type: FractalType::Mandelbrot,
                        max_iterations: 256,
                        escape_radius_bits: 0x40000000,
                        center_x_bits: 0xBFE8000000000000,
                        center_y_bits: 0,
                        julia_bits: None,
                    },
                ),
                path.to_owned(),
                compressed_size * 500,
                compressed_size,
                None,
                None,
            );
            Ok(())
        }
    }

    /// Load a stream file: placeholder Perlin content with the file size
    /// as the compressed size, scaled a thousandfold for display (which
    /// is what bounds the admissible file size).
    pub fn load_stream_stats(&mut self, path: &str, file_size: u64)
        requires
            file_size <= 0x1000000000000,
        ensures
            spec_committed(
                final(self)@,
                path@,
                ContentType::AspStream,
                Some(spec_stream_placeholder()),
                (file_size * 1000) as u64,
                file_size,
            ),
            final(self)@.alice_file is None,
            final(self)@.sdf_content is None,
    {
        self.commit(
            ContentType::AspStream,
            Some(
                ProceduralContent::Perlin {
                    seed: 12345,
                    scale_bits: 0x40A00000,
                    octaves: 8,
                    persistence_bits: 0x3F000000,
                    lacunarity_bits: 0x40000000,
                },
            ),
            path.to_owned(),
            file_size * 1000,
            file_size,
            None,
            None,
        );
    }

    /// Load raster image bytes: decode to RGBA and commit; a decode
    /// failure leaves the state exactly as it was.
    pub fn load_image_bytes(&mut self, path: &str, data: &[u8], file_size: u64) -> (r: Result<
        (),
        AliceError,
    >)
        ensures
            match r {
                Ok(_) => image_rgba_decode(data@) matches Some(t) && (final(self)@.content
                    matches Some(ProceduralContent::Raster { width, height, data: px }) && width
                    == t.0 && height == t.1 && px@ == t.2) && final(self)@.content_type
                    == ContentType::Image && final(self)@.file_path == Some(path@) && final(self)@.original_size == ((t.0 * t.1 * 4) % 0x10000000000000000) as u64 && final(self)@.compressed_size
                    == file_size && final(self)@.alice_file is None && final(self)@.sdf_content
                    is None,
                Err(e) => e == AliceError::IoFailure && image_rgba_decode(data@) is None && final(self)@ == old(self)@,
            },
    {
        let decoded = match decode_image_rgba(data) {
            Some(t) => t,
            None => {
                return Err(AliceError::IoFailure);
            },
        };
        let (width, height, pixels) = decoded;
        proof {
            assert((width as u128) * (height as u128) * 4 <= 0xFFFFFFFFu128 * 0xFFFFFFFFu128 * 4)
                by (nonlinear_arith)
                requires
                    width <= 0xFFFFFFFFu32,
                    height <= 0xFFFFFFFFu32,
            ;
        }
        let original_size = ((width as u128 * height as u128 * 4) % 0x10000000000000000) as u64;
        self.commit(
            ContentType::Image,
            Some(ProceduralContent::Raster { width, height, data: pixels }),
            path.to_owned(),
            original_size,
            file_size,
            None,
            None,
        );
        Ok(())
    }

    /// Commit a loaded 3-D scene: the caller hands in what the scene
    /// loader produced (node count and version) and the file size; the
    /// recorded original size is one hundred times the file size, a
    /// display estimate for the mesh a scene would expand to.
    pub fn load_scene_info(&mut self, path: &str, node_count: u64, version: String, file_size: u64)
        requires
            file_size <= 0x1000000000000,
        ensures
            spec_committed(
                final(self)@,
                path@,
                ContentType::AliceSdf,
                None,
                (file_size * 100) as u64,
                file_size,
            ),
            final(self)@.alice_file is None,
            final(self)@.sdf_content matches Some(s) && s.node_count == node_count && s.version@
                == version@,
    {
        self.commit(
            ContentType::AliceSdf,
            None,
            path.to_owned(),
            file_size * 100,
            file_size,
            None,
            Some(SdfInfo { node_count, version }),
        );
    }

    /// Load any non-scene file from its bytes, dispatching on the path's
    /// extension: containers parse, streams commit placeholder content,
    /// images decode, and video or unknown extensions fail with
    /// `UnsupportedFormat` leaving the state exactly as it was. Scene
    /// files go through the synchronous scene path instead, and callers
    /// keep buffers below the size the display-estimate arithmetic
    /// admits.
    pub fn load_bytes(&mut self, path: &str, data: &[u8]) -> (r: Result<(), AliceError>)
        requires
            spec_route(path@) != LoadRoute::Scene,
            data@.len() <= 0x1000000000000,
        ensures
            spec_route(path@) == LoadRoute::Container ==> spec_container_load(
                old(self)@,
                final(self)@,
                path@,
                data@,
                r,
            ),
            spec_route(path@) == LoadRoute::Stream ==> r is Ok && spec_committed(
                final(self)@,
                path@,
                ContentType::AspStream,
                Some(spec_stream_placeholder()),
                (data@.len() * 1000) as u64,
                data@.len() as u64,
            ),
            spec_route(path@) == LoadRoute::Image ==> (match r {
                Ok(_) => image_rgba_decode(data@) is Some && final(self)@.content_type
                    == ContentType::Image && final(self)@.file_path == Some(path@),
                Err(e) => e == AliceError::IoFailure && image_rgba_decode(data@) is None && final(self)@ == old(self)@,
            }),
            (spec_route(path@) == LoadRoute::Video || spec_route(path@) == LoadRoute::Unknown)
                ==> r == Err::<(), AliceError>(AliceError::UnsupportedFormat) && final(self)@ == old(
                self,
            )@,
    {
        match classify_path(path) {
            LoadRoute::Container => self.load_container_bytes(path, data),
            LoadRoute::Stream => {
                self.load_stream_stats(path, data.len() as u64);
                Ok(())
            },
            LoadRoute::Image => self.load_image_bytes(path, data, data.len() as u64),
            _ => Err(AliceError::UnsupportedFormat),
        }
    }
}

impl Default for Decoder {
    /// Same as `new`: a decoder with nothing loaded.
    fn default() -> (r: Decoder)
        ensures
            r@.content_type == ContentType::Empty,
            r@.content is None,
            r@.file_path is None,
    {
        Decoder::new()
    }
}

/// Map a parsed payload into the rendering model.
fn content_of_payload(p: &AlicePayload) -> (r: ProceduralContent)
    ensures
        r == spec_content_of(*p),
{
    match p {
        AlicePayload::Linear(q) => {
            let seed: u64 = if q.slope_q16 >= 0 {
                q.slope_q16 as u64
            } else {
                0xFFFFFFFFFFFFFFFFu64 - abs_u64(q.slope_q16) + 1
            };
            ProceduralContent::Perlin {
                seed,
                scale_bits: lin_scale_bits(q.slope_q16),
                octaves: 6,
                persistence_bits: 0x3F000000,
                lacunarity_bits: 0x40000000,
            }
        },
        AlicePayload::Perlin(q) => ProceduralContent::Perlin {
            seed: q.seed,
            scale_bits: q.scale_bits,
            octaves: q.octaves,
            persistence_bits: q.persistence_bits,
            lacunarity_bits: q.lacunarity_bits,
        },
        AlicePayload::Fractal(q) => {
            let fractal_type = match q.fractal_type {
                1 => FractalType::Julia,
                2 => FractalType::BurningShip,
                3 => FractalType::Tricorn,
                _ => FractalType::Mandelbrot,
            };
            let julia_bits: Option<(u64, u64)> = if q.fractal_type == 1 {
                Some((q.julia_cx_bits, q.julia_cy_bits))
            } else {
                None
            };
            ProceduralContent::Fractal {
                fractal_type,
                max_iterations: q.max_iterations,
                escape_radius_bits: q.escape_radius_bits,
                center_x_bits: q.center_x_bits,
                center_y_bits: q.center_y_bits,
                julia_bits,
            }
        },
    }
}

/// The synthetic noise scale of a Linear payload, with single-precision
/// rounding at each arithmetic step.
fn lin_scale_bits(slope: i32) -> (r: u32)
    ensures
        r == spec_lin_scale_bits(slope),
{
    let a = abs_u64(slope);
    let k1 = round_sig(a as u128, 0x1000000);
    let k2 = round_sig(k1 * 10, 0x1000000);
    let k3 = round_sig(k2 + 0x10000, 0x1000000);
    f32_bits_q16(k3 as u64)
}

} // verus!
