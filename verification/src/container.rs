//! The complete container: header, typed payload and metadata, parsed
//! from and serialized to one byte buffer; and the builder that assembles
//! new containers from typed inputs.

use vstd::prelude::*;
use vstd::slice::slice_subrange;
use vstd::string::*;
use vstd::utf8::{encode_utf8, valid_utf8};

use crate::errors::AliceError;
use crate::header::{spec_header_bytes, spec_magic, spec_parse_header, AliceContentType,
    AliceHeader, HeaderModel, ALICE_HEADER_SIZE, ALICE_VERSION};
use crate::metadata::{spec_meta_json, spec_meta_matches, AliceMetadata};
use crate::payload::{spec_parse_fractal, spec_parse_linear, spec_parse_perlin,
    spec_payload_bytes, AlicePayload, FractalPayload, LinearPayload, PerlinPayload};

verus! {

/// Header and payload that parsing a container buffer yields: the header
/// must parse, the metadata region must fit behind a payload, and the
/// content type must have a payload codec.
pub open spec fn spec_parse_container(data: Seq<u8>) -> Result<
    (HeaderModel, AlicePayload),
    AliceError,
> {
    match spec_parse_header(data) {
        Err(e) => Err(e),
        Ok(h) => {
            if h.metadata_length + 32 > data.len() {
                Err(AliceError::PayloadTooShort)
            } else {
                let pdata = data.subrange(32, data.len() - h.metadata_length);
                match h.content_type {
                    AliceContentType::Linear => match spec_parse_linear(pdata) {
                        Ok(p) => Ok((h, AlicePayload::Linear(p))),
                        Err(e) => Err(e),
                    },
                    AliceContentType::Perlin => match spec_parse_perlin(pdata) {
                        Ok(p) => Ok((h, AlicePayload::Perlin(p))),
                        Err(e) => Err(e),
                    },
                    AliceContentType::Fractal => match spec_parse_fractal(pdata) {
                        Ok(p) => Ok((h, AlicePayload::Fractal(p))),
                        Err(e) => Err(e),
                    },
                    _ => Err(AliceError::UnsupportedContentType),
                }
            }
        },
    }
}

/// The trailing metadata region of a container buffer.
pub open spec fn spec_meta_region(data: Seq<u8>, metadata_length: u32) -> Seq<u8>
    recommends
        metadata_length + 32 <= data.len(),
{
    data.subrange(data.len() - metadata_length, data.len() as int)
}

/// A complete parsed container.
#[derive(Debug, Clone)]
pub struct AliceFile {
    pub header: AliceHeader,
    pub payload: AlicePayload,
    pub metadata: AliceMetadata,
}

impl AliceFile {
    /// Parse a complete container: header first, then the payload region
    /// (everything between the header and the trailing metadata region),
    /// then the metadata.
    pub fn parse(data: &[u8]) -> (r: Result<AliceFile, AliceError>)
        ensures
            match r {
                Ok(f) => spec_parse_container(data@) == Ok::<_, AliceError>((f.header@, f.payload))
                    && spec_meta_matches(
                    f.metadata,
                    spec_meta_region(data@, f.header.metadata_length),
                ),
                Err(e) => spec_parse_container(data@) == Err::<(HeaderModel, AlicePayload), _>(e)
                    || (spec_parse_container(data@) is Ok && e == AliceError::InvalidEncoding && {
                    let h = spec_parse_container(data@)->Ok_0.0;
                    h.metadata_length > 0 && !valid_utf8(spec_meta_region(data@, h.metadata_length))
                }),
            },
    {
        let header = match AliceHeader::parse(data) {
            Ok(h) => h,
            Err(e) => {
                return Err(e);
            },
        };
        let ml = header.metadata_length as usize;
        if ml > data.len() || data.len() - ml < ALICE_HEADER_SIZE {
            return Err(AliceError::PayloadTooShort);
        }
        let payload_end = data.len() - ml;
        let payload_data = slice_subrange(data, ALICE_HEADER_SIZE, payload_end);
        let payload = match header.content_type {
            AliceContentType::Linear => match LinearPayload::parse(payload_data) {
                Ok(p) => AlicePayload::Linear(p),
                Err(e) => {
                    return Err(e);
                },
            },
            AliceContentType::Perlin => match PerlinPayload::parse(payload_data) {
                Ok(p) => AlicePayload::Perlin(p),
                Err(e) => {
                    return Err(e);
                },
            },
            AliceContentType::Fractal => match FractalPayload::parse(payload_data) {
                Ok(p) => AlicePayload::Fractal(p),
                Err(e) => {
                    return Err(e);
                },
            },
            _ => {
                return Err(AliceError::UnsupportedContentType);
            },
        };
        let meta_data = slice_subrange(data, payload_end, data.len());
        let metadata = match AliceMetadata::parse(meta_data) {
            Ok(m) => m,
            Err(e) => {
                return Err(e);
            },
        };
        Ok(AliceFile { header, payload, metadata })
    }

    /// Serialize the container: the header (with its metadata length set
    /// to the length of the metadata actually emitted), the payload
    /// bytes, then the metadata bytes.
    pub fn to_bytes(&self) -> (r: Vec<u8>)
        ensures
            ({
                let enc = encode_utf8(spec_meta_json(self.metadata));
                r@ == spec_header_bytes(
                    HeaderModel {
                        metadata_length: (enc.len() % 0x100000000) as u32,
                        ..self.header@
                    },
                ) + spec_payload_bytes(self.payload) + enc
            }),
    {
        let payload_bytes = self.payload.to_bytes();
        let meta_bytes = self.metadata.to_json();
        let header = AliceHeader {
            magic: self.header.magic,
            version: self.header.version,
            content_type: self.header.content_type,
            flags: self.header.flags,
            original_size: self.header.original_size,
            compressed_size: self.header.compressed_size,
            metadata_length: ((meta_bytes.len() as u64) % 0x100000000) as u32,
        };
        let mut out = header.to_bytes();
        let mut k: usize = 0;
        while k < payload_bytes.len()
            invariant
                k <= payload_bytes@.len(),
                out@ == spec_header_bytes(header@) + payload_bytes@.take(k as int),
            decreases payload_bytes@.len() - k,
        {
            out.push(payload_bytes[k]);
            proof {
                assert(out@ =~= spec_header_bytes(header@) + payload_bytes@.take(k as int + 1));
            }
            k = k + 1;
        }
        proof {
            assert(payload_bytes@.take(payload_bytes@.len() as int) =~= payload_bytes@);
        }
        let mut j: usize = 0;
        while j < meta_bytes.len()
            invariant
                j <= meta_bytes@.len(),
                out@ == spec_header_bytes(header@) + payload_bytes@ + meta_bytes@.take(j as int),
            decreases meta_bytes@.len() - j,
        {
            out.push(meta_bytes[j]);
            proof {
                assert(out@ =~= spec_header_bytes(header@) + payload_bytes@ + meta_bytes@.take(
                    j as int + 1,
                ));
            }
            j = j + 1;
        }
        proof {
            assert(meta_bytes@.take(meta_bytes@.len() as int) =~= meta_bytes@);
            assert(header@ =~= (HeaderModel {
                metadata_length: (encode_utf8(spec_meta_json(self.metadata)).len()
                    % 0x100000000) as u32,
                ..self.header@
            }));
        }
        out
    }

    /// The human-readable equation string of the container's payload.
    pub fn equation_string(&self) -> (r: String)
        ensures
            r@ == crate::payload::spec_payload_equation(self.payload),
    {
        self.payload.equation_string()
    }

    /// Display name of the container's content type.
    pub fn content_type_name(&self) -> (r: &'static str)
        ensures
            self.header.content_type is Linear ==> r@ == "Linear"@,
            self.header.content_type is Perlin ==> r@ == "Perlin Noise"@,
            self.header.content_type is Fractal ==> r@ == "Fractal"@,
    {
        self.header.content_type.name()
    }

    /// Numerator and denominator of the compression ratio; the
    /// denominator is never zero.
    pub fn compression_ratio_parts(&self) -> (r: (u64, u64))
        ensures
            r.1 > 0,
            self.header.compressed_size > 0 ==> r == (
                self.header.original_size,
                self.header.compressed_size,
            ),
            self.header.compressed_size == 0 ==> r == (1u64, 1u64),
    {
        self.header.compression_ratio_parts()
    }
}

/// Container parsing of an assembled buffer — 32 header bytes whose
/// parse is known, a payload region whose parse is known, and a trailing
/// metadata region of the length the header records — yields exactly
/// those parts.
proof fn lemma_parse_assembled(
    hb: Seq<u8>,
    pb: Seq<u8>,
    enc: Seq<u8>,
    h2: HeaderModel,
    p: AlicePayload,
)
    requires
        hb.len() == 32,
        h2.metadata_length == enc.len(),
        spec_parse_header(hb + pb + enc) == Ok::<HeaderModel, AliceError>(h2),
        h2.content_type is Linear ==> (p matches AlicePayload::Linear(q) && spec_parse_linear(pb)
            == Ok::<LinearPayload, AliceError>(q)),
        h2.content_type is Perlin ==> (p matches AlicePayload::Perlin(q) && spec_parse_perlin(pb)
            == Ok::<PerlinPayload, AliceError>(q)),
        h2.content_type is Fractal ==> (p matches AlicePayload::Fractal(q) && spec_parse_fractal(
            pb,
        ) == Ok::<FractalPayload, AliceError>(q)),
        h2.content_type is Linear || h2.content_type is Perlin || h2.content_type is Fractal,
    ensures
        spec_parse_container(hb + pb + enc) == Ok::<_, AliceError>((h2, p)),
{
    let bytes = hb + pb + enc;
    assert(bytes.len() == 32 + pb.len() + enc.len());
    assert(h2.metadata_length + 32 <= bytes.len());
    let pdata = bytes.subrange(32, bytes.len() - h2.metadata_length);
    assert(pdata =~= pb) by {
        assert forall|i: int| 0 <= i < pb.len() implies pdata[i] == pb[i] by {
            assert(bytes[32 + i] == pb[i]);
        }
    };
}

/// Serializing a consistent container and parsing the bytes back yields
/// the same header (carrying the metadata length actually emitted) and
/// exactly the same payload: the round trip is lossless for all header
/// and payload fields. Consistent means the header's content type names
/// the payload variant held, as every parsed or built container has it.
#[verifier::rlimit(100)]
#[verifier::spinoff_prover]
pub proof fn lemma_container_roundtrip(f: AliceFile)
    requires
        f.header@.magic == spec_magic(),
        f.header@.content_type is Linear <==> f.payload is Linear,
        f.header@.content_type is Perlin <==> f.payload is Perlin,
        f.header@.content_type is Fractal <==> f.payload is Fractal,
        encode_utf8(spec_meta_json(f.metadata)).len() < 0x100000000,
    ensures
        ({
            let enc = encode_utf8(spec_meta_json(f.metadata));
            let h2 = HeaderModel {
                metadata_length: (enc.len() % 0x100000000) as u32,
                ..f.header@
            };
            spec_parse_container(spec_header_bytes(h2) + spec_payload_bytes(f.payload) + enc)
                == Ok::<_, AliceError>((h2, f.payload))
        }),
{
    let enc = encode_utf8(spec_meta_json(f.metadata));
    let pb = spec_payload_bytes(f.payload);
    let h2 = HeaderModel { metadata_length: (enc.len() % 0x100000000) as u32, ..f.header@ };
    let hb = spec_header_bytes(h2);
    let bytes = hb + pb + enc;
    crate::header::lemma_header_bytes_len(h2);
    assert(h2.metadata_length == enc.len());
    assert(spec_parse_header(bytes) == Ok::<HeaderModel, AliceError>(h2)) by {
        crate::header::lemma_header_roundtrip(h2);
        assert(bytes.subrange(0, 32) =~= hb.subrange(0, 32));
        crate::header::lemma_parse_header_prefix(bytes, hb);
    };
    match f.payload {
        AlicePayload::Linear(q) => {
            crate::payload::lemma_linear_roundtrip(q);
        },
        AlicePayload::Perlin(q) => {
            crate::payload::lemma_perlin_roundtrip(q);
        },
        AlicePayload::Fractal(q) => {
            crate::payload::lemma_fractal_roundtrip(q);
        },
    }
    lemma_parse_assembled(hb, pb, enc, h2, f.payload);
}

/// Builder that assembles a new container from typed inputs.
pub struct AliceFileBuilder {
    pub content_type: AliceContentType,
    pub original_size: u64,
    pub payload: Option<AlicePayload>,
    pub metadata: AliceMetadata,
}

/// The sum `32 + payload + metadata` reduced to 64 bits: the compressed
/// size a built container records.
pub open spec fn spec_built_compressed(payload_len: nat, meta_len: nat) -> u64 {
    ((32 + payload_len + meta_len) % 0x10000000000000000) as u64
}

/// The original size a built container records: the explicit value when
/// one was set, else one hundred times the compressed size — a display
/// estimate, not a measured quantity.
pub open spec fn spec_built_original(explicit: u64, compressed: u64) -> u64 {
    if explicit > 0 {
        explicit
    } else {
        ((compressed * 100) % 0x10000000000000000) as u64
    }
}

impl AliceFileBuilder {
    /// Start a builder for the given content type.
    pub fn new(content_type: AliceContentType) -> (r: AliceFileBuilder)
        ensures
            r.content_type == content_type,
            r.original_size == 0,
            r.payload is None,
            r.metadata.sensor_id is None,
            r.metadata.timestamp is None,
            r.metadata.location is None,
            r.metadata.unit is None,
            r.metadata.description is None,
    {
        AliceFileBuilder {
            content_type,
            original_size: 0,
            payload: None,
            metadata: AliceMetadata::default(),
        }
    }

    /// Builder for a linear model, as the edge encoder emits it: the
    /// original size counts four bytes per sample.
    pub fn from_linear(slope_q16: i32, intercept_q16: i32, sample_count: u32) -> (r:
        AliceFileBuilder)
        ensures
            r.content_type == AliceContentType::Linear,
            r.original_size == sample_count as u64 * 4,
            r.payload == Some(
                AlicePayload::Linear(LinearPayload { slope_q16, intercept_q16, sample_count }),
            ),
            r.metadata.sensor_id is None,
            r.metadata.timestamp is None,
            r.metadata.location is None,
            r.metadata.unit is None,
            r.metadata.description is None,
    {
        AliceFileBuilder {
            content_type: AliceContentType::Linear,
            original_size: (sample_count as u64) * 4,
            payload: Some(
                AlicePayload::Linear(LinearPayload { slope_q16, intercept_q16, sample_count }),
            ),
            metadata: AliceMetadata::default(),
        }
    }

    /// Builder for a Mandelbrot fractal. The escape radius is fixed at
    /// two (single-precision bits); centers are double-precision bits.
    pub fn mandelbrot(max_iterations: u32, center_x_bits: u64, center_y_bits: u64) -> (r:
        AliceFileBuilder)
        ensures
            r.content_type == AliceContentType::Fractal,
            r.original_size == 0,
            r.payload == Some(
                AlicePayload::Fractal(
                    FractalPayload {
                        fractal_type: 0,
                        max_iterations,
                        escape_radius_bits: 0x40000000,
                        center_x_bits,
                        center_y_bits,
                        julia_cx_bits: 0,
                        julia_cy_bits: 0,
                    },
                ),
            ),
            r.metadata.sensor_id is None,
            r.metadata.timestamp is None,
            r.metadata.location is None,
            r.metadata.unit is None,
            r.metadata.description is None,
    {
        let mut b = AliceFileBuilder::new(AliceContentType::Fractal);
        b.payload = Some(
            AlicePayload::Fractal(
                FractalPayload {
                    fractal_type: 0,
                    max_iterations,
                    escape_radius_bits: 0x40000000,
                    center_x_bits,
                    center_y_bits,
                    julia_cx_bits: 0,
                    julia_cy_bits: 0,
                },
            ),
        );
        b
    }

    /// Builder for a Julia set, centered at the origin, with the given
    /// constant (double-precision bits).
    pub fn julia(max_iterations: u32, cx_bits: u64, cy_bits: u64) -> (r: AliceFileBuilder)
        ensures
            r.content_type == AliceContentType::Fractal,
            r.original_size == 0,
            r.payload == Some(
                AlicePayload::Fractal(
                    FractalPayload {
                        fractal_type: 1,
                        max_iterations,
                        escape_radius_bits: 0x40000000,
                        center_x_bits: 0,
                        center_y_bits: 0,
                        julia_cx_bits: cx_bits,
                        julia_cy_bits: cy_bits,
                    },
                ),
            ),
            r.metadata.sensor_id is None,
            r.metadata.timestamp is None,
            r.metadata.location is None,
            r.metadata.unit is None,
            r.metadata.description is None,
    {
        let mut b = AliceFileBuilder::new(AliceContentType::Fractal);
        b.payload = Some(
            AlicePayload::Fractal(
                FractalPayload {
                    fractal_type: 1,
                    max_iterations,
                    escape_radius_bits: 0x40000000,
                    center_x_bits: 0,
                    center_y_bits: 0,
                    julia_cx_bits: cx_bits,
                    julia_cy_bits: cy_bits,
                },
            ),
        );
        b
    }

    /// Builder for Perlin noise with one-half persistence and a
    /// lacunarity of two (single-precision bits).
    pub fn perlin(seed: u64, scale_bits: u32, octaves: u32) -> (r: AliceFileBuilder)
        ensures
            r.content_type == AliceContentType::Perlin,
            r.original_size == 0,
            r.payload == Some(
                AlicePayload::Perlin(
                    PerlinPayload {
                        seed,
                        scale_bits,
                        octaves,
                        persistence_bits: 0x3F000000,
                        lacunarity_bits: 0x40000000,
                    },
                ),
            ),
            r.metadata.sensor_id is None,
            r.metadata.timestamp is None,
            r.metadata.location is None,
            r.metadata.unit is None,
            r.metadata.description is None,
    {
        let mut b = AliceFileBuilder::new(AliceContentType::Perlin);
        b.payload = Some(
            AlicePayload::Perlin(
                PerlinPayload {
                    seed,
                    scale_bits,
                    octaves,
                    persistence_bits: 0x3F000000,
                    lacunarity_bits: 0x40000000,
                },
            ),
        );
        b
    }

    /// Replace the whole metadata value.
    pub fn with_metadata(self, metadata: AliceMetadata) -> (r: AliceFileBuilder)
        ensures
            r.content_type == self.content_type,
            r.original_size == self.original_size,
            r.payload == self.payload,
            r.metadata == metadata,
    {
        AliceFileBuilder { metadata, ..self }
    }

    /// Set the sensor ID metadata field.
    pub fn sensor_id(self, id: &str) -> (r: AliceFileBuilder)
        ensures
            r.content_type == self.content_type,
            r.original_size == self.original_size,
            r.payload == self.payload,
            r.metadata.sensor_id.deep_view() == Some(id@),
            r.metadata.timestamp == self.metadata.timestamp,
            r.metadata.location == self.metadata.location,
            r.metadata.unit == self.metadata.unit,
            r.metadata.description == self.metadata.description,
            r.metadata.custom == self.metadata.custom,
    {
        let mut m = self.metadata;
        m.sensor_id = Some(id.to_owned());
        AliceFileBuilder { metadata: m, ..self }
    }

    /// Set the timestamp metadata field.
    pub fn timestamp(self, ts: &str) -> (r: AliceFileBuilder)
        ensures
            r.content_type == self.content_type,
            r.original_size == self.original_size,
            r.payload == self.payload,
            r.metadata.timestamp.deep_view() == Some(ts@),
            r.metadata.sensor_id == self.metadata.sensor_id,
            r.metadata.location == self.metadata.location,
            r.metadata.unit == self.metadata.unit,
            r.metadata.description == self.metadata.description,
            r.metadata.custom == self.metadata.custom,
    {
        let mut m = self.metadata;
        m.timestamp = Some(ts.to_owned());
        AliceFileBuilder { metadata: m, ..self }
    }

    /// Set the unit metadata field.
    pub fn unit(self, unit_text: &str) -> (r: AliceFileBuilder)
        ensures
            r.content_type == self.content_type,
            r.original_size == self.original_size,
            r.payload == self.payload,
            r.metadata.unit.deep_view() == Some(unit_text@),
            r.metadata.sensor_id == self.metadata.sensor_id,
            r.metadata.timestamp == self.metadata.timestamp,
            r.metadata.location == self.metadata.location,
            r.metadata.description == self.metadata.description,
            r.metadata.custom == self.metadata.custom,
    {
        let mut m = self.metadata;
        m.unit = Some(unit_text.to_owned());
        AliceFileBuilder { metadata: m, ..self }
    }

    /// Assemble the container. Fails with `MissingPayload` exactly when
    /// no payload was set. The compressed size is the byte length of what
    /// serialization emits; an unset original size becomes one hundred
    /// times that, purely as a display estimate.
    pub fn build(self) -> (r: Result<AliceFile, AliceError>)
        ensures
            match r {
                Ok(f) => self.payload is Some && f.payload == self.payload->0 && f.metadata
                    == self.metadata && {
                    let plen = spec_payload_bytes(self.payload->0).len();
                    let mlen = encode_utf8(spec_meta_json(self.metadata)).len();
                    let compressed = spec_built_compressed(plen, mlen);
                    f.header@ == (HeaderModel {
                        magic: spec_magic(),
                        version: ALICE_VERSION,
                        content_type: self.content_type,
                        flags: 0,
                        original_size: spec_built_original(self.original_size, compressed),
                        compressed_size: compressed,
                        metadata_length: (mlen % 0x100000000) as u32,
                    })
                },
                Err(e) => e == AliceError::MissingPayload && self.payload is None,
            },
    {
        let payload = match self.payload {
            Some(p) => p,
            None => {
                return Err(AliceError::MissingPayload);
            },
        };
        let payload_bytes = payload.to_bytes();
        let meta_bytes = self.metadata.to_json();
        let compressed_wide: u128 = 32u128 + payload_bytes.len() as u128 + meta_bytes.len() as u128;
        let compressed_size: u64 = (compressed_wide % 0x10000000000000000) as u64;
        let original_size: u64 = if self.original_size > 0 {
            self.original_size
        } else {
            (((compressed_size as u128) * 100) % 0x10000000000000000) as u64
        };
        let header = AliceHeader {
            magic: [0x41, 0x4C, 0x49, 0x43, 0x45],
            version: ALICE_VERSION,
            content_type: self.content_type,
            flags: 0,
            original_size,
            compressed_size,
            metadata_length: ((meta_bytes.len() as u64) % 0x100000000) as u32,
        };
        proof {
            assert(header@.magic =~= spec_magic());
        }
        Ok(AliceFile { header, payload, metadata: self.metadata })
    }
}

} // verus!
