//! The fixed 32-byte container header: magic, version, content-type tag,
//! flags, sizes and metadata length, all little-endian.

use vstd::prelude::*;

use crate::errors::AliceError;
use crate::wire::{le4, le8, lemma_u32_le_roundtrip, lemma_u64_le_roundtrip, push_u32_le,
    push_u64_le, read_u32_le, read_u64_le, u32_le, u64_le};

verus! {

/// Size of the fixed header in bytes.
pub const ALICE_HEADER_SIZE: usize = 32;

/// Current format version.
pub const ALICE_VERSION: u8 = 1;

/// The five magic bytes that open every container: `ALICE`.
pub open spec fn spec_magic() -> Seq<u8> {
    seq![0x41u8, 0x4Cu8, 0x49u8, 0x43u8, 0x45u8]
}

/// Content types a container can carry. Only `Linear`, `Perlin` and
/// `Fractal` have payload codecs; the rest are reserved tags.
#[derive(Debug, Clone, Copy, PartialEq, Eq, Structural)]
pub enum AliceContentType {
    /// Linear model: y = slope * x + intercept.
    Linear,
    /// Polynomial coefficients (reserved).
    Polynomial,
    /// Perlin noise parameters.
    Perlin,
    /// Fractal (Mandelbrot, Julia, and so on).
    Fractal,
    /// Fourier series (reserved).
    Fourier,
    /// Voronoi pattern (reserved).
    Voronoi,
    /// Sine wave composition (reserved).
    SineWave,
}

impl AliceContentType {
    /// The wire tag byte of this content type.
    pub open spec fn spec_tag(self) -> u8 {
        match self {
            AliceContentType::Linear => 0,
            AliceContentType::Polynomial => 1,
            AliceContentType::Perlin => 2,
            AliceContentType::Fractal => 3,
            AliceContentType::Fourier => 4,
            AliceContentType::Voronoi => 5,
            AliceContentType::SineWave => 6,
        }
    }

    /// Which content type a tag byte denotes, if any.
    pub open spec fn spec_from_u8(value: u8) -> Result<AliceContentType, AliceError> {
        if value == 0 {
            Ok(AliceContentType::Linear)
        } else if value == 1 {
            Ok(AliceContentType::Polynomial)
        } else if value == 2 {
            Ok(AliceContentType::Perlin)
        } else if value == 3 {
            Ok(AliceContentType::Fractal)
        } else if value == 4 {
            Ok(AliceContentType::Fourier)
        } else if value == 5 {
            Ok(AliceContentType::Voronoi)
        } else if value == 6 {
            Ok(AliceContentType::SineWave)
        } else {
            Err(AliceError::UnknownContentType)
        }
    }

    /// The wire tag byte of this content type.
    pub fn tag(&self) -> (r: u8)
        ensures
            r == self.spec_tag(),
    {
        match self {
            AliceContentType::Linear => 0,
            AliceContentType::Polynomial => 1,
            AliceContentType::Perlin => 2,
            AliceContentType::Fractal => 3,
            AliceContentType::Fourier => 4,
            AliceContentType::Voronoi => 5,
            AliceContentType::SineWave => 6,
        }
    }

    /// Map a tag byte to its content type; `UnknownContentType` for a byte
    /// outside the closed enumeration.
    pub fn from_u8(value: u8) -> (r: Result<AliceContentType, AliceError>)
        ensures
            r == AliceContentType::spec_from_u8(value),
    {
        match value {
            0 => Ok(AliceContentType::Linear),
            1 => Ok(AliceContentType::Polynomial),
            2 => Ok(AliceContentType::Perlin),
            3 => Ok(AliceContentType::Fractal),
            4 => Ok(AliceContentType::Fourier),
            5 => Ok(AliceContentType::Voronoi),
            6 => Ok(AliceContentType::SineWave),
            _ => Err(AliceError::UnknownContentType),
        }
    }

    /// Display name of the content type.
    pub fn name(&self) -> (r: &'static str)
        ensures
            self is Linear ==> r@ == "Linear"@,
            self is Polynomial ==> r@ == "Polynomial"@,
            self is Perlin ==> r@ == "Perlin Noise"@,
            self is Fractal ==> r@ == "Fractal"@,
            self is Fourier ==> r@ == "Fourier Series"@,
            self is Voronoi ==> r@ == "Voronoi"@,
            self is SineWave ==> r@ == "Sine Wave"@,
    {
        match self {
            AliceContentType::Linear => "Linear",
            AliceContentType::Polynomial => "Polynomial",
            AliceContentType::Perlin => "Perlin Noise",
            AliceContentType::Fractal => "Fractal",
            AliceContentType::Fourier => "Fourier Series",
            AliceContentType::Voronoi => "Voronoi",
            AliceContentType::SineWave => "Sine Wave",
        }
    }

    /// A tag byte made from a content type always maps back to it.
    pub proof fn lemma_tag_roundtrip(self)
        ensures
            AliceContentType::spec_from_u8(self.spec_tag()) == Ok::<AliceContentType, AliceError>(self),
    {
    }
}

/// Container file header (32 bytes on the wire).
#[derive(Debug, Clone, Copy, PartialEq, Eq)]
pub struct AliceHeader {
    pub magic: [u8; 5],
    pub version: u8,
    pub content_type: AliceContentType,
    pub flags: u8,
    pub original_size: u64,
    pub compressed_size: u64,
    pub metadata_length: u32,
}

/// Mathematical model of a header: the same fields with the magic as a
/// byte sequence.
#[verifier::ext_equal]
pub struct HeaderModel {
    pub magic: Seq<u8>,
    pub version: u8,
    pub content_type: AliceContentType,
    pub flags: u8,
    pub original_size: u64,
    pub compressed_size: u64,
    pub metadata_length: u32,
}

impl View for AliceHeader {
    type V = HeaderModel;

    open spec fn view(&self) -> HeaderModel {
        HeaderModel {
            magic: self.magic@,
            version: self.version,
            content_type: self.content_type,
            flags: self.flags,
            original_size: self.original_size,
            compressed_size: self.compressed_size,
            metadata_length: self.metadata_length,
        }
    }
}

/// The 32 bytes a header serializes to.
pub open spec fn spec_header_bytes(h: HeaderModel) -> Seq<u8> {
    h.magic + seq![h.version, h.content_type.spec_tag(), h.flags] + u64_le(h.original_size)
        + u64_le(h.compressed_size) + u32_le(h.metadata_length) + seq![0u8, 0u8, 0u8, 0u8]
}

/// What header parsing returns on any byte sequence.
pub open spec fn spec_parse_header(data: Seq<u8>) -> Result<HeaderModel, AliceError> {
    if data.len() < 32 {
        Err(AliceError::TooShort)
    } else if data.subrange(0, 5) != spec_magic() {
        Err(AliceError::BadMagic)
    } else {
        match AliceContentType::spec_from_u8(data[6]) {
            Err(_) => Err(AliceError::UnknownContentType),
            Ok(ct) => Ok(
                HeaderModel {
                    magic: data.subrange(0, 5),
                    version: data[5],
                    content_type: ct,
                    flags: data[7],
                    original_size: le8(data.subrange(8, 16)) as u64,
                    compressed_size: le8(data.subrange(16, 24)) as u64,
                    metadata_length: le4(data.subrange(24, 28)) as u32,
                },
            ),
        }
    }
}

impl AliceHeader {
    /// Parse a header from the front of `data`. Fails with `TooShort` on
    /// fewer than 32 bytes, `BadMagic` when the magic differs, and
    /// `UnknownContentType` on a tag byte outside the enumeration.
    pub fn parse(data: &[u8]) -> (r: Result<AliceHeader, AliceError>)
        ensures
            match r {
                Ok(h) => spec_parse_header(data@) == Ok::<HeaderModel, AliceError>(h@),
                Err(e) => spec_parse_header(data@) == Err::<HeaderModel, AliceError>(e),
            },
    {
        if data.len() < ALICE_HEADER_SIZE {
            return Err(AliceError::TooShort);
        }
        let magic: [u8; 5] = [data[0], data[1], data[2], data[3], data[4]];
        if !(data[0] == 0x41 && data[1] == 0x4C && data[2] == 0x49 && data[3] == 0x43 && data[4]
            == 0x45) {
            proof {
                assert(data@.subrange(0, 5) != spec_magic());
            }
            return Err(AliceError::BadMagic);
        }
        proof {
            assert(data@.subrange(0, 5) =~= spec_magic());
            assert(magic@ =~= data@.subrange(0, 5));
        }
        let version = data[5];
        let content_type = match AliceContentType::from_u8(data[6]) {
            Ok(ct) => ct,
            Err(e) => {
                return Err(e);
            },
        };
        let flags = data[7];
        let original_size = read_u64_le(data, 8);
        let compressed_size = read_u64_le(data, 16);
        let metadata_length = read_u32_le(data, 24);
        Ok(
            AliceHeader {
                magic,
                version,
                content_type,
                flags,
                original_size,
                compressed_size,
                metadata_length,
            },
        )
    }

    /// Serialize the header to its 32 wire bytes.
    pub fn to_bytes(&self) -> (r: Vec<u8>)
        ensures
            r@ == spec_header_bytes(self@),
            r@.len() == 32,
    {
        let mut out: Vec<u8> = Vec::new();
        out.push(self.magic[0]);
        out.push(self.magic[1]);
        out.push(self.magic[2]);
        out.push(self.magic[3]);
        out.push(self.magic[4]);
        out.push(self.version);
        out.push(self.content_type.tag());
        out.push(self.flags);
        push_u64_le(&mut out, self.original_size);
        push_u64_le(&mut out, self.compressed_size);
        push_u32_le(&mut out, self.metadata_length);
        out.push(0);
        out.push(0);
        out.push(0);
        out.push(0);
        proof {
            assert(out@ =~= spec_header_bytes(self@));
        }
        out
    }

    /// Whether the container carries a metadata region.
    pub fn has_metadata(&self) -> (r: bool)
        ensures
            r == (self.metadata_length > 0),
    {
        self.metadata_length > 0
    }

    /// Numerator and denominator of the compression ratio. When the
    /// compressed size is zero the ratio is defined as one, so the
    /// denominator returned here is never zero.
    pub fn compression_ratio_parts(&self) -> (r: (u64, u64))
        ensures
            r.1 > 0,
            self.compressed_size > 0 ==> r == (self.original_size, self.compressed_size),
            self.compressed_size == 0 ==> r == (1u64, 1u64),
    {
        if self.compressed_size > 0 {
            (self.original_size, self.compressed_size)
        } else {
            (1, 1)
        }
    }
}

/// A serialized header is exactly 32 bytes.
pub proof fn lemma_header_bytes_len(h: HeaderModel)
    requires
        h.magic.len() == 5,
    ensures
        spec_header_bytes(h).len() == 32,
{
}

/// Header parsing reads only the first 32 bytes: buffers that agree
/// there parse the same way.
pub proof fn lemma_parse_header_prefix(a: Seq<u8>, b: Seq<u8>)
    requires
        a.len() >= 32,
        b.len() >= 32,
        a.subrange(0, 32) == b.subrange(0, 32),
    ensures
        spec_parse_header(a) == spec_parse_header(b),
{
    assert forall|i: int| 0 <= i < 32 implies a[i] == b[i] by {
        assert(a.subrange(0, 32)[i] == a[i]);
        assert(b.subrange(0, 32)[i] == b[i]);
        assert(a.subrange(0, 32)[i] == b.subrange(0, 32)[i]);
    }
    assert(a.subrange(0, 5) =~= b.subrange(0, 5));
    assert(a.subrange(8, 16) =~= b.subrange(8, 16));
    assert(a.subrange(16, 24) =~= b.subrange(16, 24));
    assert(a.subrange(24, 28) =~= b.subrange(24, 28));
    if a.subrange(0, 5) == spec_magic() && AliceContentType::spec_from_u8(a[6]) is Ok {
        let pa = spec_parse_header(a);
        let pb = spec_parse_header(b);
        assert(pa matches Ok(ha) && pb matches Ok(hb) && ha =~= hb);
    }
}

/// Serialize-then-parse is the identity on every valid header: whatever the
/// content type, flags, version and sizes, parsing the serialized bytes
/// gives back exactly the same header.
pub proof fn lemma_header_roundtrip(h: HeaderModel)
    requires
        h.magic == spec_magic(),
    ensures
        spec_parse_header(spec_header_bytes(h)) == Ok::<HeaderModel, AliceError>(h),
{
    let bytes = spec_header_bytes(h);
    assert(bytes.len() == 32);
    assert(bytes.subrange(0, 5) =~= h.magic);
    assert(bytes[6] == h.content_type.spec_tag());
    h.content_type.lemma_tag_roundtrip();
    assert(bytes.subrange(8, 16) =~= u64_le(h.original_size));
    assert(bytes.subrange(16, 24) =~= u64_le(h.compressed_size));
    assert(bytes.subrange(24, 28) =~= u32_le(h.metadata_length));
    lemma_u64_le_roundtrip(h.original_size);
    lemma_u64_le_roundtrip(h.compressed_size);
    lemma_u32_le_roundtrip(h.metadata_length);
    let parsed = spec_parse_header(bytes);
    assert(parsed matches Ok(p) && p =~= h);
}

} // verus!
