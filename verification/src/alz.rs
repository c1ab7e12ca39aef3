//! Legacy ALICE-Zip stream header and content tags.

use vstd::prelude::*;

verus! {

/// Legacy compressed-stream file header.
#[derive(Debug, Clone, Copy)]
pub struct AlzHeader {
    /// Magic bytes, `ALICE`.
    pub magic: [u8; 5],
    /// Format version.
    pub version: u8,
    /// Content type tag.
    pub content_type: u8,
    /// Flags.
    pub flags: u8,
    /// Original data size.
    pub original_size: u64,
    /// Compressed size.
    pub compressed_size: u64,
}

impl AlzHeader {
    /// A header is valid exactly when its magic bytes read `ALICE`.
    pub fn is_valid(&self) -> (r: bool)
        ensures
            r == (self.magic@ == crate::header::spec_magic()),
    {
        let ok = self.magic[0] == 0x41 && self.magic[1] == 0x4C && self.magic[2] == 0x49
            && self.magic[3] == 0x43 && self.magic[4] == 0x45;
        proof {
            if ok {
                assert(self.magic@ =~= crate::header::spec_magic());
            } else {
                assert(self.magic@ != crate::header::spec_magic());
            }
        }
        ok
    }
}

/// Content tags of the legacy compressed stream format.
#[derive(Debug, Clone, Copy, PartialEq, Eq, Structural)]
pub enum AlzContentType {
    /// Raw LZMA-compressed data.
    RawLzma,
    /// Perlin noise parameters.
    Perlin,
    /// Polynomial coefficients.
    Polynomial,
    /// Sine wave parameters.
    Sine,
    /// Fourier series.
    Fourier,
    /// Fractal parameters.
    Fractal,
}

impl AlzContentType {
    /// Which legacy content tag a byte denotes, if any.
    pub open spec fn spec_from_u8(value: u8) -> Option<AlzContentType> {
        if value == 0 {
            Some(AlzContentType::RawLzma)
        } else if value == 1 {
            Some(AlzContentType::Perlin)
        } else if value == 2 {
            Some(AlzContentType::Polynomial)
        } else if value == 3 {
            Some(AlzContentType::Sine)
        } else if value == 4 {
            Some(AlzContentType::Fourier)
        } else if value == 5 {
            Some(AlzContentType::Fractal)
        } else {
            None
        }
    }

    /// Map a tag byte to its legacy content tag.
    pub fn from_u8(value: u8) -> (r: Option<AlzContentType>)
        ensures
            r == AlzContentType::spec_from_u8(value),
    {
        match value {
            0 => Some(AlzContentType::RawLzma),
            1 => Some(AlzContentType::Perlin),
            2 => Some(AlzContentType::Polynomial),
            3 => Some(AlzContentType::Sine),
            4 => Some(AlzContentType::Fourier),
            5 => Some(AlzContentType::Fractal),
            _ => None,
        }
    }
}

} // verus!
