//! Error kinds raised by the container codec and the decode orchestrator.

use vstd::prelude::*;

verus! {

/// Everything that can go wrong while parsing, building or loading content.
/// All of these are terminal for the operation that raised them; none is
/// retried internally.
#[derive(Debug, Clone, Copy, PartialEq, Eq, Structural)]
pub enum AliceError {
    /// Fewer header bytes than the fixed header size.
    TooShort,
    /// The first five bytes differ from the container magic.
    BadMagic,
    /// The content-type tag byte is outside the closed enumeration.
    UnknownContentType,
    /// The tag is a reserved enumeration member with no payload codec.
    UnsupportedContentType,
    /// The payload region is smaller than its content type requires.
    PayloadTooShort,
    /// Metadata bytes are not valid UTF-8.
    InvalidEncoding,
    /// A container was built without setting a payload.
    MissingPayload,
    /// The file extension names no loadable format.
    UnsupportedFormat,
    /// Reading the file, or decoding a raster image, failed.
    IoFailure,
}

impl AliceError {
    /// A short human-readable description of the error.
    pub fn message(&self) -> (r: &'static str)
        ensures
            r@.len() > 0,
    {
        let s: &'static str = match self {
            AliceError::TooShort => "header too short",
            AliceError::BadMagic => "invalid magic bytes",
            AliceError::UnknownContentType => "unknown content type",
            AliceError::UnsupportedContentType => "unsupported content type",
            AliceError::PayloadTooShort => "payload too short",
            AliceError::InvalidEncoding => "invalid UTF-8 in metadata",
            AliceError::MissingPayload => "payload not set",
            AliceError::UnsupportedFormat => "unknown file format",
            AliceError::IoFailure => "file could not be read or decoded",
        };
        proof {
            reveal_strlit("header too short");
            reveal_strlit("invalid magic bytes");
            reveal_strlit("unknown content type");
            reveal_strlit("unsupported content type");
            reveal_strlit("payload too short");
            reveal_strlit("invalid UTF-8 in metadata");
            reveal_strlit("payload not set");
            reveal_strlit("unknown file format");
            reveal_strlit("file could not be read or decoded");
        }
        s
    }
}

} // verus!
