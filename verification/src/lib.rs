//! ALICE-View core: the binary container codec ("store equations, not pixels")
//! and the decode orchestration that turns container bytes into a normalized,
//! content-agnostic rendering model.
//!
//! Floating-point wire fields (noise scale, fractal centers, and so on) are
//! carried as their IEEE-754 bit patterns so that parsing and serialization
//! are bit-exact and fully checkable.

mod alz;
mod asp;
mod container;
mod decoder;
mod errors;
mod export;
mod floatfmt;
mod header;
mod metadata;
mod numfmt;
mod paths;
mod payload;
mod sdf_panel;
mod viewer;
mod wire;

pub use alz::{AlzContentType, AlzHeader};
pub use asp::{AspHeader, AspPacketType, MotionVectorCompact};
pub use container::{AliceFile, AliceFileBuilder};
pub use decoder::{ContentType, Decoder, FractalType, ProceduralContent, SdfInfo};
pub use errors::AliceError;
pub use export::{ExportFormat, ExportStatus};
pub use header::{AliceContentType, AliceHeader, ALICE_HEADER_SIZE, ALICE_VERSION};
pub use metadata::AliceMetadata;
pub use numfmt::format_bytes;
pub use paths::{classify_path, is_asdf_file, LoadRoute};
pub use payload::{AlicePayload, FractalPayload, LinearPayload, PerlinPayload,
    FRACTAL_PAYLOAD_SIZE, LINEAR_PAYLOAD_SIZE, PERLIN_PAYLOAD_SIZE};
pub use sdf_panel::{SdfPanel, SdfScene};
pub use viewer::{BodyCounts, Precision, RenderMode, XRayType};
