//! Streaming-protocol packet headers and motion vectors.

use vstd::prelude::*;

verus! {

/// Packet kinds of the streaming wire protocol.
#[derive(Debug, Clone, Copy, PartialEq, Eq, Structural)]
pub enum AspPacketType {
    /// Keyframe: full procedural description.
    IPacket,
    /// Delta: incremental updates and motion vectors.
    DPacket,
    /// Correction: region-based pixel corrections.
    CPacket,
    /// Sync: flow-control commands.
    SPacket,
}

impl AspPacketType {
    /// Which packet kind a type byte denotes, if any (the bytes are the
    /// ASCII letters `I`, `D`, `C` and `S`).
    pub open spec fn spec_from_u8(value: u8) -> Option<AspPacketType> {
        if value == 0x49 {
            Some(AspPacketType::IPacket)
        } else if value == 0x44 {
            Some(AspPacketType::DPacket)
        } else if value == 0x43 {
            Some(AspPacketType::CPacket)
        } else if value == 0x53 {
            Some(AspPacketType::SPacket)
        } else {
            None
        }
    }

    /// Map a type byte to its packet kind.
    pub fn from_u8(value: u8) -> (r: Option<AspPacketType>)
        ensures
            r == AspPacketType::spec_from_u8(value),
    {
        match value {
            0x49 => Some(AspPacketType::IPacket),
            0x44 => Some(AspPacketType::DPacket),
            0x43 => Some(AspPacketType::CPacket),
            0x53 => Some(AspPacketType::SPacket),
            _ => None,
        }
    }
}

/// Streaming packet header (16 bytes on the wire).
#[derive(Debug, Clone, Copy)]
pub struct AspHeader {
    /// Magic: `ASP` followed by the byte 1.
    pub magic: [u8; 4],
    /// Packet type byte.
    pub packet_type: u8,
    /// Flags.
    pub flags: u8,
    /// Reserved.
    pub reserved: u16,
    /// Sequence number.
    pub sequence: u32,
    /// Payload size in bytes.
    pub payload_size: u32,
}

/// The streaming protocol magic bytes: `ASP` and a version byte of one.
pub open spec fn spec_asp_magic() -> Seq<u8> {
    seq![0x41u8, 0x53u8, 0x50u8, 0x01u8]
}

impl AspHeader {
    /// A header is valid exactly when its magic matches the protocol
    /// magic.
    pub fn is_valid(&self) -> (r: bool)
        ensures
            r == (self.magic@ == spec_asp_magic()),
    {
        let ok = self.magic[0] == 0x41 && self.magic[1] == 0x53 && self.magic[2] == 0x50
            && self.magic[3] == 0x01;
        proof {
            if ok {
                assert(self.magic@ =~= spec_asp_magic());
            } else {
                assert(self.magic@ != spec_asp_magic());
            }
        }
        ok
    }
}

/// A compact two-byte motion vector.
#[derive(Debug, Clone, Copy, PartialEq, Eq, Structural)]
pub struct MotionVectorCompact {
    pub dx: i8,
    pub dy: i8,
}

} // verus!
