//! CAN and LIN frames as the readers and writers exchange them with an application.

use crate::span::Span;
use vstd::prelude::*;

verus! {

/// The bit of a CAN identifier that marks an extended one.
pub const CAN_EXT_FLAG: u32 = 0x8000_0000;

/// The bits of an extended CAN identifier.
pub const CAN_EXT_ID_MASK: u32 = 0x1FFF_FFFF;

/// Kind of a CAN frame. The associated constants name the bits.
#[derive(Debug, Clone, Copy, PartialEq, Eq, Structural)]
pub struct FrameType(pub u32);

impl FrameType {
    pub const CAN20B: u32 = 0;

    pub const FD: u32 = 1;

    pub const BRS: u32 = 2;

    pub const FD_BRS: u32 = 3;

    /// Whether every bit of `other` is set.
    pub fn contains(self, other: Self) -> (r: bool)
        ensures
            r == (self.0 & other.0 == other.0),
    {
        self.0 & other.0 == other.0
    }

    /// Whether the frame is a classic CAN frame.
    pub open spec fn spec_is_classic(self) -> bool {
        self.0 & FrameType::FD == 0
    }

    /// Whether the frame is a classic CAN frame.
    pub fn is_classic(self) -> (r: bool)
        ensures
            r == self.spec_is_classic(),
    {
        self.0 & FrameType::FD == 0
    }
}

/// A CAN frame.
#[derive(Debug, Clone, PartialEq, Eq)]
pub struct CanFrame {
    /// Name of the bus.
    pub bus_id: String,
    /// Identifier; that of an extended frame has [`CAN_EXT_FLAG`] set.
    pub id: u32,
    pub data: Vec<u8>,
    /// Whether the frame was sent by the tool.
    pub is_master_frame: bool,
    pub frame_type: FrameType,
    /// Time since the start of the recording.
    pub elapsed: Span,
}

impl CanFrame {
    /// Whether the frame has the given contents.
    pub open spec fn is_frame(
        self,
        bus_id: Seq<char>,
        id: u32,
        data: Seq<u8>,
        is_master_frame: bool,
        frame_type: u32,
    ) -> bool {
        &&& self.bus_id@ == bus_id
        &&& self.id == id
        &&& self.data@ == data
        &&& self.is_master_frame == is_master_frame
        &&& self.frame_type.0 == frame_type
        &&& self.elapsed.valid()
        &&& self.elapsed.total() == 0
    }

    pub fn new(
        bus_id: String,
        id: u32,
        data: Vec<u8>,
        is_master_frame: bool,
        frame_type: FrameType,
    ) -> (r: CanFrame)
        ensures
            r.is_frame(bus_id@, id, data@, is_master_frame, frame_type.0),
    {
        CanFrame { bus_id, id, data, is_master_frame, frame_type, elapsed: Span::zero() }
    }

    /// Whether the identifier is an extended one.
    pub fn is_extended_id(&self) -> (r: bool)
        ensures
            r == (self.id & CAN_EXT_FLAG != 0),
    {
        self.id & CAN_EXT_FLAG != 0
    }

    /// The identifier without its mark.
    pub fn raw_id(&self) -> (r: u32)
        ensures
            r == self.id & CAN_EXT_ID_MASK,
    {
        self.id & CAN_EXT_ID_MASK
    }
}

/// How the checksum of a LIN frame is formed.
#[derive(Debug, Clone, Copy, PartialEq, Eq, Structural)]
pub enum LinChecksumType {
    CalcChecksum,
    CalcChecksumEnhanced,
}

/// A LIN frame.
#[derive(Debug, Clone, PartialEq, Eq)]
pub struct LinFrame {
    /// Name of the bus.
    pub bus_id: String,
    pub id: u8,
    pub data: Vec<u8>,
    /// Whether the frame was sent by the tool.
    pub is_master_frame: bool,
    /// Time since the start of the recording.
    pub elapsed: Span,
}

impl LinFrame {
    pub fn new(bus_id: String, id: u8, data: Vec<u8>, is_master_frame: bool) -> (r: LinFrame)
        ensures
            r.bus_id@ == bus_id@,
            r.id == id,
            r.data@ == data@,
            r.is_master_frame == is_master_frame,
            r.elapsed.valid(),
            r.elapsed.total() == 0,
    {
        LinFrame { bus_id, id, data, is_master_frame, elapsed: Span::zero() }
    }
}

} // verus!
