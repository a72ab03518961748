//! Flag sets of BLF objects. The associated constants name the bits.

use vstd::prelude::*;

verus! {

/// Identifier of the application that wrote a file.
#[derive(Debug, Clone, Copy, Default, PartialEq, Eq, Structural)]
pub struct AppId(pub u8);

impl AppId {
    pub const UNKNOWN: u8 = 0;

    pub const CANALYZER: u8 = 1;

    pub const CANOE: u8 = 2;

    pub const CANSTRESS: u8 = 3;

    pub const CANLOG: u8 = 4;

    pub const CANAPE: u8 = 5;

    pub const CANCASEXL_LOG: u8 = 6;

    pub const VLCONFIG: u8 = 7;

    pub const PORSCHELOGGER: u8 = 200;

    pub const CAETECLOGGER: u8 = 201;

    pub const VECTORNETWORKSIMULATOR: u8 = 202;

    pub const IPETRONIKLOGGER: u8 = 203;

    pub const RT_PK: u8 = 204;

    pub const PIKETEC: u8 = 205;

    pub const SPARKS: u8 = 206;

    pub fn bits(self) -> (r: u8)
        ensures
            r == self.0,
    {
        self.0
    }

    /// Whether every bit of `other` is set.
    pub fn contains(self, other: Self) -> (r: bool)
        ensures
            r == (self.0 & other.0 == other.0),
    {
        self.0 & other.0 == other.0
    }

    pub fn from_bits(bits: u8) -> (r: Self)
        ensures
            r.0 == bits,
    {
        Self(bits)
    }
}

impl std::ops::BitOr for AppId {
    type Output = Self;

    fn bitor(self, rhs: Self) -> (r: Self) {
        Self(self.0 | rhs.0)
    }
}

impl vstd::std_specs::ops::BitOrSpecImpl for AppId {
    open spec fn obeys_bitor_spec() -> bool {
        true
    }

    open spec fn bitor_req(self, rhs: Self) -> bool {
        true
    }

    open spec fn bitor_spec(self, rhs: Self) -> Self {
        AppId(self.0 | rhs.0)
    }
}

impl std::ops::BitAnd for AppId {
    type Output = Self;

    fn bitand(self, rhs: Self) -> (r: Self) {
        Self(self.0 & rhs.0)
    }
}

impl vstd::std_specs::ops::BitAndSpecImpl for AppId {
    open spec fn obeys_bitand_spec() -> bool {
        true
    }

    open spec fn bitand_req(self, rhs: Self) -> bool {
        true
    }

    open spec fn bitand_spec(self, rhs: Self) -> Self {
        AppId(self.0 & rhs.0)
    }
}

/// Unit of an object's timestamp.
#[derive(Debug, Clone, Copy, Default, PartialEq, Eq, Structural)]
pub struct ObjectFlags(pub u32);

impl ObjectFlags {
    pub const TIME_TEN_MICS: u32 = 1;

    pub const TIME_ONE_NANS: u32 = 2;

    pub fn bits(self) -> (r: u32)
        ensures
            r == self.0,
    {
        self.0
    }

    /// Whether every bit of `other` is set.
    pub fn contains(self, other: Self) -> (r: bool)
        ensures
            r == (self.0 & other.0 == other.0),
    {
        self.0 & other.0 == other.0
    }

    pub fn from_bits(bits: u32) -> (r: Self)
        ensures
            r.0 == bits,
    {
        Self(bits)
    }
}

impl std::ops::BitOr for ObjectFlags {
    type Output = Self;

    fn bitor(self, rhs: Self) -> (r: Self) {
        Self(self.0 | rhs.0)
    }
}

impl vstd::std_specs::ops::BitOrSpecImpl for ObjectFlags {
    open spec fn obeys_bitor_spec() -> bool {
        true
    }

    open spec fn bitor_req(self, rhs: Self) -> bool {
        true
    }

    open spec fn bitor_spec(self, rhs: Self) -> Self {
        ObjectFlags(self.0 | rhs.0)
    }
}

impl std::ops::BitAnd for ObjectFlags {
    type Output = Self;

    fn bitand(self, rhs: Self) -> (r: Self) {
        Self(self.0 & rhs.0)
    }
}

impl vstd::std_specs::ops::BitAndSpecImpl for ObjectFlags {
    open spec fn obeys_bitand_spec() -> bool {
        true
    }

    open spec fn bitand_req(self, rhs: Self) -> bool {
        true
    }

    open spec fn bitand_spec(self, rhs: Self) -> Self {
        ObjectFlags(self.0 & rhs.0)
    }
}

/// Direction and frame flags of a CAN message.
#[derive(Debug, Clone, Copy, Default, PartialEq, Eq, Structural)]
pub struct CanFlags(pub u8);

impl CanFlags {
    pub const RX: u8 = 0;

    pub const TX: u8 = 1;

    pub const NERR: u8 = 0x20;

    pub const WU: u8 = 0x40;

    pub const RTR: u8 = 0x80;

    pub fn bits(self) -> (r: u8)
        ensures
            r == self.0,
    {
        self.0
    }

    /// Whether every bit of `other` is set.
    pub fn contains(self, other: Self) -> (r: bool)
        ensures
            r == (self.0 & other.0 == other.0),
    {
        self.0 & other.0 == other.0
    }

    pub fn from_bits(bits: u8) -> (r: Self)
        ensures
            r.0 == bits,
    {
        Self(bits)
    }
}

impl std::ops::BitOr for CanFlags {
    type Output = Self;

    fn bitor(self, rhs: Self) -> (r: Self) {
        Self(self.0 | rhs.0)
    }
}

impl vstd::std_specs::ops::BitOrSpecImpl for CanFlags {
    open spec fn obeys_bitor_spec() -> bool {
        true
    }

    open spec fn bitor_req(self, rhs: Self) -> bool {
        true
    }

    open spec fn bitor_spec(self, rhs: Self) -> Self {
        CanFlags(self.0 | rhs.0)
    }
}

impl std::ops::BitAnd for CanFlags {
    type Output = Self;

    fn bitand(self, rhs: Self) -> (r: Self) {
        Self(self.0 & rhs.0)
    }
}

impl vstd::std_specs::ops::BitAndSpecImpl for CanFlags {
    open spec fn obeys_bitand_spec() -> bool {
        true
    }

    open spec fn bitand_req(self, rhs: Self) -> bool {
        true
    }

    open spec fn bitand_spec(self, rhs: Self) -> Self {
        CanFlags(self.0 & rhs.0)
    }
}

/// CAN FD flags of a CAN FD message.
#[derive(Debug, Clone, Copy, Default, PartialEq, Eq, Structural)]
pub struct CanFdFlags(pub u8);

impl CanFdFlags {
    pub const EDL: u8 = 1;

    pub const BRS: u8 = 2;

    pub const ESI: u8 = 4;

    pub fn bits(self) -> (r: u8)
        ensures
            r == self.0,
    {
        self.0
    }

    /// Whether every bit of `other` is set.
    pub fn contains(self, other: Self) -> (r: bool)
        ensures
            r == (self.0 & other.0 == other.0),
    {
        self.0 & other.0 == other.0
    }

    pub fn from_bits(bits: u8) -> (r: Self)
        ensures
            r.0 == bits,
    {
        Self(bits)
    }
}

impl std::ops::BitOr for CanFdFlags {
    type Output = Self;

    fn bitor(self, rhs: Self) -> (r: Self) {
        Self(self.0 | rhs.0)
    }
}

impl vstd::std_specs::ops::BitOrSpecImpl for CanFdFlags {
    open spec fn obeys_bitor_spec() -> bool {
        true
    }

    open spec fn bitor_req(self, rhs: Self) -> bool {
        true
    }

    open spec fn bitor_spec(self, rhs: Self) -> Self {
        CanFdFlags(self.0 | rhs.0)
    }
}

impl std::ops::BitAnd for CanFdFlags {
    type Output = Self;

    fn bitand(self, rhs: Self) -> (r: Self) {
        Self(self.0 & rhs.0)
    }
}

impl vstd::std_specs::ops::BitAndSpecImpl for CanFdFlags {
    open spec fn obeys_bitand_spec() -> bool {
        true
    }

    open spec fn bitand_req(self, rhs: Self) -> bool {
        true
    }

    open spec fn bitand_spec(self, rhs: Self) -> Self {
        CanFdFlags(self.0 & rhs.0)
    }
}

/// CAN FD flags of a 64-byte CAN FD message.
#[derive(Debug, Clone, Copy, Default, PartialEq, Eq, Structural)]
pub struct CanFd64Flags(pub u32);

impl CanFd64Flags {
    pub const R: u32 = 2;

    pub const NERR: u32 = 4;

    pub const HIGH_VOLTAGE_WAKEUP: u32 = 8;

    pub const RR_FRAME: u32 = 0x10;

    pub const TX_ACK: u32 = 0x40;

    pub const TX_REQ: u32 = 0x80;

    pub const SRR: u32 = 0x200;

    pub const R0: u32 = 0x400;

    pub const R1: u32 = 0x800;

    pub const EDL: u32 = 0x1000;

    pub const BRS: u32 = 0x2000;

    pub const ESI: u32 = 0x4000;

    pub fn bits(self) -> (r: u32)
        ensures
            r == self.0,
    {
        self.0
    }

    /// Whether every bit of `other` is set.
    pub fn contains(self, other: Self) -> (r: bool)
        ensures
            r == (self.0 & other.0 == other.0),
    {
        self.0 & other.0 == other.0
    }

    pub fn from_bits(bits: u32) -> (r: Self)
        ensures
            r.0 == bits,
    {
        Self(bits)
    }
}

impl std::ops::BitOr for CanFd64Flags {
    type Output = Self;

    fn bitor(self, rhs: Self) -> (r: Self) {
        Self(self.0 | rhs.0)
    }
}

impl vstd::std_specs::ops::BitOrSpecImpl for CanFd64Flags {
    open spec fn obeys_bitor_spec() -> bool {
        true
    }

    open spec fn bitor_req(self, rhs: Self) -> bool {
        true
    }

    open spec fn bitor_spec(self, rhs: Self) -> Self {
        CanFd64Flags(self.0 | rhs.0)
    }
}

impl std::ops::BitAnd for CanFd64Flags {
    type Output = Self;

    fn bitand(self, rhs: Self) -> (r: Self) {
        Self(self.0 & rhs.0)
    }
}

impl vstd::std_specs::ops::BitAndSpecImpl for CanFd64Flags {
    open spec fn obeys_bitand_spec() -> bool {
        true
    }

    open spec fn bitand_req(self, rhs: Self) -> bool {
        true
    }

    open spec fn bitand_spec(self, rhs: Self) -> Self {
        CanFd64Flags(self.0 & rhs.0)
    }
}

/// Error code capture flags.
#[derive(Debug, Clone, Copy, Default, PartialEq, Eq, Structural)]
pub struct EccFlags(pub u8);

impl EccFlags {
    pub const NONE: u8 = 0;

    pub const BIT_ERROR: u8 = 1;

    pub const FORM_ERROR: u8 = 2;

    pub const STUFF_ERROR: u8 = 4;

    pub const OTHER_ERROR: u8 = 8;

    pub const CRC_ERROR: u8 = 0x10;

    pub const ACK_DEL_ERROR: u8 = 0x20;

    pub const TX_NAK_ERROR: u8 = 0x40;

    pub const RX_ERROR: u8 = 0x80;

    pub const TX_ERROR: u8 = 192;

    pub fn bits(self) -> (r: u8)
        ensures
            r == self.0,
    {
        self.0
    }

    /// Whether every bit of `other` is set.
    pub fn contains(self, other: Self) -> (r: bool)
        ensures
            r == (self.0 & other.0 == other.0),
    {
        self.0 & other.0 == other.0
    }

    pub fn from_bits(bits: u8) -> (r: Self)
        ensures
            r.0 == bits,
    {
        Self(bits)
    }
}

impl std::ops::BitOr for EccFlags {
    type Output = Self;

    fn bitor(self, rhs: Self) -> (r: Self) {
        Self(self.0 | rhs.0)
    }
}

impl vstd::std_specs::ops::BitOrSpecImpl for EccFlags {
    open spec fn obeys_bitor_spec() -> bool {
        true
    }

    open spec fn bitor_req(self, rhs: Self) -> bool {
        true
    }

    open spec fn bitor_spec(self, rhs: Self) -> Self {
        EccFlags(self.0 | rhs.0)
    }
}

impl std::ops::BitAnd for EccFlags {
    type Output = Self;

    fn bitand(self, rhs: Self) -> (r: Self) {
        Self(self.0 & rhs.0)
    }
}

impl vstd::std_specs::ops::BitAndSpecImpl for EccFlags {
    open spec fn obeys_bitand_spec() -> bool {
        true
    }

    open spec fn bitand_req(self, rhs: Self) -> bool {
        true
    }

    open spec fn bitand_spec(self, rhs: Self) -> Self {
        EccFlags(self.0 & rhs.0)
    }
}

/// Flags of an extended CAN error frame.
#[derive(Debug, Clone, Copy, Default, PartialEq, Eq, Structural)]
pub struct CanErrorExtFlags(pub u16);

impl CanErrorExtFlags {
    pub const NONE: u16 = 0;

    pub const RX: u16 = 0x10;

    pub const BIT_ERROR: u16 = 0x20;

    pub const FORM_ERROR: u16 = 0x40;

    pub const STUFF_ERROR: u16 = 0x80;

    pub const OTHER_ERROR: u16 = 0x100;

    pub const CRC_ERROR: u16 = 0x200;

    pub const ACK_DEL_ERROR: u16 = 0x400;

    pub const TX_NAK_ERROR: u16 = 0x800;

    pub const RX_ERROR: u16 = 0x1000;

    pub const TX_ERROR: u16 = 6144;

    pub fn bits(self) -> (r: u16)
        ensures
            r == self.0,
    {
        self.0
    }

    /// Whether every bit of `other` is set.
    pub fn contains(self, other: Self) -> (r: bool)
        ensures
            r == (self.0 & other.0 == other.0),
    {
        self.0 & other.0 == other.0
    }

    pub fn from_bits(bits: u16) -> (r: Self)
        ensures
            r.0 == bits,
    {
        Self(bits)
    }
}

impl std::ops::BitOr for CanErrorExtFlags {
    type Output = Self;

    fn bitor(self, rhs: Self) -> (r: Self) {
        Self(self.0 | rhs.0)
    }
}

impl vstd::std_specs::ops::BitOrSpecImpl for CanErrorExtFlags {
    open spec fn obeys_bitor_spec() -> bool {
        true
    }

    open spec fn bitor_req(self, rhs: Self) -> bool {
        true
    }

    open spec fn bitor_spec(self, rhs: Self) -> Self {
        CanErrorExtFlags(self.0 | rhs.0)
    }
}

impl std::ops::BitAnd for CanErrorExtFlags {
    type Output = Self;

    fn bitand(self, rhs: Self) -> (r: Self) {
        Self(self.0 & rhs.0)
    }
}

impl vstd::std_specs::ops::BitAndSpecImpl for CanErrorExtFlags {
    open spec fn obeys_bitand_spec() -> bool {
        true
    }

    open spec fn bitand_req(self, rhs: Self) -> bool {
        true
    }

    open spec fn bitand_spec(self, rhs: Self) -> Self {
        CanErrorExtFlags(self.0 & rhs.0)
    }
}

/// Which fields of an extended CAN error frame are valid.
#[derive(Debug, Clone, Copy, Default, PartialEq, Eq, Structural)]
pub struct CanErrorExtValidFlags(pub u32);

impl CanErrorExtValidFlags {
    pub const NOT_SET: u32 = 0;

    pub const SJA1000_ECC: u32 = 1;

    pub const ECC: u32 = 2;

    pub const POSITION: u32 = 4;

    pub const FRAME_LENGTH: u32 = 8;

    pub fn bits(self) -> (r: u32)
        ensures
            r == self.0,
    {
        self.0
    }

    /// Whether every bit of `other` is set.
    pub fn contains(self, other: Self) -> (r: bool)
        ensures
            r == (self.0 & other.0 == other.0),
    {
        self.0 & other.0 == other.0
    }

    pub fn from_bits(bits: u32) -> (r: Self)
        ensures
            r.0 == bits,
    {
        Self(bits)
    }
}

impl std::ops::BitOr for CanErrorExtValidFlags {
    type Output = Self;

    fn bitor(self, rhs: Self) -> (r: Self) {
        Self(self.0 | rhs.0)
    }
}

impl vstd::std_specs::ops::BitOrSpecImpl for CanErrorExtValidFlags {
    open spec fn obeys_bitor_spec() -> bool {
        true
    }

    open spec fn bitor_req(self, rhs: Self) -> bool {
        true
    }

    open spec fn bitor_spec(self, rhs: Self) -> Self {
        CanErrorExtValidFlags(self.0 | rhs.0)
    }
}

impl std::ops::BitAnd for CanErrorExtValidFlags {
    type Output = Self;

    fn bitand(self, rhs: Self) -> (r: Self) {
        Self(self.0 & rhs.0)
    }
}

impl vstd::std_specs::ops::BitAndSpecImpl for CanErrorExtValidFlags {
    open spec fn obeys_bitand_spec() -> bool {
        true
    }

    open spec fn bitand_req(self, rhs: Self) -> bool {
        true
    }

    open spec fn bitand_spec(self, rhs: Self) -> Self {
        CanErrorExtValidFlags(self.0 & rhs.0)
    }
}

} // verus!
