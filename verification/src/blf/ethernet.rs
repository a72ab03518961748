//! Ethernet BLF event objects.

use crate::blf::bytes::{
    le_u16, le_u32, le_u64, lemma_field_bytes, lemma_field_u16, lemma_field_u32, lemma_field_u64,
    lemma_field_u8, lemma_le_u16_at, lemma_le_u32_at, lemma_le_u64_at, lemma_low16, lemma_low32,
    lemma_starts_with_self, low16, low32, low_u16, put_bytes, put_i16, put_u16, put_u32, put_u64, put_u8, read_array,
    read_bytes, read_i16, read_u16, read_u32, read_u64, signed16, size2_u32, size_u32, u16_at,
    u32_at, u64_at, unsigned16,
    offsets_fit,
};
use crate::blf::error::{parse_err, Failure, Result};
use crate::blf::header::LObj;
use crate::text::{dec, push_dec};
use vstd::prelude::*;

verus! {

/// How reading a header and checking the size of its object fails, if it does.
pub open spec fn object_failure(s: Seq<u8>, base: int, minimum: int) -> Option<Failure> {
    let size = u32_at(s, 8);
    if LObj::failure(s, base) is Some {
        LObj::failure(s, base)
    } else if size < minimum || size > s.len() {
        Some(
            Failure::Parse(
                base,
                "Ethernet object size "@ + dec(size as nat) + " is out of bounds"@,
            ),
        )
    } else {
        None
    }
}

fn checked_object(bytes: &[u8], base: u64, minimum: usize) -> (r: Result<LObj>)
    requires
        offsets_fit(base, bytes.len(), 16),
    ensures
        match r {
            Ok(v) => {
                &&& object_failure(bytes@, base as int, minimum as int) is None
                &&& v.reads(bytes@)
                &&& v.valid()
                &&& minimum <= v.base.object_size <= bytes.len()
            },
            Err(e) => object_failure(bytes@, base as int, minimum as int) == Some(e@),
        },
{
    let header = LObj::parse(bytes, base)?;
    let size: usize = header.base.object_size as usize;
    if size < minimum || size > bytes.len() {
        let mut message = "Ethernet object size ".to_string();
        push_dec(&mut message, size as u64);
        message.append(" is out of bounds");
        return parse_err(base, message);
    }
    Ok(header)
}

/// How taking a payload that ends at `end` out of an object of `size` bytes fails, if it
/// does.
pub open spec fn payload_failure(end: int, size: int, base: int) -> Option<Failure> {
    if end > size {
        Some(Failure::Parse(base, "Ethernet payload exceeds its object size"@))
    } else {
        None
    }
}

fn check_payload(end: usize, size: usize, base: u64) -> (r: Result<()>)
    ensures
        match r {
            Ok(_) => {
                &&& payload_failure(end as int, size as int, base as int) is None
                &&& end <= size
            },
            Err(e) => payload_failure(end as int, size as int, base as int) == Some(e@),
        },
{
    if end > size {
        return parse_err(base, "Ethernet payload exceeds its object size".to_string());
    }
    Ok(())
}

/// Legacy Ethernet frame with source/destination MAC addresses and VLAN fields.
#[derive(Debug, Clone, PartialEq, Eq)]
pub struct EthernetFrame {
    pub header: LObj,
    pub source_address: [u8; 6],
    pub channel: u16,
    pub destination_address: [u8; 6],
    pub dir: u16,
    pub ether_type: u16,
    pub tpid: u16,
    pub tci: u16,
    pub reserved: u64,
    pub payload: Vec<u8>,
    pub trailing: Vec<u8>,
}

impl EthernetFrame {
    pub const FIXED_SIZE: usize = 64;

    /// How reading the object fails, if it does.
    pub open spec fn failure(s: Seq<u8>, base: int) -> Option<Failure> {
        if object_failure(s, base, 64) is Some {
            object_failure(s, base, 64)
        } else {
            payload_failure(64 + u16_at(s, 54), u32_at(s, 8) as int, base)
        }
    }

    /// Whether the fields are those that stand in the bytes.
    pub open spec fn reads(self, s: Seq<u8>) -> bool {
        let end1 = 64 + u16_at(s, 54);
        &&& self.header.reads(s)
        &&& self.source_address@ == s.subrange(32, 38)
        &&& self.channel == u16_at(s, 38)
        &&& self.destination_address@ == s.subrange(40, 46)
        &&& self.dir == u16_at(s, 46)
        &&& self.ether_type == u16_at(s, 48)
        &&& self.tpid == u16_at(s, 50)
        &&& self.tci == u16_at(s, 52)
        &&& self.reserved == u64_at(s, 56)
        &&& self.payload@ == s.subrange(64, end1)
        &&& self.trailing@ == s.subrange(end1, u32_at(s, 8) as int)
    }

    /// Number of bytes of the object.
    pub open spec fn total(self) -> int {
        (64 + self.payload@.len() + self.trailing@.len()) as int
    }

    /// The bytes of the object.
    pub open spec fn encoding(self) -> Seq<u8> {
        self.header.sized_encoding(low32(self.total())) + self.source_address@
            + le_u16(self.channel) + self.destination_address@ + le_u16(self.dir)
            + le_u16(self.ether_type) + le_u16(self.tpid) + le_u16(self.tci)
            + le_u16(low16(self.payload@.len() as int)) + le_u64(self.reserved) + self.payload@
            + self.trailing@
    }

    /// Whether two objects agree in every field.
    pub open spec fn same(self, other: Self) -> bool {
        &&& self.header.same(other.header)
        &&& self.source_address@ == other.source_address@
        &&& self.channel == other.channel
        &&& self.destination_address@ == other.destination_address@
        &&& self.dir == other.dir
        &&& self.ether_type == other.ether_type
        &&& self.tpid == other.tpid
        &&& self.tci == other.tci
        &&& self.reserved == other.reserved
        &&& self.payload@ == other.payload@
        &&& self.trailing@ == other.trailing@
    }

    pub fn parse(bytes: &[u8], base: u64) -> (r: Result<Self>)
        requires
            offsets_fit(base, bytes.len(), 16),
        ensures
            match r {
                Ok(v) => {
                    &&& Self::failure(bytes@, base as int) is None
                    &&& v.reads(bytes@)
                    &&& v.header.valid()
                    &&& 64 <= v.header.base.object_size <= bytes.len()
                },
                Err(e) => Self::failure(bytes@, base as int) == Some(e@),
            },
    {
        let header = checked_object(bytes, base, Self::FIXED_SIZE)?;
        let object_size: usize = header.base.object_size as usize;
        let end1: usize = Self::FIXED_SIZE + read_u16(bytes, 54) as usize;
        check_payload(end1, object_size, base)?;
        Ok(
            EthernetFrame {
                header,
                source_address: read_array::<6>(bytes, 32),
                channel: read_u16(bytes, 38),
                destination_address: read_array::<6>(bytes, 40),
                dir: read_u16(bytes, 46),
                ether_type: read_u16(bytes, 48),
                tpid: read_u16(bytes, 50),
                tci: read_u16(bytes, 52),
                reserved: read_u64(bytes, 56),
                payload: read_bytes(bytes, Self::FIXED_SIZE, end1),
                trailing: read_bytes(bytes, end1, object_size),
            },
        )
    }

    pub fn write_to(&self, out: &mut Vec<u8>)
        ensures
            final(out)@ == old(out)@ + self.encoding(),
    {
        self.header.write_sized(size2_u32(Self::FIXED_SIZE as u32, self.payload.len(), self.trailing.len()), out);
        put_bytes(out, &self.source_address);
        put_u16(out, self.channel);
        put_bytes(out, &self.destination_address);
        put_u16(out, self.dir);
        put_u16(out, self.ether_type);
        put_u16(out, self.tpid);
        put_u16(out, self.tci);
        put_u16(out, low_u16(self.payload.len()));
        put_u64(out, self.reserved);
        put_bytes(out, &self.payload);
        put_bytes(out, &self.trailing);
        proof {
            assert(out@ =~= old(out)@ + self.encoding());
        }
    }

    /// Whether the header fits the object, so that the bytes of the object can be read
    /// back.
    pub open spec fn canonical(self) -> bool {
        &&& self.header.plain()
        &&& self.header.base.object_size == self.total()
        &&& self.payload@.len() <= u16::MAX
    }

    /// Reading the bytes of a canonical object gives back its fields.
    pub proof fn law_read_of_write(self, base: int)
        requires
            self.canonical(),
        ensures
            self.encoding().len() == self.total(),
            Self::failure(self.encoding(), base) is None,
            self.reads(self.encoding()),
    {
        let s = self.encoding();
        lemma_low32(self.total());
        lemma_low16(self.payload@.len() as int);
        let c0 = self.header.encoding();
        let c1 = c0 + self.source_address@;
        let c2 = c1 + le_u16(self.channel);
        let c3 = c2 + self.destination_address@;
        let c4 = c3 + le_u16(self.dir);
        let c5 = c4 + le_u16(self.ether_type);
        let c6 = c5 + le_u16(self.tpid);
        let c7 = c6 + le_u16(self.tci);
        let c8 = c7 + le_u16(low16(self.payload@.len() as int));
        let c9 = c8 + le_u64(self.reserved);
        let c10 = c9 + self.payload@;
        lemma_starts_with_self(s);
        lemma_field_bytes(c10, self.trailing@, s);
        lemma_field_bytes(c9, self.payload@, s);
        lemma_field_u64(c8, self.reserved, s);
        lemma_field_u16(c7, low16(self.payload@.len() as int), s);
        lemma_field_u16(c6, self.tci, s);
        lemma_field_u16(c5, self.tpid, s);
        lemma_field_u16(c4, self.ether_type, s);
        lemma_field_u16(c3, self.dir, s);
        lemma_field_bytes(c2, self.destination_address@, s);
        lemma_field_u16(c1, self.channel, s);
        lemma_field_bytes(c0, self.source_address@, s);
        self.header.law_read_of_prefix(s, base);
    }

    /// Writing an object that was read gives back the bytes that it was read from.
    pub proof fn law_write_of_read(self, s: Seq<u8>)
        requires
            self.header.plain(),
            self.reads(s),
            s.len() == self.header.base.object_size,
            Self::failure(s, 0) is None,
            s.len() >= 64,
        ensures
            self.encoding() == s,
    {
        self.header.law_write_of_read(s);
        lemma_low32(self.total());
        lemma_low16(self.payload@.len() as int);
        lemma_le_u16_at(s, 38);
        lemma_le_u16_at(s, 46);
        lemma_le_u16_at(s, 48);
        lemma_le_u16_at(s, 50);
        lemma_le_u16_at(s, 52);
        lemma_le_u16_at(s, 54);
        lemma_le_u64_at(s, 56);
        assert(self.encoding() =~= s);
    }

    /// The bytes of an object determine it.
    pub proof fn law_reads_unique(self, other: Self, s: Seq<u8>)
        requires
            self.reads(s),
            other.reads(s),
        ensures
            self.same(other),
    {
        self.header.law_reads_unique(other.header, s);
    }
}

/// Ethernet receive error and the captured frame bytes.
#[derive(Debug, Clone, PartialEq, Eq)]
pub struct EthernetRxError {
    pub header: LObj,
    pub struct_length: u16,
    pub channel: u16,
    pub dir: u16,
    pub hardware_channel: u16,
    pub fcs: u32,
    pub reserved: u16,
    pub error: u32,
    pub frame_data: Vec<u8>,
    pub trailing: Vec<u8>,
}

impl EthernetRxError {
    pub const FIXED_SIZE: usize = 52;

    /// How reading the object fails, if it does.
    pub open spec fn failure(s: Seq<u8>, base: int) -> Option<Failure> {
        if object_failure(s, base, 52) is Some {
            object_failure(s, base, 52)
        } else {
            payload_failure(52 + u16_at(s, 44), u32_at(s, 8) as int, base)
        }
    }

    /// Whether the fields are those that stand in the bytes.
    pub open spec fn reads(self, s: Seq<u8>) -> bool {
        let end1 = 52 + u16_at(s, 44);
        &&& self.header.reads(s)
        &&& self.struct_length == u16_at(s, 32)
        &&& self.channel == u16_at(s, 34)
        &&& self.dir == u16_at(s, 36)
        &&& self.hardware_channel == u16_at(s, 38)
        &&& self.fcs == u32_at(s, 40)
        &&& self.reserved == u16_at(s, 46)
        &&& self.error == u32_at(s, 48)
        &&& self.frame_data@ == s.subrange(52, end1)
        &&& self.trailing@ == s.subrange(end1, u32_at(s, 8) as int)
    }

    /// Number of bytes of the object.
    pub open spec fn total(self) -> int {
        (52 + self.frame_data@.len() + self.trailing@.len()) as int
    }

    /// The bytes of the object.
    pub open spec fn encoding(self) -> Seq<u8> {
        self.header.sized_encoding(low32(self.total())) + le_u16(self.struct_length)
            + le_u16(self.channel) + le_u16(self.dir) + le_u16(self.hardware_channel)
            + le_u32(self.fcs) + le_u16(low16(self.frame_data@.len() as int))
            + le_u16(self.reserved) + le_u32(self.error) + self.frame_data@ + self.trailing@
    }

    /// Whether two objects agree in every field.
    pub open spec fn same(self, other: Self) -> bool {
        &&& self.header.same(other.header)
        &&& self.struct_length == other.struct_length
        &&& self.channel == other.channel
        &&& self.dir == other.dir
        &&& self.hardware_channel == other.hardware_channel
        &&& self.fcs == other.fcs
        &&& self.reserved == other.reserved
        &&& self.error == other.error
        &&& self.frame_data@ == other.frame_data@
        &&& self.trailing@ == other.trailing@
    }

    pub fn parse(bytes: &[u8], base: u64) -> (r: Result<Self>)
        requires
            offsets_fit(base, bytes.len(), 16),
        ensures
            match r {
                Ok(v) => {
                    &&& Self::failure(bytes@, base as int) is None
                    &&& v.reads(bytes@)
                    &&& v.header.valid()
                    &&& 52 <= v.header.base.object_size <= bytes.len()
                },
                Err(e) => Self::failure(bytes@, base as int) == Some(e@),
            },
    {
        let header = checked_object(bytes, base, Self::FIXED_SIZE)?;
        let object_size: usize = header.base.object_size as usize;
        let end1: usize = Self::FIXED_SIZE + read_u16(bytes, 44) as usize;
        check_payload(end1, object_size, base)?;
        Ok(
            EthernetRxError {
                header,
                struct_length: read_u16(bytes, 32),
                channel: read_u16(bytes, 34),
                dir: read_u16(bytes, 36),
                hardware_channel: read_u16(bytes, 38),
                fcs: read_u32(bytes, 40),
                reserved: read_u16(bytes, 46),
                error: read_u32(bytes, 48),
                frame_data: read_bytes(bytes, Self::FIXED_SIZE, end1),
                trailing: read_bytes(bytes, end1, object_size),
            },
        )
    }

    pub fn write_to(&self, out: &mut Vec<u8>)
        ensures
            final(out)@ == old(out)@ + self.encoding(),
    {
        self.header.write_sized(
            size2_u32(Self::FIXED_SIZE as u32, self.frame_data.len(), self.trailing.len()),
            out
        );
        put_u16(out, self.struct_length);
        put_u16(out, self.channel);
        put_u16(out, self.dir);
        put_u16(out, self.hardware_channel);
        put_u32(out, self.fcs);
        put_u16(out, low_u16(self.frame_data.len()));
        put_u16(out, self.reserved);
        put_u32(out, self.error);
        put_bytes(out, &self.frame_data);
        put_bytes(out, &self.trailing);
        proof {
            assert(out@ =~= old(out)@ + self.encoding());
        }
    }

    /// Whether the header fits the object, so that the bytes of the object can be read
    /// back.
    pub open spec fn canonical(self) -> bool {
        &&& self.header.plain()
        &&& self.header.base.object_size == self.total()
        &&& self.frame_data@.len() <= u16::MAX
    }

    /// Reading the bytes of a canonical object gives back its fields.
    pub proof fn law_read_of_write(self, base: int)
        requires
            self.canonical(),
        ensures
            self.encoding().len() == self.total(),
            Self::failure(self.encoding(), base) is None,
            self.reads(self.encoding()),
    {
        let s = self.encoding();
        lemma_low32(self.total());
        lemma_low16(self.frame_data@.len() as int);
        let c0 = self.header.encoding();
        let c1 = c0 + le_u16(self.struct_length);
        let c2 = c1 + le_u16(self.channel);
        let c3 = c2 + le_u16(self.dir);
        let c4 = c3 + le_u16(self.hardware_channel);
        let c5 = c4 + le_u32(self.fcs);
        let c6 = c5 + le_u16(low16(self.frame_data@.len() as int));
        let c7 = c6 + le_u16(self.reserved);
        let c8 = c7 + le_u32(self.error);
        let c9 = c8 + self.frame_data@;
        lemma_starts_with_self(s);
        lemma_field_bytes(c9, self.trailing@, s);
        lemma_field_bytes(c8, self.frame_data@, s);
        lemma_field_u32(c7, self.error, s);
        lemma_field_u16(c6, self.reserved, s);
        lemma_field_u16(c5, low16(self.frame_data@.len() as int), s);
        lemma_field_u32(c4, self.fcs, s);
        lemma_field_u16(c3, self.hardware_channel, s);
        lemma_field_u16(c2, self.dir, s);
        lemma_field_u16(c1, self.channel, s);
        lemma_field_u16(c0, self.struct_length, s);
        self.header.law_read_of_prefix(s, base);
    }

    /// Writing an object that was read gives back the bytes that it was read from.
    pub proof fn law_write_of_read(self, s: Seq<u8>)
        requires
            self.header.plain(),
            self.reads(s),
            s.len() == self.header.base.object_size,
            Self::failure(s, 0) is None,
            s.len() >= 52,
        ensures
            self.encoding() == s,
    {
        self.header.law_write_of_read(s);
        lemma_low32(self.total());
        lemma_low16(self.frame_data@.len() as int);
        lemma_le_u16_at(s, 32);
        lemma_le_u16_at(s, 34);
        lemma_le_u16_at(s, 36);
        lemma_le_u16_at(s, 38);
        lemma_le_u32_at(s, 40);
        lemma_le_u16_at(s, 44);
        lemma_le_u16_at(s, 46);
        lemma_le_u32_at(s, 48);
        assert(self.encoding() =~= s);
    }

    /// The bytes of an object determine it.
    pub proof fn law_reads_unique(self, other: Self, s: Seq<u8>)
        requires
            self.reads(s),
            other.reads(s),
        ensures
            self.same(other),
    {
        self.header.law_reads_unique(other.header, s);
    }
}

/// Ethernet link and PHY status. Version 2 adds the two reserved words.
#[derive(Debug, Clone, PartialEq, Eq)]
pub struct EthernetStatus {
    pub header: LObj,
    pub channel: u16,
    pub flags: u16,
    pub link_status: u8,
    pub ethernet_phy: u8,
    pub duplex: u8,
    pub mdi: u8,
    pub connector: u8,
    pub clock_mode: u8,
    pub pairs: u8,
    pub hardware_channel: u8,
    pub bitrate: u32,
    pub reserved1: Option<u32>,
    pub reserved2: Option<u32>,
    pub trailing: Vec<u8>,
}

impl EthernetStatus {
    pub const V1_SIZE: usize = 48;

    pub const V2_SIZE: usize = 56;

    /// How reading the object fails, if it does.
    pub open spec fn failure(s: Seq<u8>, base: int) -> Option<Failure> {
        object_failure(s, base, 48)
    }

    /// Whether the fields are those that stand in the bytes. An object of at least 56
    /// bytes has the reserved words.
    pub open spec fn reads(self, s: Seq<u8>) -> bool {
        let size = u32_at(s, 8);
        &&& self.header.reads(s)
        &&& self.channel == u16_at(s, 32)
        &&& self.flags == u16_at(s, 34)
        &&& self.link_status == s[36]
        &&& self.ethernet_phy == s[37]
        &&& self.duplex == s[38]
        &&& self.mdi == s[39]
        &&& self.connector == s[40]
        &&& self.clock_mode == s[41]
        &&& self.pairs == s[42]
        &&& self.hardware_channel == s[43]
        &&& self.bitrate == u32_at(s, 44)
        &&& self.reserved1 == (if size >= 56 { Some(u32_at(s, 48)) } else { None })
        &&& self.reserved2 == (if size >= 56 { Some(u32_at(s, 52)) } else { None })
        &&& self.trailing@ == s.subrange((if size >= 56 { 56 } else { 48 }), size as int)
    }

    /// Whether the reserved words are written.
    pub open spec fn extended(self) -> bool {
        self.reserved1 is Some || self.reserved2 is Some
    }

    /// Number of bytes of the object.
    pub open spec fn total(self) -> int {
        (if self.extended() { 56int } else { 48int }) + self.trailing@.len()
    }

    /// The reserved words as they are written; one that is missing beside the other is
    /// written as zero.
    pub open spec fn reserved_words(self) -> Seq<u8> {
        if self.extended() {
            le_u32(
                (match self.reserved1 {
                    Some(v) => v,
                    None => 0,
                }),
            ) + le_u32(
                (match self.reserved2 {
                    Some(v) => v,
                    None => 0,
                }),
            )
        } else {
            Seq::empty()
        }
    }

    /// The bytes of the object.
    pub open spec fn encoding(self) -> Seq<u8> {
        self.header.sized_encoding(low32(self.total())) + le_u16(self.channel) + le_u16(self.flags)
            + seq![self.link_status] + seq![self.ethernet_phy] + seq![self.duplex] + seq![self.mdi]
            + seq![self.connector] + seq![self.clock_mode] + seq![self.pairs]
            + seq![self.hardware_channel] + le_u32(self.bitrate) + self.reserved_words()
            + self.trailing@
    }

    /// Whether two objects agree in every field.
    pub open spec fn same(self, other: Self) -> bool {
        &&& self.header.same(other.header)
        &&& self.channel == other.channel
        &&& self.flags == other.flags
        &&& self.link_status == other.link_status
        &&& self.ethernet_phy == other.ethernet_phy
        &&& self.duplex == other.duplex
        &&& self.mdi == other.mdi
        &&& self.connector == other.connector
        &&& self.clock_mode == other.clock_mode
        &&& self.pairs == other.pairs
        &&& self.hardware_channel == other.hardware_channel
        &&& self.bitrate == other.bitrate
        &&& self.reserved1 == other.reserved1
        &&& self.reserved2 == other.reserved2
        &&& self.trailing@ == other.trailing@
    }

    pub fn parse(bytes: &[u8], base: u64) -> (r: Result<Self>)
        requires
            offsets_fit(base, bytes.len(), 16),
        ensures
            match r {
                Ok(v) => {
                    &&& Self::failure(bytes@, base as int) is None
                    &&& v.reads(bytes@)
                    &&& v.header.valid()
                    &&& 48 <= v.header.base.object_size <= bytes.len()
                },
                Err(e) => Self::failure(bytes@, base as int) == Some(e@),
            },
    {
        let header = checked_object(bytes, base, Self::V1_SIZE)?;
        let object_size: usize = header.base.object_size as usize;
        let extended = object_size >= Self::V2_SIZE;
        let trailing_start: usize = if extended {
            Self::V2_SIZE
        } else {
            Self::V1_SIZE
        };
        Ok(
            EthernetStatus {
                header,
                channel: read_u16(bytes, 32),
                flags: read_u16(bytes, 34),
                link_status: bytes[36],
                ethernet_phy: bytes[37],
                duplex: bytes[38],
                mdi: bytes[39],
                connector: bytes[40],
                clock_mode: bytes[41],
                pairs: bytes[42],
                hardware_channel: bytes[43],
                bitrate: read_u32(bytes, 44),
                reserved1: if extended { Some(read_u32(bytes, 48)) } else { None },
                reserved2: if extended { Some(read_u32(bytes, 52)) } else { None },
                trailing: read_bytes(bytes, trailing_start, object_size),
            },
        )
    }

    pub fn write_to(&self, out: &mut Vec<u8>)
        ensures
            final(out)@ == old(out)@ + self.encoding(),
    {
        let extended = self.reserved1.is_some() || self.reserved2.is_some();
        let fixed: usize = if extended {
            Self::V2_SIZE
        } else {
            Self::V1_SIZE
        };
        self.header.write_sized(size_u32(fixed as u32, self.trailing.len()), out);
        put_u16(out, self.channel);
        put_u16(out, self.flags);
        put_u8(out, self.link_status);
        put_u8(out, self.ethernet_phy);
        put_u8(out, self.duplex);
        put_u8(out, self.mdi);
        put_u8(out, self.connector);
        put_u8(out, self.clock_mode);
        put_u8(out, self.pairs);
        put_u8(out, self.hardware_channel);
        put_u32(out, self.bitrate);
        if extended {
            put_u32(out, self.reserved1.unwrap_or(0));
            put_u32(out, self.reserved2.unwrap_or(0));
        }
        put_bytes(out, &self.trailing);
        proof {
            assert(out@ =~= old(out)@ + self.encoding());
        }
    }

    /// Whether the header fits the object, so that the bytes of the object can be read
    /// back: both reserved words are there or none is, and without them the trailing
    /// bytes are too few to be taken for them.
    pub open spec fn canonical(self) -> bool {
        &&& self.header.plain()
        &&& self.header.base.object_size == self.total()
        &&& self.reserved1 is Some == self.reserved2 is Some
        &&& (self.reserved1 is None ==> self.trailing@.len() < 8)
    }

    /// Reading the bytes of a canonical object gives back its fields.
    pub proof fn law_read_of_write(self, base: int)
        requires
            self.canonical(),
        ensures
            self.encoding().len() == self.total(),
            Self::failure(self.encoding(), base) is None,
            self.reads(self.encoding()),
    {
        let s = self.encoding();
        lemma_low32(self.total());
        let c0 = self.header.encoding();
        let c1 = c0 + le_u16(self.channel);
        let c2 = c1 + le_u16(self.flags);
        let c3 = c2 + seq![self.link_status];
        let c4 = c3 + seq![self.ethernet_phy];
        let c5 = c4 + seq![self.duplex];
        let c6 = c5 + seq![self.mdi];
        let c7 = c6 + seq![self.connector];
        let c8 = c7 + seq![self.clock_mode];
        let c9 = c8 + seq![self.pairs];
        let c10 = c9 + seq![self.hardware_channel];
        let c11 = c10 + le_u32(self.bitrate);
        let d0 = c11 + self.reserved_words();
        lemma_starts_with_self(s);
        lemma_field_bytes(d0, self.trailing@, s);
        if self.extended() {
            let (w1, w2) = (self.reserved1->0, self.reserved2->0);
            let d1 = c11 + le_u32(w1);
            assert(d0 =~= d1 + le_u32(w2));
            lemma_field_u32(d1, w2, s);
            lemma_field_u32(c11, w1, s);
        } else {
            assert(d0 =~= c11);
        }
        lemma_field_u32(c10, self.bitrate, s);
        lemma_field_u8(c9, self.hardware_channel, s);
        lemma_field_u8(c8, self.pairs, s);
        lemma_field_u8(c7, self.clock_mode, s);
        lemma_field_u8(c6, self.connector, s);
        lemma_field_u8(c5, self.mdi, s);
        lemma_field_u8(c4, self.duplex, s);
        lemma_field_u8(c3, self.ethernet_phy, s);
        lemma_field_u8(c2, self.link_status, s);
        lemma_field_u16(c1, self.flags, s);
        lemma_field_u16(c0, self.channel, s);
        self.header.law_read_of_prefix(s, base);
    }

    /// Writing an object that was read gives back the bytes that it was read from.
    pub proof fn law_write_of_read(self, s: Seq<u8>)
        requires
            self.header.plain(),
            self.reads(s),
            s.len() == self.header.base.object_size,
            s.len() >= 48,
        ensures
            self.encoding() == s,
    {
        self.header.law_write_of_read(s);
        lemma_low32(self.total());
        lemma_le_u16_at(s, 32);
        lemma_le_u16_at(s, 34);
        lemma_le_u32_at(s, 44);
        if s.len() >= 56 {
            lemma_le_u32_at(s, 48);
            lemma_le_u32_at(s, 52);
        }
        assert(self.encoding() =~= s);
    }

    /// The bytes of an object determine it.
    pub proof fn law_reads_unique(self, other: Self, s: Seq<u8>)
        requires
            self.reads(s),
            other.reads(s),
        ensures
            self.same(other),
    {
        self.header.law_reads_unique(other.header, s);
    }
}

/// Ethernet hardware counters and signal-quality index.
#[derive(Debug, Clone, PartialEq, Eq)]
pub struct EthernetStatistic {
    pub header: LObj,
    pub channel: u16,
    pub reserved1: u16,
    pub reserved2: u32,
    pub receive_ok: u64,
    pub transmit_ok: u64,
    pub receive_error: u64,
    pub transmit_error: u64,
    pub receive_bytes: u64,
    pub transmit_bytes: u64,
    pub receive_no_buffer: u64,
    pub sqi: i16,
    pub hardware_channel: u16,
    pub reserved3: u32,
}

impl EthernetStatistic {
    pub const SIZE: usize = 104;

    /// How reading the object fails, if it does.
    pub open spec fn failure(s: Seq<u8>, base: int) -> Option<Failure> {
        object_failure(s, base, 104)
    }

    /// Whether the fields are those that stand in the bytes.
    pub open spec fn reads(self, s: Seq<u8>) -> bool {
        &&& self.header.reads(s)
        &&& self.channel == u16_at(s, 32)
        &&& self.reserved1 == u16_at(s, 34)
        &&& self.reserved2 == u32_at(s, 36)
        &&& self.receive_ok == u64_at(s, 40)
        &&& self.transmit_ok == u64_at(s, 48)
        &&& self.receive_error == u64_at(s, 56)
        &&& self.transmit_error == u64_at(s, 64)
        &&& self.receive_bytes == u64_at(s, 72)
        &&& self.transmit_bytes == u64_at(s, 80)
        &&& self.receive_no_buffer == u64_at(s, 88)
        &&& self.sqi == signed16(u16_at(s, 96))
        &&& self.hardware_channel == u16_at(s, 98)
        &&& self.reserved3 == u32_at(s, 100)
    }

    /// The bytes of the object.
    pub open spec fn encoding(self) -> Seq<u8> {
        self.header.encoding() + le_u16(self.channel) + le_u16(self.reserved1)
            + le_u32(self.reserved2) + le_u64(self.receive_ok) + le_u64(self.transmit_ok)
            + le_u64(self.receive_error) + le_u64(self.transmit_error) + le_u64(self.receive_bytes)
            + le_u64(self.transmit_bytes) + le_u64(self.receive_no_buffer)
            + le_u16(unsigned16(self.sqi)) + le_u16(self.hardware_channel) + le_u32(self.reserved3)
    }

    /// Whether two objects agree in every field.
    pub open spec fn same(self, other: Self) -> bool {
        &&& self.header.same(other.header)
        &&& self.channel == other.channel
        &&& self.reserved1 == other.reserved1
        &&& self.reserved2 == other.reserved2
        &&& self.receive_ok == other.receive_ok
        &&& self.transmit_ok == other.transmit_ok
        &&& self.receive_error == other.receive_error
        &&& self.transmit_error == other.transmit_error
        &&& self.receive_bytes == other.receive_bytes
        &&& self.transmit_bytes == other.transmit_bytes
        &&& self.receive_no_buffer == other.receive_no_buffer
        &&& self.sqi == other.sqi
        &&& self.hardware_channel == other.hardware_channel
        &&& self.reserved3 == other.reserved3
    }

    pub fn parse(bytes: &[u8], base: u64) -> (r: Result<Self>)
        requires
            offsets_fit(base, bytes.len(), 16),
        ensures
            match r {
                Ok(v) => {
                    &&& Self::failure(bytes@, base as int) is None
                    &&& v.reads(bytes@)
                    &&& v.header.valid()
                    &&& 104 <= v.header.base.object_size <= bytes.len()
                },
                Err(e) => Self::failure(bytes@, base as int) == Some(e@),
            },
    {
        let header = checked_object(bytes, base, Self::SIZE)?;
        Ok(
            EthernetStatistic {
                header,
                channel: read_u16(bytes, 32),
                reserved1: read_u16(bytes, 34),
                reserved2: read_u32(bytes, 36),
                receive_ok: read_u64(bytes, 40),
                transmit_ok: read_u64(bytes, 48),
                receive_error: read_u64(bytes, 56),
                transmit_error: read_u64(bytes, 64),
                receive_bytes: read_u64(bytes, 72),
                transmit_bytes: read_u64(bytes, 80),
                receive_no_buffer: read_u64(bytes, 88),
                sqi: read_i16(bytes, 96),
                hardware_channel: read_u16(bytes, 98),
                reserved3: read_u32(bytes, 100),
            },
        )
    }

    pub fn write_to(&self, out: &mut Vec<u8>)
        ensures
            final(out)@ == old(out)@ + self.encoding(),
    {
        self.header.write_to(out);
        put_u16(out, self.channel);
        put_u16(out, self.reserved1);
        put_u32(out, self.reserved2);
        put_u64(out, self.receive_ok);
        put_u64(out, self.transmit_ok);
        put_u64(out, self.receive_error);
        put_u64(out, self.transmit_error);
        put_u64(out, self.receive_bytes);
        put_u64(out, self.transmit_bytes);
        put_u64(out, self.receive_no_buffer);
        put_i16(out, self.sqi);
        put_u16(out, self.hardware_channel);
        put_u32(out, self.reserved3);
        proof {
            assert(out@ =~= old(out)@ + self.encoding());
        }
    }

    /// Whether the header fits the object, so that the bytes of the object can be read
    /// back.
    pub open spec fn canonical(self) -> bool {
        &&& self.header.plain()
        &&& self.header.base.object_size == 104
    }

    /// Reading the bytes of a canonical object gives back its fields.
    pub proof fn law_read_of_write(self, base: int)
        requires
            self.canonical(),
        ensures
            self.encoding().len() == 104,
            Self::failure(self.encoding(), base) is None,
            self.reads(self.encoding()),
    {
        let s = self.encoding();
        let c0 = self.header.encoding();
        let c1 = c0 + le_u16(self.channel);
        let c2 = c1 + le_u16(self.reserved1);
        let c3 = c2 + le_u32(self.reserved2);
        let c4 = c3 + le_u64(self.receive_ok);
        let c5 = c4 + le_u64(self.transmit_ok);
        let c6 = c5 + le_u64(self.receive_error);
        let c7 = c6 + le_u64(self.transmit_error);
        let c8 = c7 + le_u64(self.receive_bytes);
        let c9 = c8 + le_u64(self.transmit_bytes);
        let c10 = c9 + le_u64(self.receive_no_buffer);
        let c11 = c10 + le_u16(unsigned16(self.sqi));
        let c12 = c11 + le_u16(self.hardware_channel);
        lemma_starts_with_self(s);
        lemma_field_u32(c12, self.reserved3, s);
        lemma_field_u16(c11, self.hardware_channel, s);
        lemma_field_u16(c10, unsigned16(self.sqi), s);
        lemma_field_u64(c9, self.receive_no_buffer, s);
        lemma_field_u64(c8, self.transmit_bytes, s);
        lemma_field_u64(c7, self.receive_bytes, s);
        lemma_field_u64(c6, self.transmit_error, s);
        lemma_field_u64(c5, self.receive_error, s);
        lemma_field_u64(c4, self.transmit_ok, s);
        lemma_field_u64(c3, self.receive_ok, s);
        lemma_field_u32(c2, self.reserved2, s);
        lemma_field_u16(c1, self.reserved1, s);
        lemma_field_u16(c0, self.channel, s);
        self.header.law_read_of_prefix(s, base);
    }

    /// Writing an object that was read gives back the bytes that it was read from.
    pub proof fn law_write_of_read(self, s: Seq<u8>)
        requires
            self.header.plain(),
            self.reads(s),
            s.len() == 104,
        ensures
            self.encoding() == s,
    {
        self.header.law_write_of_read(s);
        lemma_le_u16_at(s, 32);
        lemma_le_u16_at(s, 34);
        lemma_le_u32_at(s, 36);
        lemma_le_u64_at(s, 40);
        lemma_le_u64_at(s, 48);
        lemma_le_u64_at(s, 56);
        lemma_le_u64_at(s, 64);
        lemma_le_u64_at(s, 72);
        lemma_le_u64_at(s, 80);
        lemma_le_u64_at(s, 88);
        lemma_le_u16_at(s, 96);
        lemma_le_u16_at(s, 98);
        lemma_le_u32_at(s, 100);
        assert(self.encoding() =~= s);
    }

    /// The bytes of an object determine it.
    pub proof fn law_reads_unique(self, other: Self, s: Seq<u8>)
        requires
            self.reads(s),
            other.reads(s),
        ensures
            self.same(other),
    {
        self.header.law_reads_unique(other.header, s);
    }
}

/// Extended or forwarded Ethernet frame/error; all four IDs share this layout.
#[derive(Debug, Clone, PartialEq, Eq)]
pub struct EthernetFrameEx {
    pub header: LObj,
    pub struct_length: u16,
    pub flags: u16,
    pub channel: u16,
    pub hardware_channel: u16,
    pub frame_duration: u64,
    pub frame_checksum: u32,
    pub dir: u16,
    pub frame_handle: u32,
    /// Reserved for frame IDs and an error code for error IDs.
    pub status: u32,
    pub frame_data: Vec<u8>,
    pub trailing: Vec<u8>,
}

impl EthernetFrameEx {
    pub const FIXED_SIZE: usize = 64;

    /// How reading the object fails, if it does.
    pub open spec fn failure(s: Seq<u8>, base: int) -> Option<Failure> {
        if object_failure(s, base, 64) is Some {
            object_failure(s, base, 64)
        } else {
            payload_failure(64 + u16_at(s, 54), u32_at(s, 8) as int, base)
        }
    }

    /// Whether the fields are those that stand in the bytes.
    pub open spec fn reads(self, s: Seq<u8>) -> bool {
        let end1 = 64 + u16_at(s, 54);
        &&& self.header.reads(s)
        &&& self.struct_length == u16_at(s, 32)
        &&& self.flags == u16_at(s, 34)
        &&& self.channel == u16_at(s, 36)
        &&& self.hardware_channel == u16_at(s, 38)
        &&& self.frame_duration == u64_at(s, 40)
        &&& self.frame_checksum == u32_at(s, 48)
        &&& self.dir == u16_at(s, 52)
        &&& self.frame_handle == u32_at(s, 56)
        &&& self.status == u32_at(s, 60)
        &&& self.frame_data@ == s.subrange(64, end1)
        &&& self.trailing@ == s.subrange(end1, u32_at(s, 8) as int)
    }

    /// Number of bytes of the object.
    pub open spec fn total(self) -> int {
        (64 + self.frame_data@.len() + self.trailing@.len()) as int
    }

    /// The bytes of the object.
    pub open spec fn encoding(self) -> Seq<u8> {
        self.header.sized_encoding(low32(self.total())) + le_u16(self.struct_length)
            + le_u16(self.flags) + le_u16(self.channel) + le_u16(self.hardware_channel)
            + le_u64(self.frame_duration) + le_u32(self.frame_checksum) + le_u16(self.dir)
            + le_u16(low16(self.frame_data@.len() as int)) + le_u32(self.frame_handle)
            + le_u32(self.status) + self.frame_data@ + self.trailing@
    }

    /// Whether two objects agree in every field.
    pub open spec fn same(self, other: Self) -> bool {
        &&& self.header.same(other.header)
        &&& self.struct_length == other.struct_length
        &&& self.flags == other.flags
        &&& self.channel == other.channel
        &&& self.hardware_channel == other.hardware_channel
        &&& self.frame_duration == other.frame_duration
        &&& self.frame_checksum == other.frame_checksum
        &&& self.dir == other.dir
        &&& self.frame_handle == other.frame_handle
        &&& self.status == other.status
        &&& self.frame_data@ == other.frame_data@
        &&& self.trailing@ == other.trailing@
    }

    pub fn parse(bytes: &[u8], base: u64) -> (r: Result<Self>)
        requires
            offsets_fit(base, bytes.len(), 16),
        ensures
            match r {
                Ok(v) => {
                    &&& Self::failure(bytes@, base as int) is None
                    &&& v.reads(bytes@)
                    &&& v.header.valid()
                    &&& 64 <= v.header.base.object_size <= bytes.len()
                },
                Err(e) => Self::failure(bytes@, base as int) == Some(e@),
            },
    {
        let header = checked_object(bytes, base, Self::FIXED_SIZE)?;
        let object_size: usize = header.base.object_size as usize;
        let end1: usize = Self::FIXED_SIZE + read_u16(bytes, 54) as usize;
        check_payload(end1, object_size, base)?;
        Ok(
            EthernetFrameEx {
                header,
                struct_length: read_u16(bytes, 32),
                flags: read_u16(bytes, 34),
                channel: read_u16(bytes, 36),
                hardware_channel: read_u16(bytes, 38),
                frame_duration: read_u64(bytes, 40),
                frame_checksum: read_u32(bytes, 48),
                dir: read_u16(bytes, 52),
                frame_handle: read_u32(bytes, 56),
                status: read_u32(bytes, 60),
                frame_data: read_bytes(bytes, Self::FIXED_SIZE, end1),
                trailing: read_bytes(bytes, end1, object_size),
            },
        )
    }

    pub fn write_to(&self, out: &mut Vec<u8>)
        ensures
            final(out)@ == old(out)@ + self.encoding(),
    {
        self.header.write_sized(
            size2_u32(Self::FIXED_SIZE as u32, self.frame_data.len(), self.trailing.len()),
            out
        );
        put_u16(out, self.struct_length);
        put_u16(out, self.flags);
        put_u16(out, self.channel);
        put_u16(out, self.hardware_channel);
        put_u64(out, self.frame_duration);
        put_u32(out, self.frame_checksum);
        put_u16(out, self.dir);
        put_u16(out, low_u16(self.frame_data.len()));
        put_u32(out, self.frame_handle);
        put_u32(out, self.status);
        put_bytes(out, &self.frame_data);
        put_bytes(out, &self.trailing);
        proof {
            assert(out@ =~= old(out)@ + self.encoding());
        }
    }

    /// Whether the header fits the object, so that the bytes of the object can be read
    /// back.
    pub open spec fn canonical(self) -> bool {
        &&& self.header.plain()
        &&& self.header.base.object_size == self.total()
        &&& self.frame_data@.len() <= u16::MAX
    }

    /// Reading the bytes of a canonical object gives back its fields.
    pub proof fn law_read_of_write(self, base: int)
        requires
            self.canonical(),
        ensures
            self.encoding().len() == self.total(),
            Self::failure(self.encoding(), base) is None,
            self.reads(self.encoding()),
    {
        let s = self.encoding();
        lemma_low32(self.total());
        lemma_low16(self.frame_data@.len() as int);
        let c0 = self.header.encoding();
        let c1 = c0 + le_u16(self.struct_length);
        let c2 = c1 + le_u16(self.flags);
        let c3 = c2 + le_u16(self.channel);
        let c4 = c3 + le_u16(self.hardware_channel);
        let c5 = c4 + le_u64(self.frame_duration);
        let c6 = c5 + le_u32(self.frame_checksum);
        let c7 = c6 + le_u16(self.dir);
        let c8 = c7 + le_u16(low16(self.frame_data@.len() as int));
        let c9 = c8 + le_u32(self.frame_handle);
        let c10 = c9 + le_u32(self.status);
        let c11 = c10 + self.frame_data@;
        lemma_starts_with_self(s);
        lemma_field_bytes(c11, self.trailing@, s);
        lemma_field_bytes(c10, self.frame_data@, s);
        lemma_field_u32(c9, self.status, s);
        lemma_field_u32(c8, self.frame_handle, s);
        lemma_field_u16(c7, low16(self.frame_data@.len() as int), s);
        lemma_field_u16(c6, self.dir, s);
        lemma_field_u32(c5, self.frame_checksum, s);
        lemma_field_u64(c4, self.frame_duration, s);
        lemma_field_u16(c3, self.hardware_channel, s);
        lemma_field_u16(c2, self.channel, s);
        lemma_field_u16(c1, self.flags, s);
        lemma_field_u16(c0, self.struct_length, s);
        self.header.law_read_of_prefix(s, base);
    }

    /// Writing an object that was read gives back the bytes that it was read from.
    pub proof fn law_write_of_read(self, s: Seq<u8>)
        requires
            self.header.plain(),
            self.reads(s),
            s.len() == self.header.base.object_size,
            Self::failure(s, 0) is None,
            s.len() >= 64,
        ensures
            self.encoding() == s,
    {
        self.header.law_write_of_read(s);
        lemma_low32(self.total());
        lemma_low16(self.frame_data@.len() as int);
        lemma_le_u16_at(s, 32);
        lemma_le_u16_at(s, 34);
        lemma_le_u16_at(s, 36);
        lemma_le_u16_at(s, 38);
        lemma_le_u64_at(s, 40);
        lemma_le_u32_at(s, 48);
        lemma_le_u16_at(s, 52);
        lemma_le_u16_at(s, 54);
        lemma_le_u32_at(s, 56);
        lemma_le_u32_at(s, 60);
        assert(self.encoding() =~= s);
    }

    /// The bytes of an object determine it.
    pub proof fn law_reads_unique(self, other: Self, s: Seq<u8>)
        requires
            self.reads(s),
            other.reads(s),
        ensures
            self.same(other),
    {
        self.header.law_reads_unique(other.header, s);
    }
}

} // verus!
