//! CAN and CAN FD objects of fixed size.

use crate::blf::bytes::{
    check_fields, le_u16, le_u32, lemma_field_bytes, lemma_field_u16, lemma_field_u32,
    lemma_field_u8, lemma_le_u16_at, lemma_le_u32_at, lemma_short_read_none,
    lemma_starts_with_self, put_bytes, put_u16, put_u32, put_u8, read_array, read_u16,
    read_u32, short_read, u16_at, u32_at,
    offsets_fit,
};
use crate::blf::error::{Failure, Result};
use crate::blf::flags::{CanFd64Flags, CanFdFlags, CanFlags, ObjectFlags};
use crate::blf::header::{LObj, LOBJ_SIZE};
use crate::blf::object_type::ObjectType;
use vstd::prelude::*;

verus! {

pub const CAN_MESSAGE_SIZE: usize = 48;

pub const CAN_MESSAGE2_SIZE: usize = 56;

pub const CAN_ERROR_SIZE: usize = 40;

pub const CAN_OVERLOAD_SIZE: usize = 40;

pub const CAN_FD_MESSAGE_SIZE: usize = 120;

pub const CAN_FD_MESSAGE64_SIZE: usize = 72;

pub const CAN_STATISTIC_SIZE: usize = 64;

pub const CAN_DRIVER_ERROR_SIZE: usize = 40;

pub const CAN_DRIVER_SYNC_SIZE: usize = 40;

pub const CAN_DRIVER_ERROR_EXT_SIZE: usize = 64;

/// The data length code for a number of data bytes: the smallest code whose length
/// holds them, and the largest code where none does.
pub open spec fn dlc_of_length(len: int) -> u8 {
    if len <= 8 {
        len as u8
    } else if len <= 12 {
        9
    } else if len <= 16 {
        10
    } else if len <= 20 {
        11
    } else if len <= 24 {
        12
    } else if len <= 32 {
        13
    } else if len <= 48 {
        14
    } else {
        15
    }
}

/// The number of data bytes that a data length code stands for.
pub open spec fn length_of_dlc(dlc: u8) -> int {
    if dlc <= 8 {
        dlc as int
    } else if dlc == 9 {
        12
    } else if dlc == 10 {
        16
    } else if dlc == 11 {
        20
    } else if dlc == 12 {
        24
    } else if dlc == 13 {
        32
    } else if dlc == 14 {
        48
    } else {
        64
    }
}

pub fn length_to_dlc(len: usize) -> (r: u8)
    ensures
        r == dlc_of_length(len as int),
{
    match len {
        0..=8 => len as u8,
        9..=12 => 9,
        13..=16 => 10,
        17..=20 => 11,
        21..=24 => 12,
        25..=32 => 13,
        33..=48 => 14,
        _ => 15,
    }
}

pub fn dlc_to_length(dlc: u8) -> (r: usize)
    ensures
        r == length_of_dlc(dlc),
{
    match dlc {
        0..=8 => dlc as usize,
        9 => 12,
        10 => 16,
        11 => 20,
        12 => 24,
        13 => 32,
        14 => 48,
        _ => 64,
    }
}

/// A data length code up to 15 is the code of the length that it stands for.
pub proof fn law_dlc_of_length_of_dlc(dlc: u8)
    requires
        dlc <= 15,
    ensures
        dlc_of_length(length_of_dlc(dlc)) == dlc,
{
}

/// The code for up to 64 data bytes is the least one that stands for enough of them.
pub proof fn law_dlc_is_least(len: int, dlc: u8)
    requires
        0 <= len <= 64,
    ensures
        len <= length_of_dlc(dlc_of_length(len)),
        len <= length_of_dlc(dlc) ==> dlc_of_length(len) <= dlc,
{
}

/// A number of bytes, but no more than a limit.
pub open spec fn clipped(len: nat, limit: int) -> int {
    if len < limit {
        len as int
    } else {
        limit
    }
}

/// The first `n` bytes of the data, filled up with zeros.
pub open spec fn padded(data: Seq<u8>, n: int) -> Seq<u8> {
    Seq::new(
        n as nat,
        |i: int|
            if i < data.len() {
                data[i]
            } else {
                0
            },
    )
}

/// The first `N` bytes of the data, filled up with zeros, and how many of them are data.
pub(crate) fn pad_array<const N: usize>(data: &[u8]) -> (r: ([u8; N], usize))
    ensures
        r.0@ == padded(data@, N as int),
        r.1 == clipped(data@.len(), N as int),
{
    let n: usize = if data.len() < N {
        data.len()
    } else {
        N
    };
    let mut buf = [0u8;N];
    let mut i: usize = 0;
    while i < n
        invariant
            i <= n <= N,
            n <= data.len(),
            buf@.len() == N,
            forall|j: int| 0 <= j < i ==> buf@[j] == data@[j],
            forall|j: int| i <= j < N ==> buf@[j] == 0,
        decreases n - i,
    {
        buf[i] = data[i];
        i += 1;
    }
    proof {
        assert(buf@ =~= padded(data@, N as int));
    }
    (buf, n)
}

/// A CAN message.
#[derive(Debug, Clone, PartialEq, Eq)]
pub struct CanMessage {
    pub header: LObj,
    pub channel: u16,
    pub flags: CanFlags,
    pub dlc: u8,
    pub id: u32,
    pub data: [u8; 8],
}

impl CanMessage {
    /// Where each field ends, counted from the end of the object header.
    pub open spec fn ends() -> Seq<usize> {
        seq![2, 3, 4, 8, 16]
    }

    /// How reading the object fails, if it does.
    pub open spec fn failure(s: Seq<u8>, base: int) -> Option<Failure> {
        if LObj::failure(s, base) is Some {
            LObj::failure(s, base)
        } else {
            short_read(Self::ends(), 0, s.len() - 32, base + 32)
        }
    }

    /// Whether the fields are those that stand in the bytes.
    pub open spec fn reads(self, s: Seq<u8>) -> bool {
        &&& self.header.reads(s)
        &&& self.channel == u16_at(s, 32)
        &&& self.flags.0 == s[34]
        &&& self.dlc == s[35]
        &&& self.id == u32_at(s, 36)
        &&& self.data@ == s.subrange(40, 48)
    }

    /// The bytes of the object.
    pub open spec fn encoding(self) -> Seq<u8> {
        self.header.encoding() + le_u16(self.channel) + seq![self.flags.0] + seq![self.dlc]
            + le_u32(self.id) + self.data@
    }

    /// Whether two objects agree in every field.
    pub open spec fn same(self, other: Self) -> bool {
        &&& self.header.same(other.header)
        &&& self.channel == other.channel
        &&& self.flags == other.flags
        &&& self.dlc == other.dlc
        &&& self.id == other.id
        &&& self.data@ == other.data@
    }

    /// Whether the message is a new one with the given contents.
    pub open spec fn is_new(
        self,
        object_flags: ObjectFlags,
        timestamp: u64,
        channel: u16,
        id: u32,
        data: Seq<u8>,
        is_tx: bool,
    ) -> bool {
        &&& self.header.is_new(ObjectType::CanMessage.raw(), object_flags, timestamp, 48)
        &&& self.channel == channel
        &&& self.flags.0 == (if is_tx { CanFlags::TX } else { CanFlags::RX })
        &&& self.dlc == clipped(data.len(), 8)
        &&& self.id == id
        &&& self.data@ == padded(data, 8)
    }

    pub fn new(
        object_flags: ObjectFlags,
        timestamp: u64,
        channel: u16,
        id: u32,
        data: &[u8],
        is_tx: bool,
    ) -> (r: Self)
        ensures
            r.header.is_new(ObjectType::CanMessage.raw(), object_flags, timestamp, 48),
            r.channel == channel,
            r.flags.0 == (if is_tx { CanFlags::TX } else { CanFlags::RX }),
            r.dlc == clipped(data@.len(), 8),
            r.id == id,
            r.data@ == padded(data@, 8),
            r.is_new(object_flags, timestamp, channel, id, data@, is_tx),
    {
        let (buf, n) = pad_array::<8>(data);
        CanMessage {
            header: LObj::new(ObjectType::CanMessage, object_flags, timestamp, CAN_MESSAGE_SIZE as u32),
            channel,
            flags: if is_tx { CanFlags(CanFlags::TX) } else { CanFlags(CanFlags::RX) },
            dlc: n as u8,
            id,
            data: buf,
        }
    }

    pub fn parse(bytes: &[u8], base: u64) -> (r: Result<Self>)
        requires
            offsets_fit(base, bytes.len(), 48),
            LObj::failure(bytes@, base as int) is None ==> bytes.len() >= 32,
        ensures
            match r {
                Ok(v) => {
                    &&& Self::failure(bytes@, base as int) is None
                    &&& v.reads(bytes@)
                    &&& v.header.valid()
                    &&& bytes.len() >= 48
                },
                Err(e) => Self::failure(bytes@, base as int) == Some(e@),
            },
    {
        let header = LObj::parse(bytes, base)?;
        let ends = [2usize, 3, 4, 8, 16];
        proof {
            assert(ends@ =~= Self::ends());
        }
        check_fields(&ends, bytes.len() - LOBJ_SIZE, base + LOBJ_SIZE as u64)?;
        proof {
            assert(ends[4] == 16);
        }
        Ok(
            CanMessage {
                header,
                channel: read_u16(bytes, 32),
                flags: CanFlags(bytes[34]),
                dlc: bytes[35],
                id: read_u32(bytes, 36),
                data: read_array::<8>(bytes, 40),
            },
        )
    }

    pub fn write_to(&self, out: &mut Vec<u8>)
        ensures
            final(out)@ == old(out)@ + self.encoding(),
    {
        self.header.write_to(out);
        put_u16(out, self.channel);
        put_u8(out, self.flags.0);
        put_u8(out, self.dlc);
        put_u32(out, self.id);
        put_bytes(out, &self.data);
        proof {
            assert(out@ =~= old(out)@ + self.encoding());
        }
    }

    /// Whether the header fits the object, so that the bytes of the object can be read
    /// back.
    pub open spec fn canonical(self) -> bool {
        &&& self.header.plain()
    }

    /// Reading the bytes of a canonical object gives back its fields.
    pub proof fn law_read_of_write(self, base: int)
        requires
            self.canonical(),
        ensures
            self.encoding().len() == 48,
            Self::failure(self.encoding(), base) is None,
            self.reads(self.encoding()),
    {
        let s = self.encoding();
        let c0 = self.header.encoding();
        let c1 = c0 + le_u16(self.channel);
        let c2 = c1 + seq![self.flags.0];
        let c3 = c2 + seq![self.dlc];
        let c4 = c3 + le_u32(self.id);
        lemma_starts_with_self(s);
        lemma_field_bytes(c4, self.data@, s);
        lemma_field_u32(c3, self.id, s);
        lemma_field_u8(c2, self.dlc, s);
        lemma_field_u8(c1, self.flags.0, s);
        lemma_field_u16(c0, self.channel, s);
        self.header.law_read_of_prefix(s, base);
        lemma_short_read_none(Self::ends(), 0, s.len() - 32, base + 32);
    }

    /// Writing an object that was read gives back the bytes that it was read from.
    pub proof fn law_write_of_read(self, s: Seq<u8>)
        requires
            self.header.plain(),
            self.reads(s),
            s.len() == 48,
        ensures
            self.encoding() == s,
    {
        self.header.law_write_of_read(s);
        lemma_le_u16_at(s, 32);
        lemma_le_u32_at(s, 36);
        assert(self.encoding() =~= s);
    }

    /// The bytes of an object determine it.
    pub proof fn law_reads_unique(self, other: Self, s: Seq<u8>)
        requires
            self.reads(s),
            other.reads(s),
        ensures
            self.same(other),
    {
        self.header.law_reads_unique(other.header, s);
    }
}

/// A CAN message with frame length and bit count.
#[derive(Debug, Clone, PartialEq, Eq)]
pub struct CanMessage2 {
    pub header: LObj,
    pub channel: u16,
    pub flags: CanFlags,
    pub dlc: u8,
    pub id: u32,
    pub data: [u8; 8],
    pub frame_length: u32,
    pub bit_count: u8,
    pub reserved: u8,
    pub reserved2: u16,
}

impl CanMessage2 {
    /// Where each field ends, counted from the end of the object header.
    pub open spec fn ends() -> Seq<usize> {
        seq![2, 3, 4, 8, 16, 20, 21, 22, 24]
    }

    /// How reading the object fails, if it does.
    pub open spec fn failure(s: Seq<u8>, base: int) -> Option<Failure> {
        if LObj::failure(s, base) is Some {
            LObj::failure(s, base)
        } else {
            short_read(Self::ends(), 0, s.len() - 32, base + 32)
        }
    }

    /// Whether the fields are those that stand in the bytes.
    pub open spec fn reads(self, s: Seq<u8>) -> bool {
        &&& self.header.reads(s)
        &&& self.channel == u16_at(s, 32)
        &&& self.flags.0 == s[34]
        &&& self.dlc == s[35]
        &&& self.id == u32_at(s, 36)
        &&& self.data@ == s.subrange(40, 48)
        &&& self.frame_length == u32_at(s, 48)
        &&& self.bit_count == s[52]
        &&& self.reserved == s[53]
        &&& self.reserved2 == u16_at(s, 54)
    }

    /// The bytes of the object.
    pub open spec fn encoding(self) -> Seq<u8> {
        self.header.encoding() + le_u16(self.channel) + seq![self.flags.0] + seq![self.dlc]
            + le_u32(self.id) + self.data@ + le_u32(self.frame_length) + seq![self.bit_count]
            + seq![self.reserved] + le_u16(self.reserved2)
    }

    /// Whether two objects agree in every field.
    pub open spec fn same(self, other: Self) -> bool {
        &&& self.header.same(other.header)
        &&& self.channel == other.channel
        &&& self.flags == other.flags
        &&& self.dlc == other.dlc
        &&& self.id == other.id
        &&& self.data@ == other.data@
        &&& self.frame_length == other.frame_length
        &&& self.bit_count == other.bit_count
        &&& self.reserved == other.reserved
        &&& self.reserved2 == other.reserved2
    }

    /// Whether the message is a new one with the given contents.
    pub open spec fn is_new(
        self,
        object_flags: ObjectFlags,
        timestamp: u64,
        channel: u16,
        id: u32,
        data: Seq<u8>,
        is_tx: bool,
    ) -> bool {
        &&& self.header.is_new(ObjectType::CanMessage2.raw(), object_flags, timestamp, 56)
        &&& self.channel == channel
        &&& self.flags.0 == (if is_tx { CanFlags::TX } else { CanFlags::RX })
        &&& self.dlc == clipped(data.len(), 8)
        &&& self.id == id
        &&& self.data@ == padded(data, 8)
        &&& self.frame_length == clipped(data.len(), 8)
        &&& self.bit_count == 8 * clipped(data.len(), 8)
        &&& self.reserved == 0
        &&& self.reserved2 == 0
    }

    pub fn new(
        object_flags: ObjectFlags,
        timestamp: u64,
        channel: u16,
        id: u32,
        data: &[u8],
        is_tx: bool,
    ) -> (r: Self)
        ensures
            r.header.is_new(ObjectType::CanMessage2.raw(), object_flags, timestamp, 56),
            r.channel == channel,
            r.flags.0 == (if is_tx { CanFlags::TX } else { CanFlags::RX }),
            r.dlc == clipped(data@.len(), 8),
            r.id == id,
            r.data@ == padded(data@, 8),
            r.frame_length == clipped(data@.len(), 8),
            r.bit_count == 8 * clipped(data@.len(), 8),
            r.reserved == 0,
            r.reserved2 == 0,
            r.is_new(object_flags, timestamp, channel, id, data@, is_tx),
    {
        let (buf, n) = pad_array::<8>(data);
        CanMessage2 {
            header: LObj::new(ObjectType::CanMessage2, object_flags, timestamp, CAN_MESSAGE2_SIZE as u32),
            channel,
            flags: if is_tx { CanFlags(CanFlags::TX) } else { CanFlags(CanFlags::RX) },
            dlc: n as u8,
            id,
            data: buf,
            frame_length: n as u32,
            bit_count: (n * 8) as u8,
            reserved: 0,
            reserved2: 0,
        }
    }

    pub fn parse(bytes: &[u8], base: u64) -> (r: Result<Self>)
        requires
            offsets_fit(base, bytes.len(), 56),
            LObj::failure(bytes@, base as int) is None ==> bytes.len() >= 32,
        ensures
            match r {
                Ok(v) => {
                    &&& Self::failure(bytes@, base as int) is None
                    &&& v.reads(bytes@)
                    &&& v.header.valid()
                    &&& bytes.len() >= 56
                },
                Err(e) => Self::failure(bytes@, base as int) == Some(e@),
            },
    {
        let header = LObj::parse(bytes, base)?;
        let ends = [2usize, 3, 4, 8, 16, 20, 21, 22, 24];
        proof {
            assert(ends@ =~= Self::ends());
        }
        check_fields(&ends, bytes.len() - LOBJ_SIZE, base + LOBJ_SIZE as u64)?;
        proof {
            assert(ends[8] == 24);
        }
        Ok(
            CanMessage2 {
                header,
                channel: read_u16(bytes, 32),
                flags: CanFlags(bytes[34]),
                dlc: bytes[35],
                id: read_u32(bytes, 36),
                data: read_array::<8>(bytes, 40),
                frame_length: read_u32(bytes, 48),
                bit_count: bytes[52],
                reserved: bytes[53],
                reserved2: read_u16(bytes, 54),
            },
        )
    }

    pub fn write_to(&self, out: &mut Vec<u8>)
        ensures
            final(out)@ == old(out)@ + self.encoding(),
    {
        self.header.write_to(out);
        put_u16(out, self.channel);
        put_u8(out, self.flags.0);
        put_u8(out, self.dlc);
        put_u32(out, self.id);
        put_bytes(out, &self.data);
        put_u32(out, self.frame_length);
        put_u8(out, self.bit_count);
        put_u8(out, self.reserved);
        put_u16(out, self.reserved2);
        proof {
            assert(out@ =~= old(out)@ + self.encoding());
        }
    }

    /// Whether the header fits the object, so that the bytes of the object can be read
    /// back.
    pub open spec fn canonical(self) -> bool {
        &&& self.header.plain()
    }

    /// Reading the bytes of a canonical object gives back its fields.
    pub proof fn law_read_of_write(self, base: int)
        requires
            self.canonical(),
        ensures
            self.encoding().len() == 56,
            Self::failure(self.encoding(), base) is None,
            self.reads(self.encoding()),
    {
        let s = self.encoding();
        let c0 = self.header.encoding();
        let c1 = c0 + le_u16(self.channel);
        let c2 = c1 + seq![self.flags.0];
        let c3 = c2 + seq![self.dlc];
        let c4 = c3 + le_u32(self.id);
        let c5 = c4 + self.data@;
        let c6 = c5 + le_u32(self.frame_length);
        let c7 = c6 + seq![self.bit_count];
        let c8 = c7 + seq![self.reserved];
        lemma_starts_with_self(s);
        lemma_field_u16(c8, self.reserved2, s);
        lemma_field_u8(c7, self.reserved, s);
        lemma_field_u8(c6, self.bit_count, s);
        lemma_field_u32(c5, self.frame_length, s);
        lemma_field_bytes(c4, self.data@, s);
        lemma_field_u32(c3, self.id, s);
        lemma_field_u8(c2, self.dlc, s);
        lemma_field_u8(c1, self.flags.0, s);
        lemma_field_u16(c0, self.channel, s);
        self.header.law_read_of_prefix(s, base);
        lemma_short_read_none(Self::ends(), 0, s.len() - 32, base + 32);
    }

    /// Writing an object that was read gives back the bytes that it was read from.
    pub proof fn law_write_of_read(self, s: Seq<u8>)
        requires
            self.header.plain(),
            self.reads(s),
            s.len() == 56,
        ensures
            self.encoding() == s,
    {
        self.header.law_write_of_read(s);
        lemma_le_u16_at(s, 32);
        lemma_le_u32_at(s, 36);
        lemma_le_u32_at(s, 48);
        lemma_le_u16_at(s, 54);
        assert(self.encoding() =~= s);
    }

    /// The bytes of an object determine it.
    pub proof fn law_reads_unique(self, other: Self, s: Seq<u8>)
        requires
            self.reads(s),
            other.reads(s),
        ensures
            self.same(other),
    {
        self.header.law_reads_unique(other.header, s);
    }
}

/// A CAN error frame.
#[derive(Debug, Clone, PartialEq, Eq)]
pub struct CanError {
    pub header: LObj,
    pub channel: u16,
    pub length: u16,
    pub reserved: u32,
}

impl CanError {
    /// Where each field ends, counted from the end of the object header.
    pub open spec fn ends() -> Seq<usize> {
        seq![2, 4, 8]
    }

    /// How reading the object fails, if it does.
    pub open spec fn failure(s: Seq<u8>, base: int) -> Option<Failure> {
        if LObj::failure(s, base) is Some {
            LObj::failure(s, base)
        } else {
            short_read(Self::ends(), 0, s.len() - 32, base + 32)
        }
    }

    /// Whether the fields are those that stand in the bytes.
    pub open spec fn reads(self, s: Seq<u8>) -> bool {
        &&& self.header.reads(s)
        &&& self.channel == u16_at(s, 32)
        &&& self.length == u16_at(s, 34)
        &&& self.reserved == u32_at(s, 36)
    }

    /// The bytes of the object.
    pub open spec fn encoding(self) -> Seq<u8> {
        self.header.encoding() + le_u16(self.channel) + le_u16(self.length) + le_u32(self.reserved)
    }

    /// Whether two objects agree in every field.
    pub open spec fn same(self, other: Self) -> bool {
        &&& self.header.same(other.header)
        &&& self.channel == other.channel
        &&& self.length == other.length
        &&& self.reserved == other.reserved
    }

    pub fn new(object_flags: ObjectFlags, timestamp: u64) -> (r: Self)
        ensures
            r.header.is_new(ObjectType::CanError.raw(), object_flags, timestamp, 40),
            r.channel == 0,
            r.length == 0,
            r.reserved == 0,
    {
        CanError {
            header: LObj::new(ObjectType::CanError, object_flags, timestamp, CAN_ERROR_SIZE as u32),
            channel: 0,
            length: 0,
            reserved: 0,
        }
    }

    pub fn parse(bytes: &[u8], base: u64) -> (r: Result<Self>)
        requires
            offsets_fit(base, bytes.len(), 40),
            LObj::failure(bytes@, base as int) is None ==> bytes.len() >= 32,
        ensures
            match r {
                Ok(v) => {
                    &&& Self::failure(bytes@, base as int) is None
                    &&& v.reads(bytes@)
                    &&& v.header.valid()
                    &&& bytes.len() >= 40
                },
                Err(e) => Self::failure(bytes@, base as int) == Some(e@),
            },
    {
        let header = LObj::parse(bytes, base)?;
        let ends = [2usize, 4, 8];
        proof {
            assert(ends@ =~= Self::ends());
        }
        check_fields(&ends, bytes.len() - LOBJ_SIZE, base + LOBJ_SIZE as u64)?;
        proof {
            assert(ends[2] == 8);
        }
        Ok(
            CanError {
                header,
                channel: read_u16(bytes, 32),
                length: read_u16(bytes, 34),
                reserved: read_u32(bytes, 36),
            },
        )
    }

    pub fn write_to(&self, out: &mut Vec<u8>)
        ensures
            final(out)@ == old(out)@ + self.encoding(),
    {
        self.header.write_to(out);
        put_u16(out, self.channel);
        put_u16(out, self.length);
        put_u32(out, self.reserved);
        proof {
            assert(out@ =~= old(out)@ + self.encoding());
        }
    }

    /// Whether the header fits the object, so that the bytes of the object can be read
    /// back.
    pub open spec fn canonical(self) -> bool {
        &&& self.header.plain()
    }

    /// Reading the bytes of a canonical object gives back its fields.
    pub proof fn law_read_of_write(self, base: int)
        requires
            self.canonical(),
        ensures
            self.encoding().len() == 40,
            Self::failure(self.encoding(), base) is None,
            self.reads(self.encoding()),
    {
        let s = self.encoding();
        let c0 = self.header.encoding();
        let c1 = c0 + le_u16(self.channel);
        let c2 = c1 + le_u16(self.length);
        lemma_starts_with_self(s);
        lemma_field_u32(c2, self.reserved, s);
        lemma_field_u16(c1, self.length, s);
        lemma_field_u16(c0, self.channel, s);
        self.header.law_read_of_prefix(s, base);
        lemma_short_read_none(Self::ends(), 0, s.len() - 32, base + 32);
    }

    /// Writing an object that was read gives back the bytes that it was read from.
    pub proof fn law_write_of_read(self, s: Seq<u8>)
        requires
            self.header.plain(),
            self.reads(s),
            s.len() == 40,
        ensures
            self.encoding() == s,
    {
        self.header.law_write_of_read(s);
        lemma_le_u16_at(s, 32);
        lemma_le_u16_at(s, 34);
        lemma_le_u32_at(s, 36);
        assert(self.encoding() =~= s);
    }

    /// The bytes of an object determine it.
    pub proof fn law_reads_unique(self, other: Self, s: Seq<u8>)
        requires
            self.reads(s),
            other.reads(s),
        ensures
            self.same(other),
    {
        self.header.law_reads_unique(other.header, s);
    }
}

/// A CAN FD message.
#[derive(Debug, Clone, PartialEq, Eq)]
pub struct CanFdMessage {
    pub header: LObj,
    pub channel: u16,
    pub flags: CanFlags,
    pub dlc: u8,
    pub id: u32,
    pub frame_length: u32,
    pub arb_bit_count: u8,
    pub fd_flags: CanFdFlags,
    pub valid_data_bytes: u8,
    pub reserved: u8,
    pub reserved2: u32,
    pub data: [u8; 64],
    pub reserved3: u32,
}

impl CanFdMessage {
    /// Where each field ends, counted from the end of the object header.
    pub open spec fn ends() -> Seq<usize> {
        seq![2, 3, 4, 8, 12, 13, 14, 15, 16, 20, 84, 88]
    }

    /// How reading the object fails, if it does.
    pub open spec fn failure(s: Seq<u8>, base: int) -> Option<Failure> {
        if LObj::failure(s, base) is Some {
            LObj::failure(s, base)
        } else {
            short_read(Self::ends(), 0, s.len() - 32, base + 32)
        }
    }

    /// Whether the fields are those that stand in the bytes.
    pub open spec fn reads(self, s: Seq<u8>) -> bool {
        &&& self.header.reads(s)
        &&& self.channel == u16_at(s, 32)
        &&& self.flags.0 == s[34]
        &&& self.dlc == s[35]
        &&& self.id == u32_at(s, 36)
        &&& self.frame_length == u32_at(s, 40)
        &&& self.arb_bit_count == s[44]
        &&& self.fd_flags.0 == s[45]
        &&& self.valid_data_bytes == s[46]
        &&& self.reserved == s[47]
        &&& self.reserved2 == u32_at(s, 48)
        &&& self.data@ == s.subrange(52, 116)
        &&& self.reserved3 == u32_at(s, 116)
    }

    /// The bytes of the object.
    pub open spec fn encoding(self) -> Seq<u8> {
        self.header.encoding() + le_u16(self.channel) + seq![self.flags.0] + seq![self.dlc]
            + le_u32(self.id) + le_u32(self.frame_length) + seq![self.arb_bit_count]
            + seq![self.fd_flags.0] + seq![self.valid_data_bytes] + seq![self.reserved]
            + le_u32(self.reserved2) + self.data@ + le_u32(self.reserved3)
    }

    /// Whether two objects agree in every field.
    pub open spec fn same(self, other: Self) -> bool {
        &&& self.header.same(other.header)
        &&& self.channel == other.channel
        &&& self.flags == other.flags
        &&& self.dlc == other.dlc
        &&& self.id == other.id
        &&& self.frame_length == other.frame_length
        &&& self.arb_bit_count == other.arb_bit_count
        &&& self.fd_flags == other.fd_flags
        &&& self.valid_data_bytes == other.valid_data_bytes
        &&& self.reserved == other.reserved
        &&& self.reserved2 == other.reserved2
        &&& self.data@ == other.data@
        &&& self.reserved3 == other.reserved3
    }

    /// Whether the message is a new one with the given contents.
    pub open spec fn is_new(
        self,
        object_flags: ObjectFlags,
        timestamp: u64,
        channel: u16,
        id: u32,
        data: Seq<u8>,
        is_tx: bool,
        is_fd: bool,
        brs: bool,
    ) -> bool {
        &&& self.header.is_new(ObjectType::CanFdMessage.raw(), object_flags, timestamp, 120)
        &&& self.channel == channel
        &&& self.flags.0 == (if is_tx { CanFlags::TX } else { CanFlags::RX })
        &&& self.dlc == dlc_of_length(clipped(data.len(), 64))
        &&& self.id == id
        &&& self.frame_length == 0
        &&& self.arb_bit_count == 0
        &&& self.fd_flags.0 == (if is_fd { 1u8 } else { 0 }) | (if brs { 2u8 } else { 0 })
        &&& self.valid_data_bytes == clipped(data.len(), 64)
        &&& self.reserved == 0
        &&& self.reserved2 == 0
        &&& self.data@ == padded(data, 64)
        &&& self.reserved3 == 0
    }

    pub fn new(
        object_flags: ObjectFlags,
        timestamp: u64,
        channel: u16,
        id: u32,
        data: &[u8],
        is_tx: bool,
        is_fd: bool,
        brs: bool,
    ) -> (r: Self)
        ensures
            r.header.is_new(ObjectType::CanFdMessage.raw(), object_flags, timestamp, 120),
            r.channel == channel,
            r.flags.0 == (if is_tx { CanFlags::TX } else { CanFlags::RX }),
            r.dlc == dlc_of_length(clipped(data@.len(), 64)),
            r.id == id,
            r.frame_length == 0,
            r.arb_bit_count == 0,
            r.fd_flags.0 == (if is_fd { 1u8 } else { 0 }) | (if brs { 2u8 } else { 0 }),
            r.valid_data_bytes == clipped(data@.len(), 64),
            r.reserved == 0,
            r.reserved2 == 0,
            r.data@ == padded(data@, 64),
            r.reserved3 == 0,
            r.is_new(object_flags, timestamp, channel, id, data@, is_tx, is_fd, brs),
    {
        let (buf, n) = pad_array::<64>(data);
        let edl: u8 = if is_fd { CanFdFlags::EDL } else { 0 };
        let rate: u8 = if brs { CanFdFlags::BRS } else { 0 };
        CanFdMessage {
            header: LObj::new(
                ObjectType::CanFdMessage,
                object_flags,
                timestamp,
                CAN_FD_MESSAGE_SIZE as u32,
            ),
            channel,
            flags: if is_tx { CanFlags(CanFlags::TX) } else { CanFlags(CanFlags::RX) },
            dlc: length_to_dlc(n),
            id,
            frame_length: 0,
            arb_bit_count: 0,
            fd_flags: CanFdFlags(edl) | CanFdFlags(rate),
            valid_data_bytes: n as u8,
            reserved: 0,
            reserved2: 0,
            data: buf,
            reserved3: 0,
        }
    }

    pub fn parse(bytes: &[u8], base: u64) -> (r: Result<Self>)
        requires
            offsets_fit(base, bytes.len(), 120),
            LObj::failure(bytes@, base as int) is None ==> bytes.len() >= 32,
        ensures
            match r {
                Ok(v) => {
                    &&& Self::failure(bytes@, base as int) is None
                    &&& v.reads(bytes@)
                    &&& v.header.valid()
                    &&& bytes.len() >= 120
                },
                Err(e) => Self::failure(bytes@, base as int) == Some(e@),
            },
    {
        let header = LObj::parse(bytes, base)?;
        let ends = [2usize, 3, 4, 8, 12, 13, 14, 15, 16, 20, 84, 88];
        proof {
            assert(ends@ =~= Self::ends());
        }
        check_fields(&ends, bytes.len() - LOBJ_SIZE, base + LOBJ_SIZE as u64)?;
        proof {
            assert(ends[11] == 88);
        }
        Ok(
            CanFdMessage {
                header,
                channel: read_u16(bytes, 32),
                flags: CanFlags(bytes[34]),
                dlc: bytes[35],
                id: read_u32(bytes, 36),
                frame_length: read_u32(bytes, 40),
                arb_bit_count: bytes[44],
                fd_flags: CanFdFlags(bytes[45]),
                valid_data_bytes: bytes[46],
                reserved: bytes[47],
                reserved2: read_u32(bytes, 48),
                data: read_array::<64>(bytes, 52),
                reserved3: read_u32(bytes, 116),
            },
        )
    }

    pub fn write_to(&self, out: &mut Vec<u8>)
        ensures
            final(out)@ == old(out)@ + self.encoding(),
    {
        self.header.write_to(out);
        put_u16(out, self.channel);
        put_u8(out, self.flags.0);
        put_u8(out, self.dlc);
        put_u32(out, self.id);
        put_u32(out, self.frame_length);
        put_u8(out, self.arb_bit_count);
        put_u8(out, self.fd_flags.0);
        put_u8(out, self.valid_data_bytes);
        put_u8(out, self.reserved);
        put_u32(out, self.reserved2);
        put_bytes(out, &self.data);
        put_u32(out, self.reserved3);
        proof {
            assert(out@ =~= old(out)@ + self.encoding());
        }
    }

    /// Whether the header fits the object, so that the bytes of the object can be read
    /// back.
    pub open spec fn canonical(self) -> bool {
        &&& self.header.plain()
    }

    /// Reading the bytes of a canonical object gives back its fields.
    pub proof fn law_read_of_write(self, base: int)
        requires
            self.canonical(),
        ensures
            self.encoding().len() == 120,
            Self::failure(self.encoding(), base) is None,
            self.reads(self.encoding()),
    {
        let s = self.encoding();
        let c0 = self.header.encoding();
        let c1 = c0 + le_u16(self.channel);
        let c2 = c1 + seq![self.flags.0];
        let c3 = c2 + seq![self.dlc];
        let c4 = c3 + le_u32(self.id);
        let c5 = c4 + le_u32(self.frame_length);
        let c6 = c5 + seq![self.arb_bit_count];
        let c7 = c6 + seq![self.fd_flags.0];
        let c8 = c7 + seq![self.valid_data_bytes];
        let c9 = c8 + seq![self.reserved];
        let c10 = c9 + le_u32(self.reserved2);
        let c11 = c10 + self.data@;
        lemma_starts_with_self(s);
        lemma_field_u32(c11, self.reserved3, s);
        lemma_field_bytes(c10, self.data@, s);
        lemma_field_u32(c9, self.reserved2, s);
        lemma_field_u8(c8, self.reserved, s);
        lemma_field_u8(c7, self.valid_data_bytes, s);
        lemma_field_u8(c6, self.fd_flags.0, s);
        lemma_field_u8(c5, self.arb_bit_count, s);
        lemma_field_u32(c4, self.frame_length, s);
        lemma_field_u32(c3, self.id, s);
        lemma_field_u8(c2, self.dlc, s);
        lemma_field_u8(c1, self.flags.0, s);
        lemma_field_u16(c0, self.channel, s);
        self.header.law_read_of_prefix(s, base);
        lemma_short_read_none(Self::ends(), 0, s.len() - 32, base + 32);
    }

    /// Writing an object that was read gives back the bytes that it was read from.
    pub proof fn law_write_of_read(self, s: Seq<u8>)
        requires
            self.header.plain(),
            self.reads(s),
            s.len() == 120,
        ensures
            self.encoding() == s,
    {
        self.header.law_write_of_read(s);
        lemma_le_u16_at(s, 32);
        lemma_le_u32_at(s, 36);
        lemma_le_u32_at(s, 40);
        lemma_le_u32_at(s, 48);
        lemma_le_u32_at(s, 116);
        assert(self.encoding() =~= s);
    }

    /// The bytes of an object determine it.
    pub proof fn law_reads_unique(self, other: Self, s: Seq<u8>)
        requires
            self.reads(s),
            other.reads(s),
        ensures
            self.same(other),
    {
        self.header.law_reads_unique(other.header, s);
    }
}

/// The fixed part of a CAN FD message with variable payload.
#[derive(Debug, Clone, PartialEq, Eq)]
pub struct CanFdMessage64 {
    pub header: LObj,
    pub channel: u8,
    pub dlc: u8,
    pub valid_data_bytes: u8,
    pub tx_count: u8,
    pub id: u32,
    pub frame_length: u32,
    pub fd_flags: CanFd64Flags,
    pub btr_cfg_arb: u32,
    pub btr_cfg_data: u32,
    pub time_offset_brs_ns: u32,
    pub time_offset_crc_del_ns: u32,
    pub bit_count: u16,
    pub dir: u8,
    pub ext_data_offset: u8,
    pub crc: u32,
}

impl CanFdMessage64 {
    /// Where each field ends, counted from the end of the object header.
    pub open spec fn ends() -> Seq<usize> {
        seq![1, 2, 3, 4, 8, 12, 16, 20, 24, 28, 32, 34, 35, 36, 40]
    }

    /// How reading the object fails, if it does.
    pub open spec fn failure(s: Seq<u8>, base: int) -> Option<Failure> {
        if LObj::failure(s, base) is Some {
            LObj::failure(s, base)
        } else {
            short_read(Self::ends(), 0, s.len() - 32, base + 32)
        }
    }

    /// Whether the fields are those that stand in the bytes.
    pub open spec fn reads(self, s: Seq<u8>) -> bool {
        &&& self.header.reads(s)
        &&& self.channel == s[32]
        &&& self.dlc == s[33]
        &&& self.valid_data_bytes == s[34]
        &&& self.tx_count == s[35]
        &&& self.id == u32_at(s, 36)
        &&& self.frame_length == u32_at(s, 40)
        &&& self.fd_flags.0 == u32_at(s, 44)
        &&& self.btr_cfg_arb == u32_at(s, 48)
        &&& self.btr_cfg_data == u32_at(s, 52)
        &&& self.time_offset_brs_ns == u32_at(s, 56)
        &&& self.time_offset_crc_del_ns == u32_at(s, 60)
        &&& self.bit_count == u16_at(s, 64)
        &&& self.dir == s[66]
        &&& self.ext_data_offset == s[67]
        &&& self.crc == u32_at(s, 68)
    }

    /// The bytes of the object.
    pub open spec fn encoding(self) -> Seq<u8> {
        self.header.encoding() + seq![self.channel] + seq![self.dlc] + seq![self.valid_data_bytes]
            + seq![self.tx_count] + le_u32(self.id) + le_u32(self.frame_length)
            + le_u32(self.fd_flags.0) + le_u32(self.btr_cfg_arb) + le_u32(self.btr_cfg_data)
            + le_u32(self.time_offset_brs_ns) + le_u32(self.time_offset_crc_del_ns)
            + le_u16(self.bit_count) + seq![self.dir] + seq![self.ext_data_offset]
            + le_u32(self.crc)
    }

    /// Whether two objects agree in every field.
    pub open spec fn same(self, other: Self) -> bool {
        &&& self.header.same(other.header)
        &&& self.channel == other.channel
        &&& self.dlc == other.dlc
        &&& self.valid_data_bytes == other.valid_data_bytes
        &&& self.tx_count == other.tx_count
        &&& self.id == other.id
        &&& self.frame_length == other.frame_length
        &&& self.fd_flags == other.fd_flags
        &&& self.btr_cfg_arb == other.btr_cfg_arb
        &&& self.btr_cfg_data == other.btr_cfg_data
        &&& self.time_offset_brs_ns == other.time_offset_brs_ns
        &&& self.time_offset_crc_del_ns == other.time_offset_crc_del_ns
        &&& self.bit_count == other.bit_count
        &&& self.dir == other.dir
        &&& self.ext_data_offset == other.ext_data_offset
        &&& self.crc == other.crc
    }

    pub fn new(object_flags: ObjectFlags, timestamp: u64) -> (r: Self)
        ensures
            r.header.is_new(ObjectType::CanFdMessage64.raw(), object_flags, timestamp, 72),
            r.channel == 0,
            r.dlc == 0,
            r.valid_data_bytes == 0,
            r.tx_count == 0,
            r.id == 0,
            r.frame_length == 0,
            r.fd_flags.0 == 0,
            r.btr_cfg_arb == 0,
            r.btr_cfg_data == 0,
            r.time_offset_brs_ns == 0,
            r.time_offset_crc_del_ns == 0,
            r.bit_count == 0,
            r.dir == 0,
            r.ext_data_offset == 0,
            r.crc == 0,
    {
        CanFdMessage64 {
            header: LObj::new(ObjectType::CanFdMessage64, object_flags, timestamp, CAN_FD_MESSAGE64_SIZE as u32),
            channel: 0,
            dlc: 0,
            valid_data_bytes: 0,
            tx_count: 0,
            id: 0,
            frame_length: 0,
            fd_flags: CanFd64Flags(0),
            btr_cfg_arb: 0,
            btr_cfg_data: 0,
            time_offset_brs_ns: 0,
            time_offset_crc_del_ns: 0,
            bit_count: 0,
            dir: 0,
            ext_data_offset: 0,
            crc: 0,
        }
    }

    pub fn parse(bytes: &[u8], base: u64) -> (r: Result<Self>)
        requires
            offsets_fit(base, bytes.len(), 72),
            LObj::failure(bytes@, base as int) is None ==> bytes.len() >= 32,
        ensures
            match r {
                Ok(v) => {
                    &&& Self::failure(bytes@, base as int) is None
                    &&& v.reads(bytes@)
                    &&& v.header.valid()
                    &&& bytes.len() >= 72
                },
                Err(e) => Self::failure(bytes@, base as int) == Some(e@),
            },
    {
        let header = LObj::parse(bytes, base)?;
        let ends = [1usize, 2, 3, 4, 8, 12, 16, 20, 24, 28, 32, 34, 35, 36, 40];
        proof {
            assert(ends@ =~= Self::ends());
        }
        check_fields(&ends, bytes.len() - LOBJ_SIZE, base + LOBJ_SIZE as u64)?;
        proof {
            assert(ends[14] == 40);
        }
        Ok(
            CanFdMessage64 {
                header,
                channel: bytes[32],
                dlc: bytes[33],
                valid_data_bytes: bytes[34],
                tx_count: bytes[35],
                id: read_u32(bytes, 36),
                frame_length: read_u32(bytes, 40),
                fd_flags: CanFd64Flags(read_u32(bytes, 44)),
                btr_cfg_arb: read_u32(bytes, 48),
                btr_cfg_data: read_u32(bytes, 52),
                time_offset_brs_ns: read_u32(bytes, 56),
                time_offset_crc_del_ns: read_u32(bytes, 60),
                bit_count: read_u16(bytes, 64),
                dir: bytes[66],
                ext_data_offset: bytes[67],
                crc: read_u32(bytes, 68),
            },
        )
    }

    pub fn write_to(&self, out: &mut Vec<u8>)
        ensures
            final(out)@ == old(out)@ + self.encoding(),
    {
        self.header.write_to(out);
        put_u8(out, self.channel);
        put_u8(out, self.dlc);
        put_u8(out, self.valid_data_bytes);
        put_u8(out, self.tx_count);
        put_u32(out, self.id);
        put_u32(out, self.frame_length);
        put_u32(out, self.fd_flags.0);
        put_u32(out, self.btr_cfg_arb);
        put_u32(out, self.btr_cfg_data);
        put_u32(out, self.time_offset_brs_ns);
        put_u32(out, self.time_offset_crc_del_ns);
        put_u16(out, self.bit_count);
        put_u8(out, self.dir);
        put_u8(out, self.ext_data_offset);
        put_u32(out, self.crc);
        proof {
            assert(out@ =~= old(out)@ + self.encoding());
        }
    }

    /// Whether the header fits the object, so that the bytes of the object can be read
    /// back.
    pub open spec fn canonical(self) -> bool {
        &&& self.header.plain()
    }

    /// Reading the bytes of a canonical object gives back its fields.
    pub proof fn law_read_of_write(self, base: int)
        requires
            self.canonical(),
        ensures
            self.encoding().len() == 72,
            Self::failure(self.encoding(), base) is None,
            self.reads(self.encoding()),
    {
        let s = self.encoding();
        let c0 = self.header.encoding();
        let c1 = c0 + seq![self.channel];
        let c2 = c1 + seq![self.dlc];
        let c3 = c2 + seq![self.valid_data_bytes];
        let c4 = c3 + seq![self.tx_count];
        let c5 = c4 + le_u32(self.id);
        let c6 = c5 + le_u32(self.frame_length);
        let c7 = c6 + le_u32(self.fd_flags.0);
        let c8 = c7 + le_u32(self.btr_cfg_arb);
        let c9 = c8 + le_u32(self.btr_cfg_data);
        let c10 = c9 + le_u32(self.time_offset_brs_ns);
        let c11 = c10 + le_u32(self.time_offset_crc_del_ns);
        let c12 = c11 + le_u16(self.bit_count);
        let c13 = c12 + seq![self.dir];
        let c14 = c13 + seq![self.ext_data_offset];
        lemma_starts_with_self(s);
        lemma_field_u32(c14, self.crc, s);
        lemma_field_u8(c13, self.ext_data_offset, s);
        lemma_field_u8(c12, self.dir, s);
        lemma_field_u16(c11, self.bit_count, s);
        lemma_field_u32(c10, self.time_offset_crc_del_ns, s);
        lemma_field_u32(c9, self.time_offset_brs_ns, s);
        lemma_field_u32(c8, self.btr_cfg_data, s);
        lemma_field_u32(c7, self.btr_cfg_arb, s);
        lemma_field_u32(c6, self.fd_flags.0, s);
        lemma_field_u32(c5, self.frame_length, s);
        lemma_field_u32(c4, self.id, s);
        lemma_field_u8(c3, self.tx_count, s);
        lemma_field_u8(c2, self.valid_data_bytes, s);
        lemma_field_u8(c1, self.dlc, s);
        lemma_field_u8(c0, self.channel, s);
        self.header.law_read_of_prefix(s, base);
        lemma_short_read_none(Self::ends(), 0, s.len() - 32, base + 32);
    }

    /// Writing an object that was read gives back the bytes that it was read from.
    pub proof fn law_write_of_read(self, s: Seq<u8>)
        requires
            self.header.plain(),
            self.reads(s),
            s.len() == 72,
        ensures
            self.encoding() == s,
    {
        self.header.law_write_of_read(s);
        lemma_le_u32_at(s, 36);
        lemma_le_u32_at(s, 40);
        lemma_le_u32_at(s, 44);
        lemma_le_u32_at(s, 48);
        lemma_le_u32_at(s, 52);
        lemma_le_u32_at(s, 56);
        lemma_le_u32_at(s, 60);
        lemma_le_u16_at(s, 64);
        lemma_le_u32_at(s, 68);
        assert(self.encoding() =~= s);
    }

    /// The bytes of an object determine it.
    pub proof fn law_reads_unique(self, other: Self, s: Seq<u8>)
        requires
            self.reads(s),
            other.reads(s),
        ensures
            self.same(other),
    {
        self.header.law_reads_unique(other.header, s);
    }
}

/// Counters of a CAN channel.
#[derive(Debug, Clone, PartialEq, Eq)]
pub struct CanStatistic {
    pub header: LObj,
    pub channel: u16,
    pub bus_load: u16,
    pub data_frames: u32,
    pub ex_data_frames: u32,
    pub remote_frames: u32,
    pub ex_remote_frames: u32,
    pub error_frames: u32,
    pub overload_frames: u32,
    pub reserved: u32,
}

impl CanStatistic {
    /// Where each field ends, counted from the end of the object header.
    pub open spec fn ends() -> Seq<usize> {
        seq![2, 4, 8, 12, 16, 20, 24, 28, 32]
    }

    /// How reading the object fails, if it does.
    pub open spec fn failure(s: Seq<u8>, base: int) -> Option<Failure> {
        if LObj::failure(s, base) is Some {
            LObj::failure(s, base)
        } else {
            short_read(Self::ends(), 0, s.len() - 32, base + 32)
        }
    }

    /// Whether the fields are those that stand in the bytes.
    pub open spec fn reads(self, s: Seq<u8>) -> bool {
        &&& self.header.reads(s)
        &&& self.channel == u16_at(s, 32)
        &&& self.bus_load == u16_at(s, 34)
        &&& self.data_frames == u32_at(s, 36)
        &&& self.ex_data_frames == u32_at(s, 40)
        &&& self.remote_frames == u32_at(s, 44)
        &&& self.ex_remote_frames == u32_at(s, 48)
        &&& self.error_frames == u32_at(s, 52)
        &&& self.overload_frames == u32_at(s, 56)
        &&& self.reserved == u32_at(s, 60)
    }

    /// The bytes of the object.
    pub open spec fn encoding(self) -> Seq<u8> {
        self.header.encoding() + le_u16(self.channel) + le_u16(self.bus_load)
            + le_u32(self.data_frames) + le_u32(self.ex_data_frames) + le_u32(self.remote_frames)
            + le_u32(self.ex_remote_frames) + le_u32(self.error_frames)
            + le_u32(self.overload_frames) + le_u32(self.reserved)
    }

    /// Whether two objects agree in every field.
    pub open spec fn same(self, other: Self) -> bool {
        &&& self.header.same(other.header)
        &&& self.channel == other.channel
        &&& self.bus_load == other.bus_load
        &&& self.data_frames == other.data_frames
        &&& self.ex_data_frames == other.ex_data_frames
        &&& self.remote_frames == other.remote_frames
        &&& self.ex_remote_frames == other.ex_remote_frames
        &&& self.error_frames == other.error_frames
        &&& self.overload_frames == other.overload_frames
        &&& self.reserved == other.reserved
    }

    pub fn new(object_flags: ObjectFlags, timestamp: u64) -> (r: Self)
        ensures
            r.header.is_new(ObjectType::CanStatistic.raw(), object_flags, timestamp, 64),
            r.channel == 0,
            r.bus_load == 0,
            r.data_frames == 0,
            r.ex_data_frames == 0,
            r.remote_frames == 0,
            r.ex_remote_frames == 0,
            r.error_frames == 0,
            r.overload_frames == 0,
            r.reserved == 0,
    {
        CanStatistic {
            header: LObj::new(ObjectType::CanStatistic, object_flags, timestamp, CAN_STATISTIC_SIZE as u32),
            channel: 0,
            bus_load: 0,
            data_frames: 0,
            ex_data_frames: 0,
            remote_frames: 0,
            ex_remote_frames: 0,
            error_frames: 0,
            overload_frames: 0,
            reserved: 0,
        }
    }

    pub fn parse(bytes: &[u8], base: u64) -> (r: Result<Self>)
        requires
            offsets_fit(base, bytes.len(), 64),
            LObj::failure(bytes@, base as int) is None ==> bytes.len() >= 32,
        ensures
            match r {
                Ok(v) => {
                    &&& Self::failure(bytes@, base as int) is None
                    &&& v.reads(bytes@)
                    &&& v.header.valid()
                    &&& bytes.len() >= 64
                },
                Err(e) => Self::failure(bytes@, base as int) == Some(e@),
            },
    {
        let header = LObj::parse(bytes, base)?;
        let ends = [2usize, 4, 8, 12, 16, 20, 24, 28, 32];
        proof {
            assert(ends@ =~= Self::ends());
        }
        check_fields(&ends, bytes.len() - LOBJ_SIZE, base + LOBJ_SIZE as u64)?;
        proof {
            assert(ends[8] == 32);
        }
        Ok(
            CanStatistic {
                header,
                channel: read_u16(bytes, 32),
                bus_load: read_u16(bytes, 34),
                data_frames: read_u32(bytes, 36),
                ex_data_frames: read_u32(bytes, 40),
                remote_frames: read_u32(bytes, 44),
                ex_remote_frames: read_u32(bytes, 48),
                error_frames: read_u32(bytes, 52),
                overload_frames: read_u32(bytes, 56),
                reserved: read_u32(bytes, 60),
            },
        )
    }

    pub fn write_to(&self, out: &mut Vec<u8>)
        ensures
            final(out)@ == old(out)@ + self.encoding(),
    {
        self.header.write_to(out);
        put_u16(out, self.channel);
        put_u16(out, self.bus_load);
        put_u32(out, self.data_frames);
        put_u32(out, self.ex_data_frames);
        put_u32(out, self.remote_frames);
        put_u32(out, self.ex_remote_frames);
        put_u32(out, self.error_frames);
        put_u32(out, self.overload_frames);
        put_u32(out, self.reserved);
        proof {
            assert(out@ =~= old(out)@ + self.encoding());
        }
    }

    /// Whether the header fits the object, so that the bytes of the object can be read
    /// back.
    pub open spec fn canonical(self) -> bool {
        &&& self.header.plain()
    }

    /// Reading the bytes of a canonical object gives back its fields.
    pub proof fn law_read_of_write(self, base: int)
        requires
            self.canonical(),
        ensures
            self.encoding().len() == 64,
            Self::failure(self.encoding(), base) is None,
            self.reads(self.encoding()),
    {
        let s = self.encoding();
        let c0 = self.header.encoding();
        let c1 = c0 + le_u16(self.channel);
        let c2 = c1 + le_u16(self.bus_load);
        let c3 = c2 + le_u32(self.data_frames);
        let c4 = c3 + le_u32(self.ex_data_frames);
        let c5 = c4 + le_u32(self.remote_frames);
        let c6 = c5 + le_u32(self.ex_remote_frames);
        let c7 = c6 + le_u32(self.error_frames);
        let c8 = c7 + le_u32(self.overload_frames);
        lemma_starts_with_self(s);
        lemma_field_u32(c8, self.reserved, s);
        lemma_field_u32(c7, self.overload_frames, s);
        lemma_field_u32(c6, self.error_frames, s);
        lemma_field_u32(c5, self.ex_remote_frames, s);
        lemma_field_u32(c4, self.remote_frames, s);
        lemma_field_u32(c3, self.ex_data_frames, s);
        lemma_field_u32(c2, self.data_frames, s);
        lemma_field_u16(c1, self.bus_load, s);
        lemma_field_u16(c0, self.channel, s);
        self.header.law_read_of_prefix(s, base);
        lemma_short_read_none(Self::ends(), 0, s.len() - 32, base + 32);
    }

    /// Writing an object that was read gives back the bytes that it was read from.
    pub proof fn law_write_of_read(self, s: Seq<u8>)
        requires
            self.header.plain(),
            self.reads(s),
            s.len() == 64,
        ensures
            self.encoding() == s,
    {
        self.header.law_write_of_read(s);
        lemma_le_u16_at(s, 32);
        lemma_le_u16_at(s, 34);
        lemma_le_u32_at(s, 36);
        lemma_le_u32_at(s, 40);
        lemma_le_u32_at(s, 44);
        lemma_le_u32_at(s, 48);
        lemma_le_u32_at(s, 52);
        lemma_le_u32_at(s, 56);
        lemma_le_u32_at(s, 60);
        assert(self.encoding() =~= s);
    }

    /// The bytes of an object determine it.
    pub proof fn law_reads_unique(self, other: Self, s: Seq<u8>)
        requires
            self.reads(s),
            other.reads(s),
        ensures
            self.same(other),
    {
        self.header.law_reads_unique(other.header, s);
    }
}

/// Error state of a CAN driver.
#[derive(Debug, Clone, PartialEq, Eq)]
pub struct CanDriverError {
    pub header: LObj,
    pub channel: u16,
    pub tx_errors: u8,
    pub rx_errors: u8,
    pub error_code: u32,
}

impl CanDriverError {
    /// Where each field ends, counted from the end of the object header.
    pub open spec fn ends() -> Seq<usize> {
        seq![2, 3, 4, 8]
    }

    /// How reading the object fails, if it does.
    pub open spec fn failure(s: Seq<u8>, base: int) -> Option<Failure> {
        if LObj::failure(s, base) is Some {
            LObj::failure(s, base)
        } else {
            short_read(Self::ends(), 0, s.len() - 32, base + 32)
        }
    }

    /// Whether the fields are those that stand in the bytes.
    pub open spec fn reads(self, s: Seq<u8>) -> bool {
        &&& self.header.reads(s)
        &&& self.channel == u16_at(s, 32)
        &&& self.tx_errors == s[34]
        &&& self.rx_errors == s[35]
        &&& self.error_code == u32_at(s, 36)
    }

    /// The bytes of the object.
    pub open spec fn encoding(self) -> Seq<u8> {
        self.header.encoding() + le_u16(self.channel) + seq![self.tx_errors] + seq![self.rx_errors]
            + le_u32(self.error_code)
    }

    /// Whether two objects agree in every field.
    pub open spec fn same(self, other: Self) -> bool {
        &&& self.header.same(other.header)
        &&& self.channel == other.channel
        &&& self.tx_errors == other.tx_errors
        &&& self.rx_errors == other.rx_errors
        &&& self.error_code == other.error_code
    }

    pub fn new(object_flags: ObjectFlags, timestamp: u64) -> (r: Self)
        ensures
            r.header.is_new(ObjectType::CanDriverError.raw(), object_flags, timestamp, 40),
            r.channel == 0,
            r.tx_errors == 0,
            r.rx_errors == 0,
            r.error_code == 0,
    {
        CanDriverError {
            header: LObj::new(ObjectType::CanDriverError, object_flags, timestamp, CAN_DRIVER_ERROR_SIZE as u32),
            channel: 0,
            tx_errors: 0,
            rx_errors: 0,
            error_code: 0,
        }
    }

    pub fn parse(bytes: &[u8], base: u64) -> (r: Result<Self>)
        requires
            offsets_fit(base, bytes.len(), 40),
            LObj::failure(bytes@, base as int) is None ==> bytes.len() >= 32,
        ensures
            match r {
                Ok(v) => {
                    &&& Self::failure(bytes@, base as int) is None
                    &&& v.reads(bytes@)
                    &&& v.header.valid()
                    &&& bytes.len() >= 40
                },
                Err(e) => Self::failure(bytes@, base as int) == Some(e@),
            },
    {
        let header = LObj::parse(bytes, base)?;
        let ends = [2usize, 3, 4, 8];
        proof {
            assert(ends@ =~= Self::ends());
        }
        check_fields(&ends, bytes.len() - LOBJ_SIZE, base + LOBJ_SIZE as u64)?;
        proof {
            assert(ends[3] == 8);
        }
        Ok(
            CanDriverError {
                header,
                channel: read_u16(bytes, 32),
                tx_errors: bytes[34],
                rx_errors: bytes[35],
                error_code: read_u32(bytes, 36),
            },
        )
    }

    pub fn write_to(&self, out: &mut Vec<u8>)
        ensures
            final(out)@ == old(out)@ + self.encoding(),
    {
        self.header.write_to(out);
        put_u16(out, self.channel);
        put_u8(out, self.tx_errors);
        put_u8(out, self.rx_errors);
        put_u32(out, self.error_code);
        proof {
            assert(out@ =~= old(out)@ + self.encoding());
        }
    }

    /// Whether the header fits the object, so that the bytes of the object can be read
    /// back.
    pub open spec fn canonical(self) -> bool {
        &&& self.header.plain()
    }

    /// Reading the bytes of a canonical object gives back its fields.
    pub proof fn law_read_of_write(self, base: int)
        requires
            self.canonical(),
        ensures
            self.encoding().len() == 40,
            Self::failure(self.encoding(), base) is None,
            self.reads(self.encoding()),
    {
        let s = self.encoding();
        let c0 = self.header.encoding();
        let c1 = c0 + le_u16(self.channel);
        let c2 = c1 + seq![self.tx_errors];
        let c3 = c2 + seq![self.rx_errors];
        lemma_starts_with_self(s);
        lemma_field_u32(c3, self.error_code, s);
        lemma_field_u8(c2, self.rx_errors, s);
        lemma_field_u8(c1, self.tx_errors, s);
        lemma_field_u16(c0, self.channel, s);
        self.header.law_read_of_prefix(s, base);
        lemma_short_read_none(Self::ends(), 0, s.len() - 32, base + 32);
    }

    /// Writing an object that was read gives back the bytes that it was read from.
    pub proof fn law_write_of_read(self, s: Seq<u8>)
        requires
            self.header.plain(),
            self.reads(s),
            s.len() == 40,
        ensures
            self.encoding() == s,
    {
        self.header.law_write_of_read(s);
        lemma_le_u16_at(s, 32);
        lemma_le_u32_at(s, 36);
        assert(self.encoding() =~= s);
    }

    /// The bytes of an object determine it.
    pub proof fn law_reads_unique(self, other: Self, s: Seq<u8>)
        requires
            self.reads(s),
            other.reads(s),
        ensures
            self.same(other),
    {
        self.header.law_reads_unique(other.header, s);
    }
}

/// A CAN overload frame.
#[derive(Debug, Clone, PartialEq, Eq)]
pub struct CanOverload {
    pub header: LObj,
    pub channel: u16,
    pub reserved1: u16,
    pub reserved2: u32,
}

impl CanOverload {
    /// Where each field ends, counted from the end of the object header.
    pub open spec fn ends() -> Seq<usize> {
        seq![2, 4, 8]
    }

    /// How reading the object fails, if it does.
    pub open spec fn failure(s: Seq<u8>, base: int) -> Option<Failure> {
        if LObj::failure(s, base) is Some {
            LObj::failure(s, base)
        } else {
            short_read(Self::ends(), 0, s.len() - 32, base + 32)
        }
    }

    /// Whether the fields are those that stand in the bytes.
    pub open spec fn reads(self, s: Seq<u8>) -> bool {
        &&& self.header.reads(s)
        &&& self.channel == u16_at(s, 32)
        &&& self.reserved1 == u16_at(s, 34)
        &&& self.reserved2 == u32_at(s, 36)
    }

    /// The bytes of the object.
    pub open spec fn encoding(self) -> Seq<u8> {
        self.header.encoding() + le_u16(self.channel) + le_u16(self.reserved1)
            + le_u32(self.reserved2)
    }

    /// Whether two objects agree in every field.
    pub open spec fn same(self, other: Self) -> bool {
        &&& self.header.same(other.header)
        &&& self.channel == other.channel
        &&& self.reserved1 == other.reserved1
        &&& self.reserved2 == other.reserved2
    }

    pub fn new(object_flags: ObjectFlags, timestamp: u64) -> (r: Self)
        ensures
            r.header.is_new(ObjectType::CanOverload.raw(), object_flags, timestamp, 40),
            r.channel == 0,
            r.reserved1 == 0,
            r.reserved2 == 0,
    {
        CanOverload {
            header: LObj::new(ObjectType::CanOverload, object_flags, timestamp, CAN_OVERLOAD_SIZE as u32),
            channel: 0,
            reserved1: 0,
            reserved2: 0,
        }
    }

    pub fn parse(bytes: &[u8], base: u64) -> (r: Result<Self>)
        requires
            offsets_fit(base, bytes.len(), 40),
            LObj::failure(bytes@, base as int) is None ==> bytes.len() >= 32,
        ensures
            match r {
                Ok(v) => {
                    &&& Self::failure(bytes@, base as int) is None
                    &&& v.reads(bytes@)
                    &&& v.header.valid()
                    &&& bytes.len() >= 40
                },
                Err(e) => Self::failure(bytes@, base as int) == Some(e@),
            },
    {
        let header = LObj::parse(bytes, base)?;
        let ends = [2usize, 4, 8];
        proof {
            assert(ends@ =~= Self::ends());
        }
        check_fields(&ends, bytes.len() - LOBJ_SIZE, base + LOBJ_SIZE as u64)?;
        proof {
            assert(ends[2] == 8);
        }
        Ok(
            CanOverload {
                header,
                channel: read_u16(bytes, 32),
                reserved1: read_u16(bytes, 34),
                reserved2: read_u32(bytes, 36),
            },
        )
    }

    pub fn write_to(&self, out: &mut Vec<u8>)
        ensures
            final(out)@ == old(out)@ + self.encoding(),
    {
        self.header.write_to(out);
        put_u16(out, self.channel);
        put_u16(out, self.reserved1);
        put_u32(out, self.reserved2);
        proof {
            assert(out@ =~= old(out)@ + self.encoding());
        }
    }

    /// Whether the header fits the object, so that the bytes of the object can be read
    /// back.
    pub open spec fn canonical(self) -> bool {
        &&& self.header.plain()
    }

    /// Reading the bytes of a canonical object gives back its fields.
    pub proof fn law_read_of_write(self, base: int)
        requires
            self.canonical(),
        ensures
            self.encoding().len() == 40,
            Self::failure(self.encoding(), base) is None,
            self.reads(self.encoding()),
    {
        let s = self.encoding();
        let c0 = self.header.encoding();
        let c1 = c0 + le_u16(self.channel);
        let c2 = c1 + le_u16(self.reserved1);
        lemma_starts_with_self(s);
        lemma_field_u32(c2, self.reserved2, s);
        lemma_field_u16(c1, self.reserved1, s);
        lemma_field_u16(c0, self.channel, s);
        self.header.law_read_of_prefix(s, base);
        lemma_short_read_none(Self::ends(), 0, s.len() - 32, base + 32);
    }

    /// Writing an object that was read gives back the bytes that it was read from.
    pub proof fn law_write_of_read(self, s: Seq<u8>)
        requires
            self.header.plain(),
            self.reads(s),
            s.len() == 40,
        ensures
            self.encoding() == s,
    {
        self.header.law_write_of_read(s);
        lemma_le_u16_at(s, 32);
        lemma_le_u16_at(s, 34);
        lemma_le_u32_at(s, 36);
        assert(self.encoding() =~= s);
    }

    /// The bytes of an object determine it.
    pub proof fn law_reads_unique(self, other: Self, s: Seq<u8>)
        requires
            self.reads(s),
            other.reads(s),
        ensures
            self.same(other),
    {
        self.header.law_reads_unique(other.header, s);
    }
}

/// A hardware synchronization event reported by a CAN driver.
#[derive(Debug, Clone, PartialEq, Eq)]
pub struct CanDriverSync {
    pub header: LObj,
    pub channel: u16,
    pub flags: u8,
    pub reserved1: u8,
    pub reserved2: u32,
}

impl CanDriverSync {
    pub const TX: u8 = 1;

    pub const RX: u8 = 2;

    pub const RX_THIS: u8 = 4;

    /// Where each field ends, counted from the end of the object header.
    pub open spec fn ends() -> Seq<usize> {
        seq![2, 3, 4, 8]
    }

    /// How reading the object fails, if it does.
    pub open spec fn failure(s: Seq<u8>, base: int) -> Option<Failure> {
        if LObj::failure(s, base) is Some {
            LObj::failure(s, base)
        } else {
            short_read(Self::ends(), 0, s.len() - 32, base + 32)
        }
    }

    /// Whether the fields are those that stand in the bytes.
    pub open spec fn reads(self, s: Seq<u8>) -> bool {
        &&& self.header.reads(s)
        &&& self.channel == u16_at(s, 32)
        &&& self.flags == s[34]
        &&& self.reserved1 == s[35]
        &&& self.reserved2 == u32_at(s, 36)
    }

    /// The bytes of the object.
    pub open spec fn encoding(self) -> Seq<u8> {
        self.header.encoding() + le_u16(self.channel) + seq![self.flags] + seq![self.reserved1]
            + le_u32(self.reserved2)
    }

    /// Whether two objects agree in every field.
    pub open spec fn same(self, other: Self) -> bool {
        &&& self.header.same(other.header)
        &&& self.channel == other.channel
        &&& self.flags == other.flags
        &&& self.reserved1 == other.reserved1
        &&& self.reserved2 == other.reserved2
    }

    pub fn new(object_flags: ObjectFlags, timestamp: u64) -> (r: Self)
        ensures
            r.header.is_new(ObjectType::CanDriverSync.raw(), object_flags, timestamp, 40),
            r.channel == 0,
            r.flags == 0,
            r.reserved1 == 0,
            r.reserved2 == 0,
    {
        CanDriverSync {
            header: LObj::new(ObjectType::CanDriverSync, object_flags, timestamp, CAN_DRIVER_SYNC_SIZE as u32),
            channel: 0,
            flags: 0,
            reserved1: 0,
            reserved2: 0,
        }
    }

    pub fn parse(bytes: &[u8], base: u64) -> (r: Result<Self>)
        requires
            offsets_fit(base, bytes.len(), 40),
            LObj::failure(bytes@, base as int) is None ==> bytes.len() >= 32,
        ensures
            match r {
                Ok(v) => {
                    &&& Self::failure(bytes@, base as int) is None
                    &&& v.reads(bytes@)
                    &&& v.header.valid()
                    &&& bytes.len() >= 40
                },
                Err(e) => Self::failure(bytes@, base as int) == Some(e@),
            },
    {
        let header = LObj::parse(bytes, base)?;
        let ends = [2usize, 3, 4, 8];
        proof {
            assert(ends@ =~= Self::ends());
        }
        check_fields(&ends, bytes.len() - LOBJ_SIZE, base + LOBJ_SIZE as u64)?;
        proof {
            assert(ends[3] == 8);
        }
        Ok(
            CanDriverSync {
                header,
                channel: read_u16(bytes, 32),
                flags: bytes[34],
                reserved1: bytes[35],
                reserved2: read_u32(bytes, 36),
            },
        )
    }

    pub fn write_to(&self, out: &mut Vec<u8>)
        ensures
            final(out)@ == old(out)@ + self.encoding(),
    {
        self.header.write_to(out);
        put_u16(out, self.channel);
        put_u8(out, self.flags);
        put_u8(out, self.reserved1);
        put_u32(out, self.reserved2);
        proof {
            assert(out@ =~= old(out)@ + self.encoding());
        }
    }

    /// Whether the header fits the object, so that the bytes of the object can be read
    /// back.
    pub open spec fn canonical(self) -> bool {
        &&& self.header.plain()
    }

    /// Reading the bytes of a canonical object gives back its fields.
    pub proof fn law_read_of_write(self, base: int)
        requires
            self.canonical(),
        ensures
            self.encoding().len() == 40,
            Self::failure(self.encoding(), base) is None,
            self.reads(self.encoding()),
    {
        let s = self.encoding();
        let c0 = self.header.encoding();
        let c1 = c0 + le_u16(self.channel);
        let c2 = c1 + seq![self.flags];
        let c3 = c2 + seq![self.reserved1];
        lemma_starts_with_self(s);
        lemma_field_u32(c3, self.reserved2, s);
        lemma_field_u8(c2, self.reserved1, s);
        lemma_field_u8(c1, self.flags, s);
        lemma_field_u16(c0, self.channel, s);
        self.header.law_read_of_prefix(s, base);
        lemma_short_read_none(Self::ends(), 0, s.len() - 32, base + 32);
    }

    /// Writing an object that was read gives back the bytes that it was read from.
    pub proof fn law_write_of_read(self, s: Seq<u8>)
        requires
            self.header.plain(),
            self.reads(s),
            s.len() == 40,
        ensures
            self.encoding() == s,
    {
        self.header.law_write_of_read(s);
        lemma_le_u16_at(s, 32);
        lemma_le_u32_at(s, 36);
        assert(self.encoding() =~= s);
    }

    /// The bytes of an object determine it.
    pub proof fn law_reads_unique(self, other: Self, s: Seq<u8>)
        requires
            self.reads(s),
            other.reads(s),
        ensures
            self.same(other),
    {
        self.header.law_reads_unique(other.header, s);
    }
}

/// Extended CAN driver error state.
#[derive(Debug, Clone, PartialEq, Eq)]
pub struct CanDriverErrorExt {
    pub header: LObj,
    pub channel: u16,
    pub tx_errors: u8,
    pub rx_errors: u8,
    pub error_code: u32,
    pub flags: u32,
    pub state: u8,
    pub reserved1: u8,
    pub reserved2: u16,
    pub reserved3: [u32; 4],
}

impl CanDriverErrorExt {
    /// Where each field ends, counted from the end of the object header.
    pub open spec fn ends() -> Seq<usize> {
        seq![2, 3, 4, 8, 12, 13, 14, 16, 20, 24, 28, 32]
    }

    /// How reading the object fails, if it does.
    pub open spec fn failure(s: Seq<u8>, base: int) -> Option<Failure> {
        if LObj::failure(s, base) is Some {
            LObj::failure(s, base)
        } else {
            short_read(Self::ends(), 0, s.len() - 32, base + 32)
        }
    }

    /// Whether the fields are those that stand in the bytes.
    pub open spec fn reads(self, s: Seq<u8>) -> bool {
        &&& self.header.reads(s)
        &&& self.channel == u16_at(s, 32)
        &&& self.tx_errors == s[34]
        &&& self.rx_errors == s[35]
        &&& self.error_code == u32_at(s, 36)
        &&& self.flags == u32_at(s, 40)
        &&& self.state == s[44]
        &&& self.reserved1 == s[45]
        &&& self.reserved2 == u16_at(s, 46)
        &&& self.reserved3@ == seq![u32_at(s, 48), u32_at(s, 52), u32_at(s, 56), u32_at(s, 60)]
    }

    /// The bytes of the object.
    pub open spec fn encoding(self) -> Seq<u8> {
        self.header.encoding() + le_u16(self.channel) + seq![self.tx_errors] + seq![self.rx_errors]
            + le_u32(self.error_code) + le_u32(self.flags) + seq![self.state] + seq![self.reserved1]
            + le_u16(self.reserved2) + le_u32(self.reserved3@[0]) + le_u32(self.reserved3@[1])
            + le_u32(self.reserved3@[2]) + le_u32(self.reserved3@[3])
    }

    /// Whether two objects agree in every field.
    pub open spec fn same(self, other: Self) -> bool {
        &&& self.header.same(other.header)
        &&& self.channel == other.channel
        &&& self.tx_errors == other.tx_errors
        &&& self.rx_errors == other.rx_errors
        &&& self.error_code == other.error_code
        &&& self.flags == other.flags
        &&& self.state == other.state
        &&& self.reserved1 == other.reserved1
        &&& self.reserved2 == other.reserved2
        &&& self.reserved3@ == other.reserved3@
    }

    pub fn new(object_flags: ObjectFlags, timestamp: u64) -> (r: Self)
        ensures
            r.header.is_new(ObjectType::CanDriverErrorExt.raw(), object_flags, timestamp, 64),
            r.channel == 0,
            r.tx_errors == 0,
            r.rx_errors == 0,
            r.error_code == 0,
            r.flags == 0,
            r.state == 0,
            r.reserved1 == 0,
            r.reserved2 == 0,
            r.reserved3@ == Seq::new(4, |i: int| 0u32),
    {
        let r = CanDriverErrorExt {
            header: LObj::new(
                ObjectType::CanDriverErrorExt,
                object_flags,
                timestamp,
                CAN_DRIVER_ERROR_EXT_SIZE as u32
            ),
            channel: 0,
            tx_errors: 0,
            rx_errors: 0,
            error_code: 0,
            flags: 0,
            state: 0,
            reserved1: 0,
            reserved2: 0,
            reserved3: [0; 4],
        };
        proof {
            assert(r.reserved3@ =~= Seq::new(4, |i: int| 0u32));
        }
        r
    }

    pub fn parse(bytes: &[u8], base: u64) -> (r: Result<Self>)
        requires
            offsets_fit(base, bytes.len(), 64),
            LObj::failure(bytes@, base as int) is None ==> bytes.len() >= 32,
        ensures
            match r {
                Ok(v) => {
                    &&& Self::failure(bytes@, base as int) is None
                    &&& v.reads(bytes@)
                    &&& v.header.valid()
                    &&& bytes.len() >= 64
                },
                Err(e) => Self::failure(bytes@, base as int) == Some(e@),
            },
    {
        let header = LObj::parse(bytes, base)?;
        let ends = [2usize, 3, 4, 8, 12, 13, 14, 16, 20, 24, 28, 32];
        proof {
            assert(ends@ =~= Self::ends());
        }
        check_fields(&ends, bytes.len() - LOBJ_SIZE, base + LOBJ_SIZE as u64)?;
        proof {
            assert(ends[11] == 32);
        }
        let r = CanDriverErrorExt {
                header,
                channel: read_u16(bytes, 32),
                tx_errors: bytes[34],
                rx_errors: bytes[35],
                error_code: read_u32(bytes, 36),
                flags: read_u32(bytes, 40),
                state: bytes[44],
                reserved1: bytes[45],
                reserved2: read_u16(bytes, 46),
                reserved3: [read_u32(bytes, 48), read_u32(bytes, 52), read_u32(bytes, 56), read_u32(bytes, 60)],
            };
        proof {
            assert(
                r.reserved3@ =~= seq![
                    u32_at(bytes@, 48),
                    u32_at(bytes@, 52),
                    u32_at(bytes@, 56),
                    u32_at(bytes@, 60)
                ]
            );
        }
        Ok(r)
    }

    pub fn write_to(&self, out: &mut Vec<u8>)
        ensures
            final(out)@ == old(out)@ + self.encoding(),
    {
        self.header.write_to(out);
        put_u16(out, self.channel);
        put_u8(out, self.tx_errors);
        put_u8(out, self.rx_errors);
        put_u32(out, self.error_code);
        put_u32(out, self.flags);
        put_u8(out, self.state);
        put_u8(out, self.reserved1);
        put_u16(out, self.reserved2);
        put_u32(out, self.reserved3[0]);
        put_u32(out, self.reserved3[1]);
        put_u32(out, self.reserved3[2]);
        put_u32(out, self.reserved3[3]);
        proof {
            assert(out@ =~= old(out)@ + self.encoding());
        }
    }

    /// Whether the header fits the object, so that the bytes of the object can be read
    /// back.
    pub open spec fn canonical(self) -> bool {
        &&& self.header.plain()
    }

    /// Reading the bytes of a canonical object gives back its fields.
    pub proof fn law_read_of_write(self, base: int)
        requires
            self.canonical(),
        ensures
            self.encoding().len() == 64,
            Self::failure(self.encoding(), base) is None,
            self.reads(self.encoding()),
    {
        let s = self.encoding();
        let c0 = self.header.encoding();
        let c1 = c0 + le_u16(self.channel);
        let c2 = c1 + seq![self.tx_errors];
        let c3 = c2 + seq![self.rx_errors];
        let c4 = c3 + le_u32(self.error_code);
        let c5 = c4 + le_u32(self.flags);
        let c6 = c5 + seq![self.state];
        let c7 = c6 + seq![self.reserved1];
        let c8 = c7 + le_u16(self.reserved2);
        let c9 = c8 + le_u32(self.reserved3@[0]);
        let c10 = c9 + le_u32(self.reserved3@[1]);
        let c11 = c10 + le_u32(self.reserved3@[2]);
        lemma_starts_with_self(s);
        lemma_field_u32(c11, self.reserved3@[3], s);
        lemma_field_u32(c10, self.reserved3@[2], s);
        lemma_field_u32(c9, self.reserved3@[1], s);
        lemma_field_u32(c8, self.reserved3@[0], s);
        lemma_field_u16(c7, self.reserved2, s);
        lemma_field_u8(c6, self.reserved1, s);
        lemma_field_u8(c5, self.state, s);
        lemma_field_u32(c4, self.flags, s);
        lemma_field_u32(c3, self.error_code, s);
        lemma_field_u8(c2, self.rx_errors, s);
        lemma_field_u8(c1, self.tx_errors, s);
        lemma_field_u16(c0, self.channel, s);
        self.header.law_read_of_prefix(s, base);
        lemma_short_read_none(Self::ends(), 0, s.len() - 32, base + 32);
        assert(self.reserved3@ =~= seq![u32_at(s, 48), u32_at(s, 52), u32_at(s, 56), u32_at(s, 60)]);
    }

    /// Writing an object that was read gives back the bytes that it was read from.
    pub proof fn law_write_of_read(self, s: Seq<u8>)
        requires
            self.header.plain(),
            self.reads(s),
            s.len() == 64,
        ensures
            self.encoding() == s,
    {
        self.header.law_write_of_read(s);
        lemma_le_u16_at(s, 32);
        lemma_le_u32_at(s, 36);
        lemma_le_u32_at(s, 40);
        lemma_le_u16_at(s, 46);
        lemma_le_u32_at(s, 48);
        lemma_le_u32_at(s, 52);
        lemma_le_u32_at(s, 56);
        lemma_le_u32_at(s, 60);
        assert(self.encoding() =~= s);
    }

    /// The bytes of an object determine it.
    pub proof fn law_reads_unique(self, other: Self, s: Seq<u8>)
        requires
            self.reads(s),
            other.reads(s),
        ensures
            self.same(other),
    {
        self.header.law_reads_unique(other.header, s);
    }
}

} // verus!
