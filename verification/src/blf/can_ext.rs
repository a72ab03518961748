//! CAN objects of variable size.

use crate::blf::bytes::{
    check_fields, le_u16, le_u32, lemma_field_bytes, lemma_field_u16, lemma_field_u32,
    lemma_field_u8, lemma_le_u16_at, lemma_le_u32_at, lemma_low32, lemma_low8,
    lemma_short_read_none, lemma_starts_with_self, low32, low8, low_u8, put_bytes, put_u16,
    put_u32, put_u8, read_bytes, read_u16, read_u32, short_read, size2_u32, size_u32, u16_at,
    u32_at,
    offsets_fit,
};
use crate::blf::can::{CanFdMessage64, CAN_FD_MESSAGE64_SIZE};
use crate::blf::error::{parse_err, Failure, Result};
use crate::blf::flags::{
    CanErrorExtFlags, CanErrorExtValidFlags, CanFd64Flags, EccFlags, ObjectFlags,
};
use crate::blf::header::{LObj, ObjBase, LOBJ_SIZE};
use crate::blf::object_type::ObjectType;
use crate::text::{dec, push_dec};
use vstd::prelude::*;

verus! {

pub const CAN_ERROR_EXT_SIZE: usize = 56;

pub const CAN_FD_ERROR64_SIZE: usize = 76;

pub const CAN_SETTING_CHANGED_SIZE: usize = 43;

/// The header with another object size.
pub open spec fn resized(header: LObj, object_size: u32) -> LObj {
    LObj { base: ObjBase { object_size, ..header.base }, ..header }
}

/// An offset as one byte; one that does not fit is written as the largest.
pub open spec fn byte_offset(n: int) -> u8 {
    if n <= 255 {
        n as u8
    } else {
        255
    }
}

fn offset_u8(fixed: usize, n: usize) -> (r: u8)
    requires
        fixed <= 255,
    ensures
        r == byte_offset(fixed + n),
{
    if n <= 255 - fixed {
        (fixed + n) as u8
    } else {
        255
    }
}

/// An extended CAN error frame.
#[derive(Debug, Clone, PartialEq, Eq)]
pub struct CanErrorExt {
    pub header: LObj,
    pub channel: u16,
    pub length: u16,
    pub valid_flags: CanErrorExtValidFlags,
    pub ecc: EccFlags,
    pub position: u8,
    pub dlc: u8,
    pub reserved: u8,
    pub frame_length_ns: u32,
    pub id: u32,
    pub flags: CanErrorExtFlags,
    pub reserved2: u16,
    /// Optional payload bytes reported by newer CAN cores.
    pub data: Vec<u8>,
}

impl CanErrorExt {
    /// Where each field ends, counted from the end of the object header.
    pub open spec fn ends() -> Seq<usize> {
        seq![2, 4, 8, 9, 10, 11, 12, 16, 20, 22, 24]
    }

    /// How reading the object fails, if it does.
    pub open spec fn failure(s: Seq<u8>, base: int) -> Option<Failure> {
        let size = u32_at(s, 8);
        if LObj::failure(s, base) is Some {
            LObj::failure(s, base)
        } else if short_read(Self::ends(), 0, s.len() - 32, base + 32) is Some {
            short_read(Self::ends(), 0, s.len() - 32, base + 32)
        } else if size < 56 || size > s.len() {
            Some(
                Failure::Parse(
                    base,
                    "CAN_ERROR_EXT object size "@ + dec(size as nat) + " is out of bounds"@,
                ),
            )
        } else {
            None
        }
    }

    /// Whether the fields are those that stand in the bytes.
    pub open spec fn reads(self, s: Seq<u8>) -> bool {
        &&& self.header.reads(s)
        &&& self.channel == u16_at(s, 32)
        &&& self.length == u16_at(s, 34)
        &&& self.valid_flags.0 == u32_at(s, 36)
        &&& self.ecc.0 == s[40]
        &&& self.position == s[41]
        &&& self.dlc == s[42]
        &&& self.reserved == s[43]
        &&& self.frame_length_ns == u32_at(s, 44)
        &&& self.id == u32_at(s, 48)
        &&& self.flags.0 == u16_at(s, 52)
        &&& self.reserved2 == u16_at(s, 54)
        &&& self.data@ == s.subrange(56, u32_at(s, 8) as int)
    }

    /// Number of bytes of the object.
    pub open spec fn total(self) -> int {
        (56 + self.data@.len()) as int
    }

    /// The bytes of the object.
    pub open spec fn encoding(self) -> Seq<u8> {
        self.header.sized_encoding(low32(self.total())) + le_u16(self.channel) + le_u16(self.length)
            + le_u32(self.valid_flags.0) + seq![self.ecc.0] + seq![self.position] + seq![self.dlc]
            + seq![self.reserved] + le_u32(self.frame_length_ns) + le_u32(self.id)
            + le_u16(self.flags.0) + le_u16(self.reserved2) + self.data@
    }

    /// Whether two objects agree in every field.
    pub open spec fn same(self, other: Self) -> bool {
        &&& self.header.same(other.header)
        &&& self.channel == other.channel
        &&& self.length == other.length
        &&& self.valid_flags == other.valid_flags
        &&& self.ecc == other.ecc
        &&& self.position == other.position
        &&& self.dlc == other.dlc
        &&& self.reserved == other.reserved
        &&& self.frame_length_ns == other.frame_length_ns
        &&& self.id == other.id
        &&& self.flags == other.flags
        &&& self.reserved2 == other.reserved2
        &&& self.data@ == other.data@
    }

    pub fn new(object_flags: ObjectFlags, timestamp: u64) -> (r: Self)
        ensures
            r.header.is_new(ObjectType::CanErrorExt.raw(), object_flags, timestamp, 56),
            r.channel == 0,
            r.length == 0,
            r.valid_flags.0 == 0,
            r.ecc.0 == 0,
            r.position == 0,
            r.dlc == 0,
            r.reserved == 0,
            r.frame_length_ns == 0,
            r.id == 0,
            r.flags.0 == 0,
            r.reserved2 == 0,
            r.data@.len() == 0,
    {
        CanErrorExt {
            header: LObj::new(
                ObjectType::CanErrorExt,
                object_flags,
                timestamp,
                CAN_ERROR_EXT_SIZE as u32,
            ),
            channel: 0,
            length: 0,
            valid_flags: CanErrorExtValidFlags(0),
            ecc: EccFlags(0),
            position: 0,
            dlc: 0,
            reserved: 0,
            frame_length_ns: 0,
            id: 0,
            flags: CanErrorExtFlags(0),
            reserved2: 0,
            data: Vec::new(),
        }
    }

    pub fn parse(bytes: &[u8], base: u64) -> (r: Result<Self>)
        requires
            offsets_fit(base, bytes.len(), 56),
            LObj::failure(bytes@, base as int) is None ==> bytes.len() >= 32,
        ensures
            match r {
                Ok(v) => {
                    &&& Self::failure(bytes@, base as int) is None
                    &&& v.reads(bytes@)
                    &&& v.header.valid()
                    &&& 56 <= v.header.base.object_size <= bytes.len()
                },
                Err(e) => Self::failure(bytes@, base as int) == Some(e@),
            },
    {
        let header = LObj::parse(bytes, base)?;
        let ends = [2usize, 4, 8, 9, 10, 11, 12, 16, 20, 22, 24];
        proof {
            assert(ends@ =~= Self::ends());
        }
        check_fields(&ends, bytes.len() - LOBJ_SIZE, base + LOBJ_SIZE as u64)?;
        proof {
            assert(ends[10] == 24);
        }
        let object_size: usize = header.base.object_size as usize;
        if object_size < CAN_ERROR_EXT_SIZE || object_size > bytes.len() {
            let mut message = "CAN_ERROR_EXT object size ".to_string();
            push_dec(&mut message, object_size as u64);
            message.append(" is out of bounds");
            return parse_err(base, message);
        }
        Ok(
            CanErrorExt {
                header,
                channel: read_u16(bytes, 32),
                length: read_u16(bytes, 34),
                valid_flags: CanErrorExtValidFlags(read_u32(bytes, 36)),
                ecc: EccFlags(bytes[40]),
                position: bytes[41],
                dlc: bytes[42],
                reserved: bytes[43],
                frame_length_ns: read_u32(bytes, 44),
                id: read_u32(bytes, 48),
                flags: CanErrorExtFlags(read_u16(bytes, 52)),
                reserved2: read_u16(bytes, 54),
                data: read_bytes(bytes, CAN_ERROR_EXT_SIZE, object_size),
            },
        )
    }

    #[verifier::rlimit(60)]
    pub fn write_to(&self, out: &mut Vec<u8>)
        ensures
            final(out)@ == old(out)@ + self.encoding(),
    {
        self.header.write_sized(size_u32(CAN_ERROR_EXT_SIZE as u32, self.data.len()), out);
        put_u16(out, self.channel);
        put_u16(out, self.length);
        put_u32(out, self.valid_flags.0);
        put_u8(out, self.ecc.0);
        put_u8(out, self.position);
        put_u8(out, self.dlc);
        put_u8(out, self.reserved);
        put_u32(out, self.frame_length_ns);
        put_u32(out, self.id);
        put_u16(out, self.flags.0);
        put_u16(out, self.reserved2);
        put_bytes(out, &self.data);
        proof {
            assert(out@ =~= old(out)@ + self.encoding());
        }
    }

    /// Whether the header fits the object, so that the bytes of the object can be read
    /// back.
    pub open spec fn canonical(self) -> bool {
        &&& self.header.plain()
        &&& self.header.base.object_size == self.total()
    }

    /// Reading the bytes of a canonical object gives back its fields.
    pub proof fn law_read_of_write(self, base: int)
        requires
            self.canonical(),
        ensures
            self.encoding().len() == self.total(),
            Self::failure(self.encoding(), base) is None,
            self.reads(self.encoding()),
    {
        let s = self.encoding();
        lemma_low32(self.total());
        let c0 = self.header.encoding();
        let c1 = c0 + le_u16(self.channel);
        let c2 = c1 + le_u16(self.length);
        let c3 = c2 + le_u32(self.valid_flags.0);
        let c4 = c3 + seq![self.ecc.0];
        let c5 = c4 + seq![self.position];
        let c6 = c5 + seq![self.dlc];
        let c7 = c6 + seq![self.reserved];
        let c8 = c7 + le_u32(self.frame_length_ns);
        let c9 = c8 + le_u32(self.id);
        let c10 = c9 + le_u16(self.flags.0);
        let c11 = c10 + le_u16(self.reserved2);
        lemma_starts_with_self(s);
        lemma_field_bytes(c11, self.data@, s);
        lemma_field_u16(c10, self.reserved2, s);
        lemma_field_u16(c9, self.flags.0, s);
        lemma_field_u32(c8, self.id, s);
        lemma_field_u32(c7, self.frame_length_ns, s);
        lemma_field_u8(c6, self.reserved, s);
        lemma_field_u8(c5, self.dlc, s);
        lemma_field_u8(c4, self.position, s);
        lemma_field_u8(c3, self.ecc.0, s);
        lemma_field_u32(c2, self.valid_flags.0, s);
        lemma_field_u16(c1, self.length, s);
        lemma_field_u16(c0, self.channel, s);
        self.header.law_read_of_prefix(s, base);
        lemma_short_read_none(Self::ends(), 0, s.len() - 32, base + 32);
    }

    /// Writing an object that was read gives back the bytes that it was read from.
    pub proof fn law_write_of_read(self, s: Seq<u8>)
        requires
            self.header.plain(),
            self.reads(s),
            s.len() == self.header.base.object_size,
            s.len() >= 56,
        ensures
            self.encoding() == s,
    {
        self.header.law_write_of_read(s);
        lemma_low32(self.total());
        lemma_le_u16_at(s, 32);
        lemma_le_u16_at(s, 34);
        lemma_le_u32_at(s, 36);
        lemma_le_u32_at(s, 44);
        lemma_le_u32_at(s, 48);
        lemma_le_u16_at(s, 52);
        lemma_le_u16_at(s, 54);
        assert(self.encoding() =~= s);
    }

    /// The bytes of an object determine it.
    pub proof fn law_reads_unique(self, other: Self, s: Seq<u8>)
        requires
            self.reads(s),
            other.reads(s),
        ensures
            self.same(other),
    {
        self.header.law_reads_unique(other.header, s);
    }
}

/// A CAN FD message with its payload and its extension bytes.
#[derive(Debug, Clone, PartialEq, Eq)]
pub struct CanFdManaged {
    pub header: LObj,
    pub channel: u8,
    pub dlc: u8,
    pub valid_data_bytes: u8,
    pub tx_count: u8,
    pub id: u32,
    pub frame_length: u32,
    pub fd_flags: CanFd64Flags,
    pub btr_cfg_arb: u32,
    pub btr_cfg_data: u32,
    pub time_offset_brs_ns: u32,
    pub time_offset_crc_del_ns: u32,
    pub bit_count: u16,
    pub dir: u8,
    pub ext_data_offset: u8,
    pub crc: u32,
    pub data: Vec<u8>,
    /// All bytes following the CAN FD payload, including reserved extensions.
    pub ext_data: Vec<u8>,
    /// Whether `ext_data` begins with extended arbitration/data bit timings.
    pub has_ext_data: bool,
    pub btr_ext_arb: u32,
    pub btr_ext_data: u32,
}

impl CanFdManaged {
    /// Whether an object of a size with an extension offset has extended bit timings.
    pub open spec fn timed(ext_data_offset: u8, size: int) -> bool {
        ext_data_offset != 0 && size >= ext_data_offset + 8
    }

    /// How reading the object fails, if it does.
    pub open spec fn failure(s: Seq<u8>, base: int) -> Option<Failure> {
        let size = u32_at(s, 8);
        let data_len = s[34];
        if CanFdMessage64::failure(s, base) is Some {
            CanFdMessage64::failure(s, base)
        } else if 72 + data_len > size || size > s.len() {
            Some(
                Failure::Parse(
                    base,
                    "CAN_FD_MESSAGE_64: data length "@ + dec(data_len as nat)
                        + " exceeds object size "@ + dec(size as nat),
                ),
            )
        } else if Self::timed(s[67], size as int) && size - (72 + data_len) < 8 {
            Some(
                Failure::Parse(base, "CAN_FD_MESSAGE_64: truncated extended bit-timing data"@),
            )
        } else {
            None
        }
    }

    /// Whether the fields are those that stand in the bytes. The bit timings are the first
    /// two words of the extension, as far as it holds them.
    pub open spec fn reads(self, s: Seq<u8>) -> bool {
        let size = u32_at(s, 8);
        let start = 72 + s[34];
        &&& self.header.reads(s)
        &&& self.channel == s[32]
        &&& self.dlc == s[33]
        &&& self.valid_data_bytes == s[34]
        &&& self.tx_count == s[35]
        &&& self.id == u32_at(s, 36)
        &&& self.frame_length == u32_at(s, 40)
        &&& self.fd_flags.0 == u32_at(s, 44)
        &&& self.btr_cfg_arb == u32_at(s, 48)
        &&& self.btr_cfg_data == u32_at(s, 52)
        &&& self.time_offset_brs_ns == u32_at(s, 56)
        &&& self.time_offset_crc_del_ns == u32_at(s, 60)
        &&& self.bit_count == u16_at(s, 64)
        &&& self.dir == s[66]
        &&& self.ext_data_offset == s[67]
        &&& self.crc == u32_at(s, 68)
        &&& self.data@ == s.subrange(72, start)
        &&& self.ext_data@ == s.subrange(start, size as int)
        &&& self.has_ext_data == Self::timed(s[67], size as int)
        &&& self.btr_ext_arb == (if size - start >= 4 { u32_at(s, start) } else { 0 })
        &&& self.btr_ext_data == (if size - start >= 8 { u32_at(s, start + 4) } else { 0 })
    }

    /// The extension offset that is written: an object with bit timings and no offset gets
    /// the end of its payload.
    pub open spec fn written_offset(self) -> u8 {
        if self.ext_data_offset == 0 && (self.has_ext_data || self.btr_ext_arb != 0
            || self.btr_ext_data != 0) {
            byte_offset((72 + self.data@.len()) as int)
        } else {
            self.ext_data_offset
        }
    }

    /// Number of bytes of the object.
    pub open spec fn total(self) -> int {
        (72 + self.data@.len() + self.ext_data@.len()) as int
    }

    /// The fixed part as it is written.
    pub open spec fn fixed(self) -> CanFdMessage64 {
        CanFdMessage64 {
            header: resized(self.header, low32(self.total())),
            valid_data_bytes: low8(self.data@.len() as int),
            ext_data_offset: self.written_offset(),
            channel: self.channel,
            dlc: self.dlc,
            tx_count: self.tx_count,
            id: self.id,
            frame_length: self.frame_length,
            fd_flags: self.fd_flags,
            btr_cfg_arb: self.btr_cfg_arb,
            btr_cfg_data: self.btr_cfg_data,
            time_offset_brs_ns: self.time_offset_brs_ns,
            time_offset_crc_del_ns: self.time_offset_crc_del_ns,
            bit_count: self.bit_count,
            dir: self.dir,
            crc: self.crc,
        }
    }

    /// The bytes of the object.
    pub open spec fn encoding(self) -> Seq<u8> {
        self.fixed().encoding() + self.data@ + self.ext_data@
    }

    /// Whether two objects agree in every field.
    pub open spec fn same(self, other: Self) -> bool {
        &&& self.header.same(other.header)
        &&& self.channel == other.channel
        &&& self.dlc == other.dlc
        &&& self.valid_data_bytes == other.valid_data_bytes
        &&& self.tx_count == other.tx_count
        &&& self.id == other.id
        &&& self.frame_length == other.frame_length
        &&& self.fd_flags == other.fd_flags
        &&& self.btr_cfg_arb == other.btr_cfg_arb
        &&& self.btr_cfg_data == other.btr_cfg_data
        &&& self.time_offset_brs_ns == other.time_offset_brs_ns
        &&& self.time_offset_crc_del_ns == other.time_offset_crc_del_ns
        &&& self.bit_count == other.bit_count
        &&& self.dir == other.dir
        &&& self.ext_data_offset == other.ext_data_offset
        &&& self.crc == other.crc
        &&& self.data@ == other.data@
        &&& self.ext_data@ == other.ext_data@
        &&& self.has_ext_data == other.has_ext_data
        &&& self.btr_ext_arb == other.btr_ext_arb
        &&& self.btr_ext_data == other.btr_ext_data
    }

    pub fn new(object_flags: ObjectFlags, timestamp: u64) -> (r: Self)
        ensures
            r.header.is_new(ObjectType::CanFdMessage64.raw(), object_flags, timestamp, 72),
            r.channel == 0,
            r.dlc == 0,
            r.valid_data_bytes == 0,
            r.tx_count == 0,
            r.id == 0,
            r.frame_length == 0,
            r.fd_flags.0 == 0,
            r.btr_cfg_arb == 0,
            r.btr_cfg_data == 0,
            r.time_offset_brs_ns == 0,
            r.time_offset_crc_del_ns == 0,
            r.bit_count == 0,
            r.dir == 0,
            r.ext_data_offset == 0,
            r.crc == 0,
            r.data@.len() == 0,
            r.ext_data@.len() == 0,
            !r.has_ext_data,
            r.btr_ext_arb == 0,
            r.btr_ext_data == 0,
    {
        CanFdManaged {
            header: LObj::new(
                ObjectType::CanFdMessage64,
                object_flags,
                timestamp,
                CAN_FD_MESSAGE64_SIZE as u32,
            ),
            channel: 0,
            dlc: 0,
            valid_data_bytes: 0,
            tx_count: 0,
            id: 0,
            frame_length: 0,
            fd_flags: CanFd64Flags(0),
            btr_cfg_arb: 0,
            btr_cfg_data: 0,
            time_offset_brs_ns: 0,
            time_offset_crc_del_ns: 0,
            bit_count: 0,
            dir: 0,
            ext_data_offset: 0,
            crc: 0,
            data: Vec::new(),
            ext_data: Vec::new(),
            has_ext_data: false,
            btr_ext_arb: 0,
            btr_ext_data: 0,
        }
    }

    /// The flags as a reader sees them that swaps the four bytes and keeps the low 16 bits.
    pub fn fd_flags_cs(&self) -> (r: CanFd64Flags)
        ensures
            r.0 == self.fd_flags.0 / 0x100_0000 + 256 * (self.fd_flags.0 / 0x1_0000 % 256),
    {
        CanFd64Flags(self.fd_flags.0 / 0x100_0000 + 256 * (self.fd_flags.0 / 0x1_0000 % 256))
    }

    pub fn parse(bytes: &[u8], base: u64) -> (r: Result<Self>)
        requires
            offsets_fit(base, bytes.len(), 72),
            LObj::failure(bytes@, base as int) is None ==> bytes.len() >= 32,
        ensures
            match r {
                Ok(v) => {
                    &&& Self::failure(bytes@, base as int) is None
                    &&& v.reads(bytes@)
                    &&& v.header.valid()
                    &&& 72 <= v.header.base.object_size <= bytes.len()
                },
                Err(e) => Self::failure(bytes@, base as int) == Some(e@),
            },
    {
        let fixed = CanFdMessage64::parse(bytes, base)?;
        let object_size: usize = fixed.header.base.object_size as usize;
        let data_len: usize = fixed.valid_data_bytes as usize;
        let ext_start: usize = CAN_FD_MESSAGE64_SIZE + data_len;
        if ext_start > object_size || object_size > bytes.len() {
            let mut message = "CAN_FD_MESSAGE_64: data length ".to_string();
            push_dec(&mut message, data_len as u64);
            message.append(" exceeds object size ");
            push_dec(&mut message, object_size as u64);
            return parse_err(base, message);
        }
        let has_ext_data = fixed.ext_data_offset != 0 && object_size
            >= fixed.ext_data_offset as usize + 8;
        let ext_len: usize = object_size - ext_start;
        if has_ext_data && ext_len < 8 {
            return parse_err(
                base,
                "CAN_FD_MESSAGE_64: truncated extended bit-timing data".to_string(),
            );
        }
        let btr_ext_arb: u32 = if ext_len >= 4 {
            read_u32(bytes, ext_start)
        } else {
            0
        };
        let btr_ext_data: u32 = if ext_len >= 8 {
            read_u32(bytes, ext_start + 4)
        } else {
            0
        };
        Ok(
            CanFdManaged {
                header: fixed.header,
                channel: fixed.channel,
                dlc: fixed.dlc,
                valid_data_bytes: fixed.valid_data_bytes,
                tx_count: fixed.tx_count,
                id: fixed.id,
                frame_length: fixed.frame_length,
                fd_flags: fixed.fd_flags,
                btr_cfg_arb: fixed.btr_cfg_arb,
                btr_cfg_data: fixed.btr_cfg_data,
                time_offset_brs_ns: fixed.time_offset_brs_ns,
                time_offset_crc_del_ns: fixed.time_offset_crc_del_ns,
                bit_count: fixed.bit_count,
                dir: fixed.dir,
                ext_data_offset: fixed.ext_data_offset,
                crc: fixed.crc,
                data: read_bytes(bytes, CAN_FD_MESSAGE64_SIZE, ext_start),
                ext_data: read_bytes(bytes, ext_start, object_size),
                has_ext_data,
                btr_ext_arb,
                btr_ext_data,
            },
        )
    }

    #[verifier::rlimit(60)]
    pub fn write_to(&self, out: &mut Vec<u8>)
        ensures
            final(out)@ == old(out)@ + self.encoding(),
    {
        let writes_bit_timing = self.has_ext_data || (self.ext_data_offset == 0 && (
        self.btr_ext_arb != 0 || self.btr_ext_data != 0));
        let ext_data_offset: u8 = if writes_bit_timing && self.ext_data_offset == 0 {
            offset_u8(CAN_FD_MESSAGE64_SIZE, self.data.len())
        } else {
            self.ext_data_offset
        };
        let object_size: u32 = size2_u32(
            CAN_FD_MESSAGE64_SIZE as u32,
            self.data.len(),
            self.ext_data.len(),
        );
        self.header.write_sized(object_size, out);
        put_u8(out, self.channel);
        put_u8(out, self.dlc);
        put_u8(out, low_u8(self.data.len()));
        put_u8(out, self.tx_count);
        put_u32(out, self.id);
        put_u32(out, self.frame_length);
        put_u32(out, self.fd_flags.0);
        put_u32(out, self.btr_cfg_arb);
        put_u32(out, self.btr_cfg_data);
        put_u32(out, self.time_offset_brs_ns);
        put_u32(out, self.time_offset_crc_del_ns);
        put_u16(out, self.bit_count);
        put_u8(out, self.dir);
        put_u8(out, ext_data_offset);
        put_u32(out, self.crc);
        proof {
            assert(out@ =~= old(out)@ + self.fixed().encoding());
        }
        put_bytes(out, &self.data);
        put_bytes(out, &self.ext_data);
        proof {
            assert(out@ =~= old(out)@ + self.encoding());
        }
    }

    /// Whether the header and the derived fields fit the object, so that the bytes of the
    /// object can be read back.
    pub open spec fn canonical(self) -> bool {
        let ext = self.ext_data@;
        &&& self.header.plain()
        &&& self.header.base.object_size == self.total()
        &&& self.valid_data_bytes == self.data@.len()
        &&& self.written_offset() == self.ext_data_offset
        &&& self.has_ext_data == Self::timed(self.ext_data_offset, self.total())
        &&& (self.has_ext_data ==> ext.len() >= 8)
        &&& self.btr_ext_arb == (if ext.len() >= 4 { u32_at(ext, 0) } else { 0 })
        &&& self.btr_ext_data == (if ext.len() >= 8 { u32_at(ext, 4) } else { 0 })
    }

    /// Reading the bytes of a canonical object gives back its fields.
    pub proof fn law_read_of_write(self, base: int)
        requires
            self.canonical(),
        ensures
            self.encoding().len() == self.total(),
            Self::failure(self.encoding(), base) is None,
            self.reads(self.encoding()),
    {
        let s = self.encoding();
        lemma_low32(self.total());
        lemma_low8(self.data@.len() as int);
        assert(resized(self.header, self.header.base.object_size) == self.header);
        let c0 = self.header.encoding();
        let c1 = c0 + seq![self.channel];
        let c2 = c1 + seq![self.dlc];
        let c3 = c2 + seq![self.valid_data_bytes];
        let c4 = c3 + seq![self.tx_count];
        let c5 = c4 + le_u32(self.id);
        let c6 = c5 + le_u32(self.frame_length);
        let c7 = c6 + le_u32(self.fd_flags.0);
        let c8 = c7 + le_u32(self.btr_cfg_arb);
        let c9 = c8 + le_u32(self.btr_cfg_data);
        let c10 = c9 + le_u32(self.time_offset_brs_ns);
        let c11 = c10 + le_u32(self.time_offset_crc_del_ns);
        let c12 = c11 + le_u16(self.bit_count);
        let c13 = c12 + seq![self.dir];
        let c14 = c13 + seq![self.ext_data_offset];
        let c15 = c14 + le_u32(self.crc);
        assert(self.fixed().encoding() == c15);
        lemma_starts_with_self(s);
        lemma_field_bytes(c15 + self.data@, self.ext_data@, s);
        lemma_field_bytes(c15, self.data@, s);
        lemma_field_u32(c14, self.crc, s);
        lemma_field_u8(c13, self.ext_data_offset, s);
        lemma_field_u8(c12, self.dir, s);
        lemma_field_u16(c11, self.bit_count, s);
        lemma_field_u32(c10, self.time_offset_crc_del_ns, s);
        lemma_field_u32(c9, self.time_offset_brs_ns, s);
        lemma_field_u32(c8, self.btr_cfg_data, s);
        lemma_field_u32(c7, self.btr_cfg_arb, s);
        lemma_field_u32(c6, self.fd_flags.0, s);
        lemma_field_u32(c5, self.frame_length, s);
        lemma_field_u32(c4, self.id, s);
        lemma_field_u8(c3, self.tx_count, s);
        lemma_field_u8(c2, self.valid_data_bytes, s);
        lemma_field_u8(c1, self.dlc, s);
        lemma_field_u8(c0, self.channel, s);
        self.header.law_read_of_prefix(s, base);
        lemma_short_read_none(CanFdMessage64::ends(), 0, s.len() - 32, base + 32);
        lemma_words_of_tail(s, self.ext_data@, (72 + self.data@.len()) as int);
    }

    /// Writing an object that was read gives back the bytes that it was read from, where
    /// the extension offset does not have to be made up.
    pub proof fn law_write_of_read(self, s: Seq<u8>)
        requires
            self.header.plain(),
            self.reads(s),
            Self::failure(s, 0) is None,
            s.len() == self.header.base.object_size,
            s.len() >= 72,
            self.written_offset() == self.ext_data_offset,
        ensures
            self.encoding() == s,
    {
        self.header.law_write_of_read(s);
        lemma_low32(self.total());
        lemma_low8(self.data@.len() as int);
        assert(resized(self.header, self.header.base.object_size) == self.header);
        lemma_le_u32_at(s, 36);
        lemma_le_u32_at(s, 40);
        lemma_le_u32_at(s, 44);
        lemma_le_u32_at(s, 48);
        lemma_le_u32_at(s, 52);
        lemma_le_u32_at(s, 56);
        lemma_le_u32_at(s, 60);
        lemma_le_u16_at(s, 64);
        lemma_le_u32_at(s, 68);
        assert(self.encoding() =~= s);
    }

    /// The bytes of an object determine it.
    pub proof fn law_reads_unique(self, other: Self, s: Seq<u8>)
        requires
            self.reads(s),
            other.reads(s),
        ensures
            self.same(other),
    {
        self.header.law_reads_unique(other.header, s);
    }
}

/// The first words of the tail that starts at `at` stand at `at` in the whole.
proof fn lemma_words_of_tail(s: Seq<u8>, tail: Seq<u8>, at: int)
    requires
        0 <= at <= s.len(),
        s.subrange(at, at + tail.len()) == tail,
        at + tail.len() <= s.len(),
    ensures
        tail.len() >= 4 ==> u32_at(s, at) == u32_at(tail, 0),
        tail.len() >= 8 ==> u32_at(s, at + 4) == u32_at(tail, 4),
{
    reveal(u32_at);
    assert forall|i: int| 0 <= i < tail.len() implies tail[i] == s[at + i] by {
        assert(s.subrange(at, at + tail.len())[i] == s[at + i]);
    }
}

/// Extended CAN FD bit-timing information.
#[derive(Debug, Clone, PartialEq, Eq)]
pub struct CanFdExtFrameData {
    pub btr_ext_arb: u32,
    pub btr_ext_data: u32,
    pub reserved: Vec<u8>,
}

impl Default for CanFdExtFrameData {
    fn default() -> (r: Self)
        ensures
            r.btr_ext_arb == 0,
            r.btr_ext_data == 0,
            r.reserved@.len() == 0,
    {
        CanFdExtFrameData { btr_ext_arb: 0, btr_ext_data: 0, reserved: Vec::new() }
    }
}

impl CanFdExtFrameData {
    /// Whether the fields are those that stand in the bytes from `from` up to `to`.
    pub open spec fn reads(self, s: Seq<u8>, from: int, to: int) -> bool {
        &&& self.btr_ext_arb == u32_at(s, from)
        &&& self.btr_ext_data == u32_at(s, from + 4)
        &&& self.reserved@ == s.subrange(from + 8, to)
    }

    /// The bytes of the bit timings.
    pub open spec fn encoding(self) -> Seq<u8> {
        le_u32(self.btr_ext_arb) + le_u32(self.btr_ext_data) + self.reserved@
    }

    /// Whether two values agree in every field.
    pub open spec fn same(self, other: Self) -> bool {
        &&& self.btr_ext_arb == other.btr_ext_arb
        &&& self.btr_ext_data == other.btr_ext_data
        &&& self.reserved@ == other.reserved@
    }

    fn parse(bytes: &[u8], from: usize, to: usize) -> (r: Self)
        requires
            from + 8 <= to <= bytes.len(),
        ensures
            r.reads(bytes@, from as int, to as int),
    {
        CanFdExtFrameData {
            btr_ext_arb: read_u32(bytes, from),
            btr_ext_data: read_u32(bytes, from + 4),
            reserved: read_bytes(bytes, from + 8, to),
        }
    }

    fn write_to(&self, out: &mut Vec<u8>)
        ensures
            final(out)@ == old(out)@ + self.encoding(),
    {
        put_u32(out, self.btr_ext_arb);
        put_u32(out, self.btr_ext_data);
        put_bytes(out, &self.reserved);
        proof {
            assert(out@ =~= old(out)@ + self.encoding());
        }
    }

    /// The bytes of bit timings at the end of a sequence are read back from there.
    proof fn lemma_read_of_write(self, before: Seq<u8>, s: Seq<u8>)
        requires
            s == before + self.encoding(),
        ensures
            self.encoding().len() == 8 + self.reserved@.len(),
            self.reads(s, before.len() as int, s.len() as int),
            s.subrange(0, before.len() as int) == before,
    {
        let c1 = before + le_u32(self.btr_ext_arb);
        let c2 = c1 + le_u32(self.btr_ext_data);
        assert(s =~= c2 + self.reserved@);
        lemma_starts_with_self(s);
        lemma_field_bytes(c2, self.reserved@, s);
        lemma_field_u32(c1, self.btr_ext_data, s);
        lemma_field_u32(before, self.btr_ext_arb, s);
        assert(s.subrange(0, before.len() as int) =~= before);
    }

    /// The bytes of bit timings that were read are those that they were read from.
    proof fn lemma_write_of_read(self, s: Seq<u8>, from: int, to: int)
        requires
            0 <= from,
            from + 8 <= to <= s.len(),
            self.reads(s, from, to),
        ensures
            self.encoding() == s.subrange(from, to),
    {
        lemma_le_u32_at(s, from);
        lemma_le_u32_at(s, from + 4);
        assert(self.encoding() =~= s.subrange(from, to));
    }
}

/// A CAN FD error frame with an optional variable-length payload.
#[derive(Debug, Clone, PartialEq, Eq)]
pub struct CanFdError64 {
    pub header: LObj,
    pub channel: u8,
    pub dlc: u8,
    pub valid_data_bytes: u8,
    pub ecc: u8,
    pub flags: u16,
    pub error_code_ext: u16,
    pub ext_flags: u16,
    pub ext_data_offset: u8,
    pub reserved1: u8,
    pub id: u32,
    pub frame_length: u32,
    pub btr_cfg_arb: u32,
    pub btr_cfg_data: u32,
    pub time_offset_brs_ns: u32,
    pub time_offset_crc_del_ns: u32,
    pub crc: u32,
    pub error_position: u16,
    pub reserved2: u16,
    pub data: Vec<u8>,
    pub ext_data: Option<CanFdExtFrameData>,
    pub reserved: Vec<u8>,
}

impl CanFdError64 {
    /// How reading the object fails, if it does.
    pub open spec fn failure(s: Seq<u8>, base: int) -> Option<Failure> {
        let size = u32_at(s, 8);
        let data_end = 76 + s[34];
        if LObj::failure(s, base) is Some {
            LObj::failure(s, base)
        } else if size < 76 || size > s.len() {
            Some(Failure::Parse(base, "CAN_FD_ERROR_64 object size is out of bounds"@))
        } else if data_end > size {
            Some(Failure::Parse(base, "CAN_FD_ERROR_64 payload exceeds its object size"@))
        } else if CanFdManaged::timed(s[42], size as int) && size - data_end < 8 {
            Some(Failure::Parse(base, "CAN_FD_ERROR_64 extended bit timing is truncated"@))
        } else {
            None
        }
    }

    /// Whether the fields are those that stand in the bytes. What follows the payload is
    /// bit timings where the object has them, and reserved otherwise.
    pub open spec fn reads(self, s: Seq<u8>) -> bool {
        let size = u32_at(s, 8) as int;
        let data_end = 76 + s[34];
        &&& self.header.reads(s)
        &&& self.channel == s[32]
        &&& self.dlc == s[33]
        &&& self.valid_data_bytes == s[34]
        &&& self.ecc == s[35]
        &&& self.flags == u16_at(s, 36)
        &&& self.error_code_ext == u16_at(s, 38)
        &&& self.ext_flags == u16_at(s, 40)
        &&& self.ext_data_offset == s[42]
        &&& self.reserved1 == s[43]
        &&& self.id == u32_at(s, 44)
        &&& self.frame_length == u32_at(s, 48)
        &&& self.btr_cfg_arb == u32_at(s, 52)
        &&& self.btr_cfg_data == u32_at(s, 56)
        &&& self.time_offset_brs_ns == u32_at(s, 60)
        &&& self.time_offset_crc_del_ns == u32_at(s, 64)
        &&& self.crc == u32_at(s, 68)
        &&& self.error_position == u16_at(s, 72)
        &&& self.reserved2 == u16_at(s, 74)
        &&& self.data@ == s.subrange(76, data_end)
        &&& self.ext_data is Some == CanFdManaged::timed(s[42], size)
        &&& (match self.ext_data {
            Some(ext) => ext.reads(s, data_end, size) && self.reserved@.len() == 0,
            None => self.reserved@ == s.subrange(data_end, size),
        })
    }

    /// The bytes behind the payload.
    pub open spec fn tail(self) -> Seq<u8> {
        match self.ext_data {
            Some(ext) => ext.encoding(),
            None => self.reserved@,
        }
    }

    /// Number of bytes behind the payload.
    pub open spec fn tail_size(self) -> int {
        match self.ext_data {
            Some(ext) => (8 + ext.reserved@.len()) as int,
            None => self.reserved@.len() as int,
        }
    }

    /// Number of bytes of the object.
    pub open spec fn total(self) -> int {
        76 + self.data@.len() + self.tail_size()
    }

    /// The extension offset that is written: an object with bit timings and no offset gets
    /// the end of its payload.
    pub open spec fn written_offset(self) -> u8 {
        if self.ext_data is Some && self.ext_data_offset == 0 {
            byte_offset((76 + self.data@.len()) as int)
        } else {
            self.ext_data_offset
        }
    }

    /// The bytes of the object.
    pub open spec fn encoding(self) -> Seq<u8> {
        self.header.sized_encoding(low32(self.total())) + seq![self.channel] + seq![self.dlc]
            + seq![low8(self.data@.len() as int)] + seq![self.ecc] + le_u16(self.flags)
            + le_u16(self.error_code_ext) + le_u16(self.ext_flags) + seq![self.written_offset()]
            + seq![self.reserved1] + le_u32(self.id) + le_u32(self.frame_length)
            + le_u32(self.btr_cfg_arb) + le_u32(self.btr_cfg_data) + le_u32(self.time_offset_brs_ns)
            + le_u32(self.time_offset_crc_del_ns) + le_u32(self.crc) + le_u16(self.error_position)
            + le_u16(self.reserved2) + self.data@ + self.tail()
    }

    /// Whether two objects agree in every field.
    pub open spec fn same(self, other: Self) -> bool {
        &&& self.header.same(other.header)
        &&& self.channel == other.channel
        &&& self.dlc == other.dlc
        &&& self.valid_data_bytes == other.valid_data_bytes
        &&& self.ecc == other.ecc
        &&& self.flags == other.flags
        &&& self.error_code_ext == other.error_code_ext
        &&& self.ext_flags == other.ext_flags
        &&& self.ext_data_offset == other.ext_data_offset
        &&& self.reserved1 == other.reserved1
        &&& self.id == other.id
        &&& self.frame_length == other.frame_length
        &&& self.btr_cfg_arb == other.btr_cfg_arb
        &&& self.btr_cfg_data == other.btr_cfg_data
        &&& self.time_offset_brs_ns == other.time_offset_brs_ns
        &&& self.time_offset_crc_del_ns == other.time_offset_crc_del_ns
        &&& self.crc == other.crc
        &&& self.error_position == other.error_position
        &&& self.reserved2 == other.reserved2
        &&& self.data@ == other.data@
        &&& (match (self.ext_data, other.ext_data) {
            (Some(a), Some(b)) => a.same(b),
            (None, None) => true,
            _ => false,
        })
        &&& self.reserved@ == other.reserved@
    }

    pub fn new(object_flags: ObjectFlags, timestamp: u64) -> (r: Self)
        ensures
            r.header.is_new(ObjectType::CanFdError64.raw(), object_flags, timestamp, 76),
            r.channel == 0,
            r.dlc == 0,
            r.valid_data_bytes == 0,
            r.ecc == 0,
            r.flags == 0,
            r.error_code_ext == 0,
            r.ext_flags == 0,
            r.ext_data_offset == 0,
            r.reserved1 == 0,
            r.id == 0,
            r.frame_length == 0,
            r.btr_cfg_arb == 0,
            r.btr_cfg_data == 0,
            r.time_offset_brs_ns == 0,
            r.time_offset_crc_del_ns == 0,
            r.crc == 0,
            r.error_position == 0,
            r.reserved2 == 0,
            r.data@.len() == 0,
            r.ext_data is None,
            r.reserved@.len() == 0,
    {
        CanFdError64 {
            header: LObj::new(
                ObjectType::CanFdError64,
                object_flags,
                timestamp,
                CAN_FD_ERROR64_SIZE as u32,
            ),
            channel: 0,
            dlc: 0,
            valid_data_bytes: 0,
            ecc: 0,
            flags: 0,
            error_code_ext: 0,
            ext_flags: 0,
            ext_data_offset: 0,
            reserved1: 0,
            id: 0,
            frame_length: 0,
            btr_cfg_arb: 0,
            btr_cfg_data: 0,
            time_offset_brs_ns: 0,
            time_offset_crc_del_ns: 0,
            crc: 0,
            error_position: 0,
            reserved2: 0,
            data: Vec::new(),
            ext_data: None,
            reserved: Vec::new(),
        }
    }

    pub fn parse(bytes: &[u8], base: u64) -> (r: Result<Self>)
        requires
            offsets_fit(base, bytes.len(), 16),
        ensures
            match r {
                Ok(v) => {
                    &&& Self::failure(bytes@, base as int) is None
                    &&& v.reads(bytes@)
                    &&& v.header.valid()
                    &&& 76 <= v.header.base.object_size <= bytes.len()
                },
                Err(e) => Self::failure(bytes@, base as int) == Some(e@),
            },
    {
        let header = LObj::parse(bytes, base)?;
        let object_size: usize = header.base.object_size as usize;
        if object_size < CAN_FD_ERROR64_SIZE || object_size > bytes.len() {
            return parse_err(base, "CAN_FD_ERROR_64 object size is out of bounds".to_string());
        }
        let data_end: usize = CAN_FD_ERROR64_SIZE + bytes[34] as usize;
        if data_end > object_size {
            return parse_err(base, "CAN_FD_ERROR_64 payload exceeds its object size".to_string());
        }
        let offset: u8 = bytes[42];
        let has_ext_data = offset != 0 && object_size >= offset as usize + 8;
        let mut ext_data: Option<CanFdExtFrameData> = None;
        let mut reserved: Vec<u8> = Vec::new();
        if has_ext_data {
            if object_size - data_end < 8 {
                return parse_err(
                    base,
                    "CAN_FD_ERROR_64 extended bit timing is truncated".to_string(),
                );
            }
            ext_data = Some(CanFdExtFrameData::parse(bytes, data_end, object_size));
        } else {
            reserved = read_bytes(bytes, data_end, object_size);
        }
        Ok(
            CanFdError64 {
                header,
                channel: bytes[32],
                dlc: bytes[33],
                valid_data_bytes: bytes[34],
                ecc: bytes[35],
                flags: read_u16(bytes, 36),
                error_code_ext: read_u16(bytes, 38),
                ext_flags: read_u16(bytes, 40),
                ext_data_offset: bytes[42],
                reserved1: bytes[43],
                id: read_u32(bytes, 44),
                frame_length: read_u32(bytes, 48),
                btr_cfg_arb: read_u32(bytes, 52),
                btr_cfg_data: read_u32(bytes, 56),
                time_offset_brs_ns: read_u32(bytes, 60),
                time_offset_crc_del_ns: read_u32(bytes, 64),
                crc: read_u32(bytes, 68),
                error_position: read_u16(bytes, 72),
                reserved2: read_u16(bytes, 74),
                data: read_bytes(bytes, CAN_FD_ERROR64_SIZE, data_end),
                ext_data,
                reserved,
            },
        )
    }

    #[verifier::rlimit(60)]
    pub fn write_to(&self, out: &mut Vec<u8>)
        ensures
            final(out)@ == old(out)@ + self.encoding(),
    {
        let object_size: u32 = match &self.ext_data {
            Some(ext) => size2_u32(
                CAN_FD_ERROR64_SIZE as u32 + 8,
                self.data.len(),
                ext.reserved.len(),
            ),
            None => size2_u32(CAN_FD_ERROR64_SIZE as u32, self.data.len(), self.reserved.len()),
        };
        let ext_data_offset: u8 = if self.ext_data.is_some() && self.ext_data_offset == 0 {
            offset_u8(CAN_FD_ERROR64_SIZE, self.data.len())
        } else {
            self.ext_data_offset
        };
        self.header.write_sized(object_size, out);
        put_u8(out, self.channel);
        put_u8(out, self.dlc);
        put_u8(out, low_u8(self.data.len()));
        put_u8(out, self.ecc);
        put_u16(out, self.flags);
        put_u16(out, self.error_code_ext);
        put_u16(out, self.ext_flags);
        put_u8(out, ext_data_offset);
        put_u8(out, self.reserved1);
        put_u32(out, self.id);
        put_u32(out, self.frame_length);
        put_u32(out, self.btr_cfg_arb);
        put_u32(out, self.btr_cfg_data);
        put_u32(out, self.time_offset_brs_ns);
        put_u32(out, self.time_offset_crc_del_ns);
        put_u32(out, self.crc);
        put_u16(out, self.error_position);
        put_u16(out, self.reserved2);
        proof {
            let front = self.header.sized_encoding(object_size) + seq![self.channel] + seq![self.dlc] + seq![low8(self.data@.len() as int)] + seq![self.ecc] + le_u16(self.flags) + le_u16(self.error_code_ext) + le_u16(self.ext_flags) + seq![self.written_offset()] + seq![self.reserved1] + le_u32(self.id) + le_u32(self.frame_length) + le_u32(self.btr_cfg_arb) + le_u32(self.btr_cfg_data) + le_u32(self.time_offset_brs_ns) + le_u32(self.time_offset_crc_del_ns) + le_u32(self.crc) + le_u16(self.error_position) + le_u16(self.reserved2);
            assert(out@ =~= old(out)@ + front);
        }
        put_bytes(out, &self.data);
        if let Some(ext_data) = &self.ext_data {
            ext_data.write_to(out);
        } else {
            put_bytes(out, &self.reserved);
        }
        proof {
            assert(out@ =~= old(out)@ + self.encoding());
        }
    }

    /// Whether the header and the derived fields fit the object, so that the bytes of the
    /// object can be read back.
    pub open spec fn canonical(self) -> bool {
        &&& self.header.plain()
        &&& self.header.base.object_size == self.total()
        &&& self.valid_data_bytes == self.data@.len()
        &&& self.written_offset() == self.ext_data_offset
        &&& self.ext_data is Some == CanFdManaged::timed(self.ext_data_offset, self.total())
        &&& (self.ext_data is Some ==> self.reserved@.len() == 0)
    }

    /// Reading the bytes of a canonical object gives back its fields.
    pub proof fn law_read_of_write(self, base: int)
        requires
            self.canonical(),
        ensures
            self.encoding().len() == self.total(),
            Self::failure(self.encoding(), base) is None,
            self.reads(self.encoding()),
    {
        let s = self.encoding();
        lemma_low32(self.total());
        lemma_low8(self.data@.len() as int);
        let c0 = self.header.encoding();
        let c1 = c0 + seq![self.channel];
        let c2 = c1 + seq![self.dlc];
        let c3 = c2 + seq![self.valid_data_bytes];
        let c4 = c3 + seq![self.ecc];
        let c5 = c4 + le_u16(self.flags);
        let c6 = c5 + le_u16(self.error_code_ext);
        let c7 = c6 + le_u16(self.ext_flags);
        let c8 = c7 + seq![self.ext_data_offset];
        let c9 = c8 + seq![self.reserved1];
        let c10 = c9 + le_u32(self.id);
        let c11 = c10 + le_u32(self.frame_length);
        let c12 = c11 + le_u32(self.btr_cfg_arb);
        let c13 = c12 + le_u32(self.btr_cfg_data);
        let c14 = c13 + le_u32(self.time_offset_brs_ns);
        let c15 = c14 + le_u32(self.time_offset_crc_del_ns);
        let c16 = c15 + le_u32(self.crc);
        let c17 = c16 + le_u16(self.error_position);
        let c18 = c17 + le_u16(self.reserved2);
        let d0 = c18 + self.data@;
        assert(s == d0 + self.tail());
        lemma_starts_with_self(s);
        lemma_field_bytes(d0, self.tail(), s);
        lemma_field_bytes(c18, self.data@, s);
        lemma_field_u16(c17, self.reserved2, s);
        lemma_field_u16(c16, self.error_position, s);
        lemma_field_u32(c15, self.crc, s);
        lemma_field_u32(c14, self.time_offset_crc_del_ns, s);
        lemma_field_u32(c13, self.time_offset_brs_ns, s);
        lemma_field_u32(c12, self.btr_cfg_data, s);
        lemma_field_u32(c11, self.btr_cfg_arb, s);
        lemma_field_u32(c10, self.frame_length, s);
        lemma_field_u32(c9, self.id, s);
        lemma_field_u8(c8, self.reserved1, s);
        lemma_field_u8(c7, self.ext_data_offset, s);
        lemma_field_u16(c6, self.ext_flags, s);
        lemma_field_u16(c5, self.error_code_ext, s);
        lemma_field_u16(c4, self.flags, s);
        lemma_field_u8(c3, self.ecc, s);
        lemma_field_u8(c2, self.valid_data_bytes, s);
        lemma_field_u8(c1, self.dlc, s);
        lemma_field_u8(c0, self.channel, s);
        self.header.law_read_of_prefix(s, base);
        if let Some(ext) = self.ext_data {
            ext.lemma_read_of_write(d0, s);
        }
    }

    /// Writing an object that was read gives back the bytes that it was read from.
    pub proof fn law_write_of_read(self, s: Seq<u8>)
        requires
            self.header.plain(),
            self.reads(s),
            Self::failure(s, 0) is None,
            s.len() == self.header.base.object_size,
            s.len() >= 76,
        ensures
            self.encoding() == s,
    {
        self.header.law_write_of_read(s);
        lemma_low32(self.total());
        lemma_low8(self.data@.len() as int);
        let data_end = 76 + s[34];
        if let Some(ext) = self.ext_data {
            ext.lemma_write_of_read(s, data_end, s.len() as int);
        }
        assert(self.tail() =~= s.subrange(data_end, s.len() as int));
        lemma_le_u16_at(s, 36);
        lemma_le_u16_at(s, 38);
        lemma_le_u16_at(s, 40);
        lemma_le_u32_at(s, 44);
        lemma_le_u32_at(s, 48);
        lemma_le_u32_at(s, 52);
        lemma_le_u32_at(s, 56);
        lemma_le_u32_at(s, 60);
        lemma_le_u32_at(s, 64);
        lemma_le_u32_at(s, 68);
        lemma_le_u16_at(s, 72);
        lemma_le_u16_at(s, 74);
        assert(self.encoding() =~= s);
    }

    /// The bytes of an object determine it.
    pub proof fn law_reads_unique(self, other: Self, s: Seq<u8>)
        requires
            self.reads(s),
            other.reads(s),
        ensures
            self.same(other),
    {
        self.header.law_reads_unique(other.header, s);
        assert(self.reserved@ =~= other.reserved@);
    }
}

/// A reset or bit-timing change on a CAN channel.
#[derive(Debug, Clone, PartialEq, Eq)]
pub struct CanSettingChanged {
    pub header: LObj,
    pub channel: u16,
    pub changed_type: u8,
    pub bit_timings: CanFdExtFrameData,
}

impl CanSettingChanged {
    /// How reading the object fails, if it does.
    pub open spec fn failure(s: Seq<u8>, base: int) -> Option<Failure> {
        let size = u32_at(s, 8);
        if LObj::failure(s, base) is Some {
            LObj::failure(s, base)
        } else if size < 43 || size > s.len() {
            Some(Failure::Parse(base, "CAN_SETTING_CHANGED object size is out of bounds"@))
        } else {
            None
        }
    }

    /// Whether the fields are those that stand in the bytes.
    pub open spec fn reads(self, s: Seq<u8>) -> bool {
        &&& self.header.reads(s)
        &&& self.channel == u16_at(s, 32)
        &&& self.changed_type == s[34]
        &&& self.bit_timings.reads(s, 35, u32_at(s, 8) as int)
    }

    /// Number of bytes of the object.
    pub open spec fn total(self) -> int {
        (43 + self.bit_timings.reserved@.len()) as int
    }

    /// The bytes of the object.
    pub open spec fn encoding(self) -> Seq<u8> {
        self.header.sized_encoding(low32(self.total())) + le_u16(self.channel) + seq![
            self.changed_type,
        ] + self.bit_timings.encoding()
    }

    /// Whether two objects agree in every field.
    pub open spec fn same(self, other: Self) -> bool {
        &&& self.header.same(other.header)
        &&& self.channel == other.channel
        &&& self.changed_type == other.changed_type
        &&& self.bit_timings.same(other.bit_timings)
    }

    pub fn new(object_flags: ObjectFlags, timestamp: u64) -> (r: Self)
        ensures
            r.header.is_new(ObjectType::CanSettingChanged.raw(), object_flags, timestamp, 43),
            r.channel == 0,
            r.changed_type == u8::MAX,
            r.bit_timings.btr_ext_arb == 0,
            r.bit_timings.btr_ext_data == 0,
            r.bit_timings.reserved@.len() == 0,
    {
        CanSettingChanged {
            header: LObj::new(
                ObjectType::CanSettingChanged,
                object_flags,
                timestamp,
                CAN_SETTING_CHANGED_SIZE as u32,
            ),
            channel: 0,
            changed_type: 255,
            bit_timings: CanFdExtFrameData::default(),
        }
    }

    pub fn parse(bytes: &[u8], base: u64) -> (r: Result<Self>)
        requires
            offsets_fit(base, bytes.len(), 16),
        ensures
            match r {
                Ok(v) => {
                    &&& Self::failure(bytes@, base as int) is None
                    &&& v.reads(bytes@)
                    &&& v.header.valid()
                    &&& 43 <= v.header.base.object_size <= bytes.len()
                },
                Err(e) => Self::failure(bytes@, base as int) == Some(e@),
            },
    {
        let header = LObj::parse(bytes, base)?;
        let object_size: usize = header.base.object_size as usize;
        if object_size < CAN_SETTING_CHANGED_SIZE || object_size > bytes.len() {
            return parse_err(
                base,
                "CAN_SETTING_CHANGED object size is out of bounds".to_string(),
            );
        }
        Ok(
            CanSettingChanged {
                header,
                channel: read_u16(bytes, 32),
                changed_type: bytes[34],
                bit_timings: CanFdExtFrameData::parse(bytes, 35, object_size),
            },
        )
    }

    #[verifier::rlimit(60)]
    pub fn write_to(&self, out: &mut Vec<u8>)
        ensures
            final(out)@ == old(out)@ + self.encoding(),
    {
        let object_size: u32 = size_u32(
            CAN_SETTING_CHANGED_SIZE as u32,
            self.bit_timings.reserved.len(),
        );
        self.header.write_sized(object_size, out);
        put_u16(out, self.channel);
        put_u8(out, self.changed_type);
        self.bit_timings.write_to(out);
        proof {
            assert(out@ =~= old(out)@ + self.encoding());
        }
    }

    /// Whether the header fits the object, so that the bytes of the object can be read
    /// back.
    pub open spec fn canonical(self) -> bool {
        &&& self.header.plain()
        &&& self.header.base.object_size == self.total()
    }

    /// Reading the bytes of a canonical object gives back its fields.
    pub proof fn law_read_of_write(self, base: int)
        requires
            self.canonical(),
        ensures
            self.encoding().len() == self.total(),
            Self::failure(self.encoding(), base) is None,
            self.reads(self.encoding()),
    {
        let s = self.encoding();
        lemma_low32(self.total());
        let c0 = self.header.encoding();
        let c1 = c0 + le_u16(self.channel);
        let c2 = c1 + seq![self.changed_type];
        assert(s == c2 + self.bit_timings.encoding());
        self.bit_timings.lemma_read_of_write(c2, s);
        lemma_starts_with_self(s);
        lemma_field_bytes(c2, self.bit_timings.encoding(), s);
        lemma_field_u8(c1, self.changed_type, s);
        lemma_field_u16(c0, self.channel, s);
        self.header.law_read_of_prefix(s, base);
    }

    /// Writing an object that was read gives back the bytes that it was read from.
    pub proof fn law_write_of_read(self, s: Seq<u8>)
        requires
            self.header.plain(),
            self.reads(s),
            s.len() == self.header.base.object_size,
            s.len() >= 43,
        ensures
            self.encoding() == s,
    {
        self.header.law_write_of_read(s);
        lemma_low32(self.total());
        lemma_le_u16_at(s, 32);
        self.bit_timings.lemma_write_of_read(s, 35, s.len() as int);
        assert(self.encoding() =~= s);
    }

    /// The bytes of an object determine it.
    pub proof fn law_reads_unique(self, other: Self, s: Seq<u8>)
        requires
            self.reads(s),
            other.reads(s),
        ensures
            self.same(other),
    {
        self.header.law_reads_unique(other.header, s);
    }
}

} // verus!
