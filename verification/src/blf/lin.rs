//! LIN frame objects.

use crate::blf::bytes::{
    le_u16, le_u32, le_u64, lemma_field_bytes, lemma_field_u16, lemma_field_u32, lemma_field_u64,
    lemma_field_u8, lemma_le_u16_at, lemma_le_u32_at, lemma_le_u64_at, lemma_starts_with_self,
    put_bytes, put_u16, put_u32, put_u64, put_u8, read_array, read_bytes, read_u16, read_u32,
    read_u64, u16_at, u32_at, u64_at,
    offsets_fit,
};
use crate::blf::can::{clipped, pad_array, padded};
use crate::blf::error::{parse_err, Failure, Result};
use crate::blf::flags::ObjectFlags;
use crate::blf::float64::Float64;
use crate::blf::header::LObj;
use crate::blf::object_type::ObjectType;
use crate::text::{dec, push_dec};
use vstd::prelude::*;

verus! {

pub const LIN_MESSAGE_SIZE: usize = 52;

pub const LIN_MESSAGE_EXTENDED_SIZE: usize = 56;

pub const LIN_MESSAGE2_V1_SIZE: usize = 164;

pub const LIN_MESSAGE2_V2_SIZE: usize = 168;

pub const LIN_MESSAGE2_V3_SIZE: usize = 184;

/// Legacy BLF LIN frame object (`LIN_MESSAGE`, type 11).
#[derive(Debug, Clone, PartialEq, Eq)]
pub struct LinMessage {
    pub header: LObj,
    pub channel: u16,
    pub id: u8,
    pub dlc: u8,
    pub data: [u8; 8],
    pub fsm_id: u8,
    pub fsm_state: u8,
    pub header_time: u8,
    pub full_time: u8,
    pub crc: u16,
    /// 0 = received, 1 = transmit receipt, 2 = transmit request.
    pub dir: u8,
    pub reserved1: u8,
    /// Present in the 56-byte form of the object.
    pub reserved2: Option<u32>,
    /// Bytes added by a future producer after the known layout.
    pub trailing: Vec<u8>,
}

impl LinMessage {
    /// How reading the object fails, if it does.
    pub open spec fn failure(s: Seq<u8>, base: int) -> Option<Failure> {
        if LObj::failure(s, base) is Some {
            LObj::failure(s, base)
        } else if u32_at(s, 8) < 52 {
            Some(
                Failure::Parse(
                    base,
                    "LIN_MESSAGE size "@ + dec(u32_at(s, 8) as nat) + " is smaller than 52"@,
                ),
            )
        } else {
            None
        }
    }

    /// Whether the fields are those that stand in the bytes. An object with at least four
    /// bytes behind the base layout has the second reserved word.
    pub open spec fn reads(self, s: Seq<u8>) -> bool {
        let size = u32_at(s, 8);
        &&& self.header.reads(s)
        &&& self.channel == u16_at(s, 32)
        &&& self.id == s[34]
        &&& self.dlc == s[35]
        &&& self.data@ == s.subrange(36, 44)
        &&& self.fsm_id == s[44]
        &&& self.fsm_state == s[45]
        &&& self.header_time == s[46]
        &&& self.full_time == s[47]
        &&& self.crc == u16_at(s, 48)
        &&& self.dir == s[50]
        &&& self.reserved1 == s[51]
        &&& self.reserved2 == (if size >= 56 { Some(u32_at(s, 52)) } else { None })
        &&& self.trailing@ == s.subrange((if size >= 56 { 56 } else { 52 }), size as int)
    }

    /// The second reserved word as it is written.
    pub open spec fn reserved_word(self) -> Seq<u8> {
        match self.reserved2 {
            Some(v) => le_u32(v),
            None => Seq::empty(),
        }
    }

    /// Number of bytes of the object.
    pub open spec fn total(self) -> int {
        (if self.reserved2 is Some { 56int } else { 52int }) + self.trailing@.len()
    }

    /// The bytes of the object.
    pub open spec fn encoding(self) -> Seq<u8> {
        self.header.encoding() + le_u16(self.channel) + seq![self.id] + seq![self.dlc] + self.data@
            + seq![self.fsm_id] + seq![self.fsm_state] + seq![self.header_time]
            + seq![self.full_time] + le_u16(self.crc) + seq![self.dir] + seq![self.reserved1]
            + self.reserved_word() + self.trailing@
    }

    /// Whether two objects agree in every field.
    pub open spec fn same(self, other: Self) -> bool {
        &&& self.header.same(other.header)
        &&& self.channel == other.channel
        &&& self.id == other.id
        &&& self.dlc == other.dlc
        &&& self.data@ == other.data@
        &&& self.fsm_id == other.fsm_id
        &&& self.fsm_state == other.fsm_state
        &&& self.header_time == other.header_time
        &&& self.full_time == other.full_time
        &&& self.crc == other.crc
        &&& self.dir == other.dir
        &&& self.reserved1 == other.reserved1
        &&& self.reserved2 == other.reserved2
        &&& self.trailing@ == other.trailing@
    }

    /// Whether the message is a new one with the given contents.
    pub open spec fn is_new(
        self,
        object_flags: ObjectFlags,
        timestamp: u64,
        channel: u16,
        id: u8,
        data: Seq<u8>,
        checksum: u8,
        is_tx: bool,
    ) -> bool {
        &&& self.header.is_new(ObjectType::LinMessage.raw(), object_flags, timestamp, 56)
        &&& self.channel == channel
        &&& self.id == id
        &&& self.dlc == clipped(data.len(), 8)
        &&& self.data@ == padded(data, 8)
        &&& self.fsm_id == 0
        &&& self.fsm_state == 0
        &&& self.header_time == 0
        &&& self.full_time == 0
        &&& self.crc == checksum
        &&& self.dir == (if is_tx { 1u8 } else { 0 })
        &&& self.reserved1 == 0
        &&& self.reserved2 == Some(0u32)
        &&& self.trailing@.len() == 0
    }

    pub fn new(
        object_flags: ObjectFlags,
        timestamp: u64,
        channel: u16,
        id: u8,
        data: &[u8],
        checksum: u8,
        is_tx: bool,
    ) -> (r: Self)
        ensures
            r.header.is_new(ObjectType::LinMessage.raw(), object_flags, timestamp, 56),
            r.channel == channel,
            r.id == id,
            r.dlc == clipped(data@.len(), 8),
            r.data@ == padded(data@, 8),
            r.fsm_id == 0,
            r.fsm_state == 0,
            r.header_time == 0,
            r.full_time == 0,
            r.crc == checksum,
            r.dir == (if is_tx { 1u8 } else { 0 }),
            r.reserved1 == 0,
            r.reserved2 == Some(0u32),
            r.trailing@.len() == 0,
            r.is_new(object_flags, timestamp, channel, id, data@, checksum, is_tx),
    {
        let (payload, length) = pad_array::<8>(data);
        LinMessage {
            header: LObj::new(
                ObjectType::LinMessage,
                object_flags,
                timestamp,
                LIN_MESSAGE_EXTENDED_SIZE as u32,
            ),
            channel,
            id,
            dlc: length as u8,
            data: payload,
            fsm_id: 0,
            fsm_state: 0,
            header_time: 0,
            full_time: 0,
            crc: checksum as u16,
            dir: if is_tx { 1 } else { 0 },
            reserved1: 0,
            reserved2: Some(0),
            trailing: Vec::new(),
        }
    }

    pub fn parse(bytes: &[u8], base: u64) -> (r: Result<Self>)
        requires
            offsets_fit(base, bytes.len(), 16),
            LinMessage::failure(bytes@, base as int) is None ==> u32_at(bytes@, 8) <= bytes.len(),
        ensures
            match r {
                Ok(v) => {
                    &&& Self::failure(bytes@, base as int) is None
                    &&& v.reads(bytes@)
                    &&& v.header.valid()
                    &&& 52 <= v.header.base.object_size <= bytes.len()
                },
                Err(e) => Self::failure(bytes@, base as int) == Some(e@),
            },
    {
        let header = LObj::parse(bytes, base)?;
        let object_size: usize = header.base.object_size as usize;
        if object_size < LIN_MESSAGE_SIZE {
            let mut message = "LIN_MESSAGE size ".to_string();
            push_dec(&mut message, object_size as u64);
            message.append(" is smaller than 52");
            return parse_err(base, message);
        }
        let extended = object_size >= LIN_MESSAGE_EXTENDED_SIZE;
        let known: usize = if extended {
            LIN_MESSAGE_EXTENDED_SIZE
        } else {
            LIN_MESSAGE_SIZE
        };
        Ok(
            LinMessage {
                header,
                channel: read_u16(bytes, 32),
                id: bytes[34],
                dlc: bytes[35],
                data: read_array::<8>(bytes, 36),
                fsm_id: bytes[44],
                fsm_state: bytes[45],
                header_time: bytes[46],
                full_time: bytes[47],
                crc: read_u16(bytes, 48),
                dir: bytes[50],
                reserved1: bytes[51],
                reserved2: if extended { Some(read_u32(bytes, 52)) } else { None },
                trailing: read_bytes(bytes, known, object_size),
            },
        )
    }

    pub fn write_to(&self, out: &mut Vec<u8>)
        ensures
            final(out)@ == old(out)@ + self.encoding(),
    {
        self.header.write_to(out);
        put_u16(out, self.channel);
        put_u8(out, self.id);
        put_u8(out, self.dlc);
        put_bytes(out, &self.data);
        put_u8(out, self.fsm_id);
        put_u8(out, self.fsm_state);
        put_u8(out, self.header_time);
        put_u8(out, self.full_time);
        put_u16(out, self.crc);
        put_u8(out, self.dir);
        put_u8(out, self.reserved1);
        if let Some(value) = self.reserved2 {
            put_u32(out, value);
        }
        put_bytes(out, &self.trailing);
        proof {
            assert(out@ =~= old(out)@ + self.encoding());
        }
    }

    /// Whether the header fits the object, so that the bytes of the object can be read
    /// back: without the second reserved word the trailing bytes are too few to be taken
    /// for it.
    pub open spec fn canonical(self) -> bool {
        &&& self.header.plain()
        &&& self.header.base.object_size == self.total()
        &&& (self.reserved2 is None ==> self.trailing@.len() < 4)
    }

    /// Reading the bytes of a canonical object gives back its fields.
    pub proof fn law_read_of_write(self, base: int)
        requires
            self.canonical(),
        ensures
            self.encoding().len() == self.total(),
            Self::failure(self.encoding(), base) is None,
            self.reads(self.encoding()),
    {
        let s = self.encoding();
        let c0 = self.header.encoding();
        let c1 = c0 + le_u16(self.channel);
        let c2 = c1 + seq![self.id];
        let c3 = c2 + seq![self.dlc];
        let c4 = c3 + self.data@;
        let c5 = c4 + seq![self.fsm_id];
        let c6 = c5 + seq![self.fsm_state];
        let c7 = c6 + seq![self.header_time];
        let c8 = c7 + seq![self.full_time];
        let c9 = c8 + le_u16(self.crc);
        let c10 = c9 + seq![self.dir];
        let c11 = c10 + seq![self.reserved1];
        let d0 = c11 + self.reserved_word();
        lemma_starts_with_self(s);
        lemma_field_bytes(d0, self.trailing@, s);
        if let Some(word) = self.reserved2 {
            lemma_field_u32(c11, word, s);
        } else {
            assert(d0 =~= c11);
        }
        lemma_field_u8(c10, self.reserved1, s);
        lemma_field_u8(c9, self.dir, s);
        lemma_field_u16(c8, self.crc, s);
        lemma_field_u8(c7, self.full_time, s);
        lemma_field_u8(c6, self.header_time, s);
        lemma_field_u8(c5, self.fsm_state, s);
        lemma_field_u8(c4, self.fsm_id, s);
        lemma_field_bytes(c3, self.data@, s);
        lemma_field_u8(c2, self.dlc, s);
        lemma_field_u8(c1, self.id, s);
        lemma_field_u16(c0, self.channel, s);
        self.header.law_read_of_prefix(s, base);
    }

    /// Writing an object that was read gives back the bytes that it was read from.
    pub proof fn law_write_of_read(self, s: Seq<u8>)
        requires
            self.header.plain(),
            self.reads(s),
            s.len() == self.header.base.object_size,
            s.len() >= 52,
        ensures
            self.encoding() == s,
    {
        self.header.law_write_of_read(s);
        lemma_le_u16_at(s, 32);
        lemma_le_u16_at(s, 48);
        if s.len() >= 56 {
            lemma_le_u32_at(s, 52);
        }
        assert(self.encoding() =~= s);
    }

    /// The bytes of an object determine it.
    pub proof fn law_reads_unique(self, other: Self, s: Seq<u8>)
        requires
            self.reads(s),
            other.reads(s),
        ensures
            self.same(other),
    {
        self.header.law_reads_unique(other.header, s);
    }
}

/// Current BLF LIN frame object (`LIN_MESSAGE2`, type 57).
#[derive(Debug, Clone, PartialEq, Eq)]
pub struct LinMessage2 {
    pub header: LObj,
    /// Start-of-frame time in nanoseconds.
    pub sof: u64,
    pub event_baudrate: u32,
    pub channel: u16,
    pub reserved_bus_event: u16,
    pub sync_break_length: u64,
    pub sync_delimiter_length: u64,
    pub supplier_id: u16,
    pub message_id: u16,
    pub nad: u8,
    pub id: u8,
    pub dlc: u8,
    /// 0 = classic checksum, 1 = enhanced checksum.
    pub checksum_model: u8,
    /// End-of-header followed by end-of-data-byte timestamps, in nanoseconds.
    pub databyte_timestamps: [u64; 9],
    pub data: [u8; 8],
    pub crc: u16,
    /// 0 = received, 1 = transmit receipt, 2 = transmit request.
    pub dir: u8,
    pub simulated: u8,
    pub is_event_triggered: u8,
    pub event_triggered_associated_index: u8,
    pub event_triggered_associated_id: u8,
    pub fsm_id: u8,
    pub fsm_state: u8,
    pub reserved1: u8,
    pub reserved2: u16,
    /// Layout generation: 1 (base), 2 (response baudrate), or 3 (exact timing).
    pub api_major: u8,
    pub response_baudrate: u32,
    pub exact_header_baudrate: Float64,
    pub early_stop_bit_offset: u32,
    pub early_stop_bit_offset_response: u32,
    /// Bytes added by a future producer after the known layout.
    pub trailing: Vec<u8>,
}

impl LinMessage2 {
    /// The layout generation that an object of a size has.
    pub open spec fn generation(size: int) -> u8 {
        if size >= 184 {
            3
        } else if size >= 168 {
            2
        } else {
            1
        }
    }

    /// Where the known fields of a layout generation end.
    pub open spec fn known(generation: u8) -> int {
        if generation >= 3 {
            184
        } else if generation >= 2 {
            168
        } else {
            164
        }
    }

    /// How reading the object fails, if it does.
    pub open spec fn failure(s: Seq<u8>, base: int) -> Option<Failure> {
        if LObj::failure(s, base) is Some {
            LObj::failure(s, base)
        } else if u32_at(s, 8) < 164 {
            Some(
                Failure::Parse(
                    base,
                    "LIN_MESSAGE2 size "@ + dec(u32_at(s, 8) as nat) + " is smaller than 164"@,
                ),
            )
        } else {
            None
        }
    }

    /// Whether the fields are those that stand in the bytes. The fields that the layout
    /// generation does not have are zero.
    pub open spec fn reads(self, s: Seq<u8>) -> bool {
        let size = u32_at(s, 8);
        let api = Self::generation(size as int);
        &&& self.header.reads(s)
        &&& self.sof == u64_at(s, 32)
        &&& self.event_baudrate == u32_at(s, 40)
        &&& self.channel == u16_at(s, 44)
        &&& self.reserved_bus_event == u16_at(s, 46)
        &&& self.sync_break_length == u64_at(s, 48)
        &&& self.sync_delimiter_length == u64_at(s, 56)
        &&& self.supplier_id == u16_at(s, 64)
        &&& self.message_id == u16_at(s, 66)
        &&& self.nad == s[68]
        &&& self.id == s[69]
        &&& self.dlc == s[70]
        &&& self.checksum_model == s[71]
        &&& self.databyte_timestamps@ == seq![
            u64_at(s, 72),
            u64_at(s, 80),
            u64_at(s, 88),
            u64_at(s, 96),
            u64_at(s, 104),
            u64_at(s, 112),
            u64_at(s, 120),
            u64_at(s, 128),
            u64_at(s, 136)
        ]
        &&& self.data@ == s.subrange(144, 152)
        &&& self.crc == u16_at(s, 152)
        &&& self.dir == s[154]
        &&& self.simulated == s[155]
        &&& self.is_event_triggered == s[156]
        &&& self.event_triggered_associated_index == s[157]
        &&& self.event_triggered_associated_id == s[158]
        &&& self.fsm_id == s[159]
        &&& self.fsm_state == s[160]
        &&& self.reserved1 == s[161]
        &&& self.reserved2 == u16_at(s, 162)
        &&& self.api_major == api
        &&& self.response_baudrate == (if api >= 2 { u32_at(s, 164) } else { 0 })
        &&& self.exact_header_baudrate.0 == (if api >= 3 { u64_at(s, 168) } else { 0 })
        &&& self.early_stop_bit_offset == (if api >= 3 { u32_at(s, 176) } else { 0 })
        &&& self.early_stop_bit_offset_response == (if api >= 3 { u32_at(s, 180) } else { 0 })
        &&& self.trailing@ == s.subrange(Self::known(api), size as int)
    }

    /// The bytes of the fields that the layout generations from 2 on add.
    pub open spec fn added(self) -> Seq<u8> {
        (if self.api_major >= 2 {
            le_u32(self.response_baudrate)
        } else {
            Seq::empty()
        }) + (if self.api_major >= 3 {
            le_u64(self.exact_header_baudrate.0) + le_u32(self.early_stop_bit_offset) + le_u32(
                self.early_stop_bit_offset_response,
            )
        } else {
            Seq::empty()
        })
    }

    /// Number of bytes of the object.
    pub open spec fn total(self) -> int {
        Self::known(self.api_major) + self.trailing@.len()
    }

    /// The bytes of the object.
    pub open spec fn encoding(self) -> Seq<u8> {
        self.header.encoding() + le_u64(self.sof) + le_u32(self.event_baudrate)
            + le_u16(self.channel) + le_u16(self.reserved_bus_event)
            + le_u64(self.sync_break_length) + le_u64(self.sync_delimiter_length)
            + le_u16(self.supplier_id) + le_u16(self.message_id) + seq![self.nad] + seq![self.id]
            + seq![self.dlc] + seq![self.checksum_model] + le_u64(self.databyte_timestamps@[0])
            + le_u64(self.databyte_timestamps@[1]) + le_u64(self.databyte_timestamps@[2])
            + le_u64(self.databyte_timestamps@[3]) + le_u64(self.databyte_timestamps@[4])
            + le_u64(self.databyte_timestamps@[5]) + le_u64(self.databyte_timestamps@[6])
            + le_u64(self.databyte_timestamps@[7]) + le_u64(self.databyte_timestamps@[8])
            + self.data@ + le_u16(self.crc) + seq![self.dir] + seq![self.simulated]
            + seq![self.is_event_triggered] + seq![self.event_triggered_associated_index]
            + seq![self.event_triggered_associated_id] + seq![self.fsm_id] + seq![self.fsm_state]
            + seq![self.reserved1] + le_u16(self.reserved2) + self.added() + self.trailing@
    }

    /// Whether two objects agree in every field.
    pub open spec fn same(self, other: Self) -> bool {
        &&& self.header.same(other.header)
        &&& self.sof == other.sof
        &&& self.event_baudrate == other.event_baudrate
        &&& self.channel == other.channel
        &&& self.reserved_bus_event == other.reserved_bus_event
        &&& self.sync_break_length == other.sync_break_length
        &&& self.sync_delimiter_length == other.sync_delimiter_length
        &&& self.supplier_id == other.supplier_id
        &&& self.message_id == other.message_id
        &&& self.nad == other.nad
        &&& self.id == other.id
        &&& self.dlc == other.dlc
        &&& self.checksum_model == other.checksum_model
        &&& self.databyte_timestamps@ == other.databyte_timestamps@
        &&& self.data@ == other.data@
        &&& self.crc == other.crc
        &&& self.dir == other.dir
        &&& self.simulated == other.simulated
        &&& self.is_event_triggered == other.is_event_triggered
        &&& self.event_triggered_associated_index == other.event_triggered_associated_index
        &&& self.event_triggered_associated_id == other.event_triggered_associated_id
        &&& self.fsm_id == other.fsm_id
        &&& self.fsm_state == other.fsm_state
        &&& self.reserved1 == other.reserved1
        &&& self.reserved2 == other.reserved2
        &&& self.api_major == other.api_major
        &&& self.response_baudrate == other.response_baudrate
        &&& self.exact_header_baudrate == other.exact_header_baudrate
        &&& self.early_stop_bit_offset == other.early_stop_bit_offset
        &&& self.early_stop_bit_offset_response == other.early_stop_bit_offset_response
        &&& self.trailing@ == other.trailing@
    }

    /// Whether the message is a new one with the given contents.
    pub open spec fn is_new(
        self,
        object_flags: ObjectFlags,
        timestamp: u64,
        channel: u16,
        id: u8,
        data: Seq<u8>,
        checksum: u8,
        checksum_model: u8,
        is_tx: bool,
    ) -> bool {
        &&& self.header.plain()
        &&& self.header.base.object_type == ObjectType::LinMessage2.raw()
        &&& self.header.base.object_size == 164
        &&& self.header.object_flags == object_flags
        &&& self.header.client_index == 0
        &&& self.header.object_version == 1
        &&& self.header.timestamp == timestamp
        &&& self.channel == channel
        &&& self.id == id
        &&& self.dlc == clipped(data.len(), 8)
        &&& self.checksum_model == checksum_model
        &&& self.databyte_timestamps@ == Seq::new(9, |i: int| 0u64)
        &&& self.data@ == padded(data, 8)
        &&& self.crc == checksum
        &&& self.dir == (if is_tx { 1u8 } else { 0 })
        &&& self.api_major == 1
        &&& self.sof == 0
        &&& self.event_baudrate == 0
        &&& self.reserved_bus_event == 0
        &&& self.sync_break_length == 0
        &&& self.sync_delimiter_length == 0
        &&& self.supplier_id == 0
        &&& self.message_id == 0
        &&& self.nad == 0
        &&& self.simulated == 0
        &&& self.is_event_triggered == 0
        &&& self.event_triggered_associated_index == 0
        &&& self.event_triggered_associated_id == 0
        &&& self.fsm_id == 0
        &&& self.fsm_state == 0
        &&& self.reserved1 == 0
        &&& self.reserved2 == 0
        &&& self.response_baudrate == 0
        &&& self.exact_header_baudrate.0 == 0
        &&& self.early_stop_bit_offset == 0
        &&& self.early_stop_bit_offset_response == 0
        &&& self.trailing@.len() == 0
    }

    pub fn new(
        object_flags: ObjectFlags,
        timestamp: u64,
        channel: u16,
        id: u8,
        data: &[u8],
        checksum: u8,
        checksum_model: u8,
        is_tx: bool,
    ) -> (r: Self)
        ensures
            r.is_new(
                object_flags,
                timestamp,
                channel,
                id,
                data@,
                checksum,
                checksum_model,
                is_tx,
            ),
    {
        let (payload, length) = pad_array::<8>(data);
        let mut header = LObj::new(
            ObjectType::LinMessage2,
            object_flags,
            timestamp,
            LIN_MESSAGE2_V1_SIZE as u32,
        );
        header.object_version = 1;
        let r = LinMessage2 {
            header,
            channel,
            id,
            dlc: length as u8,
            checksum_model,
            databyte_timestamps: [0; 9],
            data: payload,
            crc: checksum as u16,
            dir: if is_tx { 1 } else { 0 },
            api_major: 1,
            sof: 0,
            event_baudrate: 0,
            reserved_bus_event: 0,
            sync_break_length: 0,
            sync_delimiter_length: 0,
            supplier_id: 0,
            message_id: 0,
            nad: 0,
            simulated: 0,
            is_event_triggered: 0,
            event_triggered_associated_index: 0,
            event_triggered_associated_id: 0,
            fsm_id: 0,
            fsm_state: 0,
            reserved1: 0,
            reserved2: 0,
            response_baudrate: 0,
            exact_header_baudrate: Float64::from_bits(0),
            early_stop_bit_offset: 0,
            early_stop_bit_offset_response: 0,
            trailing: Vec::new(),
        };
        proof {
            assert(r.databyte_timestamps@ =~= Seq::new(9, |i: int| 0u64));
        }
        r
    }

    pub fn parse(bytes: &[u8], base: u64) -> (r: Result<Self>)
        requires
            offsets_fit(base, bytes.len(), 16),
            LinMessage2::failure(bytes@, base as int) is None ==> u32_at(bytes@, 8) <= bytes.len(),
        ensures
            match r {
                Ok(v) => {
                    &&& Self::failure(bytes@, base as int) is None
                    &&& v.reads(bytes@)
                    &&& v.header.valid()
                    &&& 164 <= v.header.base.object_size <= bytes.len()
                },
                Err(e) => Self::failure(bytes@, base as int) == Some(e@),
            },
    {
        let header = LObj::parse(bytes, base)?;
        let object_size: usize = header.base.object_size as usize;
        if object_size < LIN_MESSAGE2_V1_SIZE {
            let mut message = "LIN_MESSAGE2 size ".to_string();
            push_dec(&mut message, object_size as u64);
            message.append(" is smaller than 164");
            return parse_err(base, message);
        }
        let v2 = object_size >= LIN_MESSAGE2_V2_SIZE;
        let v3 = object_size >= LIN_MESSAGE2_V3_SIZE;
        let known: usize = if v3 {
            LIN_MESSAGE2_V3_SIZE
        } else if v2 {
            LIN_MESSAGE2_V2_SIZE
        } else {
            LIN_MESSAGE2_V1_SIZE
        };
        let r = LinMessage2 {
            header,
            sof: read_u64(bytes, 32),
            event_baudrate: read_u32(bytes, 40),
            channel: read_u16(bytes, 44),
            reserved_bus_event: read_u16(bytes, 46),
            sync_break_length: read_u64(bytes, 48),
            sync_delimiter_length: read_u64(bytes, 56),
            supplier_id: read_u16(bytes, 64),
            message_id: read_u16(bytes, 66),
            nad: bytes[68],
            id: bytes[69],
            dlc: bytes[70],
            checksum_model: bytes[71],
            databyte_timestamps: [
                read_u64(bytes, 72),
                read_u64(bytes, 80),
                read_u64(bytes, 88),
                read_u64(bytes, 96),
                read_u64(bytes, 104),
                read_u64(bytes, 112),
                read_u64(bytes, 120),
                read_u64(bytes, 128),
                read_u64(bytes, 136)
            ],
            data: read_array::<8>(bytes, 144),
            crc: read_u16(bytes, 152),
            dir: bytes[154],
            simulated: bytes[155],
            is_event_triggered: bytes[156],
            event_triggered_associated_index: bytes[157],
            event_triggered_associated_id: bytes[158],
            fsm_id: bytes[159],
            fsm_state: bytes[160],
            reserved1: bytes[161],
            reserved2: read_u16(bytes, 162),
            api_major: if v3 { 3 } else if v2 { 2 } else { 1 },
            response_baudrate: if v2 { read_u32(bytes, 164) } else { 0 },
            exact_header_baudrate: Float64::from_bits(if v3 { read_u64(bytes, 168) } else { 0 }),
            early_stop_bit_offset: if v3 { read_u32(bytes, 176) } else { 0 },
            early_stop_bit_offset_response: if v3 { read_u32(bytes, 180) } else { 0 },
            trailing: read_bytes(bytes, known, object_size),
        };
        proof {
            assert(
                r.databyte_timestamps@ =~= seq![
                    u64_at(bytes@, 72),
                    u64_at(bytes@, 80),
                    u64_at(bytes@, 88),
                    u64_at(bytes@, 96),
                    u64_at(bytes@, 104),
                    u64_at(bytes@, 112),
                    u64_at(bytes@, 120),
                    u64_at(bytes@, 128),
                    u64_at(bytes@, 136)
                ]
            );
        }
        Ok(r)
    }

    #[verifier::rlimit(50)]
    pub fn write_to(&self, out: &mut Vec<u8>)
        ensures
            final(out)@ == old(out)@ + self.encoding(),
    {
        self.header.write_to(out);
        put_u64(out, self.sof);
        put_u32(out, self.event_baudrate);
        put_u16(out, self.channel);
        put_u16(out, self.reserved_bus_event);
        put_u64(out, self.sync_break_length);
        put_u64(out, self.sync_delimiter_length);
        proof {
            let front = self.header.encoding() + le_u64(self.sof) + le_u32(self.event_baudrate)
                + le_u16(self.channel) + le_u16(self.reserved_bus_event)
                + le_u64(self.sync_break_length) + le_u64(self.sync_delimiter_length);
            assert(out@ =~= old(out)@ + front);
        }
        put_u16(out, self.supplier_id);
        put_u16(out, self.message_id);
        put_u8(out, self.nad);
        put_u8(out, self.id);
        put_u8(out, self.dlc);
        put_u8(out, self.checksum_model);
        proof {
            let front = self.header.encoding() + le_u64(self.sof) + le_u32(self.event_baudrate)
                + le_u16(self.channel) + le_u16(self.reserved_bus_event)
                + le_u64(self.sync_break_length) + le_u64(self.sync_delimiter_length)
                + le_u16(self.supplier_id) + le_u16(self.message_id) + seq![self.nad]
                + seq![self.id] + seq![self.dlc] + seq![self.checksum_model];
            assert(out@ =~= old(out)@ + front);
        }
        put_u64(out, self.databyte_timestamps[0]);
        put_u64(out, self.databyte_timestamps[1]);
        put_u64(out, self.databyte_timestamps[2]);
        put_u64(out, self.databyte_timestamps[3]);
        put_u64(out, self.databyte_timestamps[4]);
        put_u64(out, self.databyte_timestamps[5]);
        proof {
            let front = self.header.encoding() + le_u64(self.sof) + le_u32(self.event_baudrate)
                + le_u16(self.channel) + le_u16(self.reserved_bus_event)
                + le_u64(self.sync_break_length) + le_u64(self.sync_delimiter_length)
                + le_u16(self.supplier_id) + le_u16(self.message_id) + seq![self.nad]
                + seq![self.id] + seq![self.dlc] + seq![self.checksum_model]
                + le_u64(self.databyte_timestamps@[0]) + le_u64(self.databyte_timestamps@[1])
                + le_u64(self.databyte_timestamps@[2]) + le_u64(self.databyte_timestamps@[3])
                + le_u64(self.databyte_timestamps@[4]) + le_u64(self.databyte_timestamps@[5]);
            assert(out@ =~= old(out)@ + front);
        }
        put_u64(out, self.databyte_timestamps[6]);
        put_u64(out, self.databyte_timestamps[7]);
        put_u64(out, self.databyte_timestamps[8]);
        put_bytes(out, &self.data);
        put_u16(out, self.crc);
        put_u8(out, self.dir);
        proof {
            let front = self.header.encoding() + le_u64(self.sof) + le_u32(self.event_baudrate)
                + le_u16(self.channel) + le_u16(self.reserved_bus_event)
                + le_u64(self.sync_break_length) + le_u64(self.sync_delimiter_length)
                + le_u16(self.supplier_id) + le_u16(self.message_id) + seq![self.nad]
                + seq![self.id] + seq![self.dlc] + seq![self.checksum_model]
                + le_u64(self.databyte_timestamps@[0]) + le_u64(self.databyte_timestamps@[1])
                + le_u64(self.databyte_timestamps@[2]) + le_u64(self.databyte_timestamps@[3])
                + le_u64(self.databyte_timestamps@[4]) + le_u64(self.databyte_timestamps@[5])
                + le_u64(self.databyte_timestamps@[6]) + le_u64(self.databyte_timestamps@[7])
                + le_u64(self.databyte_timestamps@[8]) + self.data@ + le_u16(self.crc)
                + seq![self.dir];
            assert(out@ =~= old(out)@ + front);
        }
        put_u8(out, self.simulated);
        put_u8(out, self.is_event_triggered);
        put_u8(out, self.event_triggered_associated_index);
        put_u8(out, self.event_triggered_associated_id);
        put_u8(out, self.fsm_id);
        put_u8(out, self.fsm_state);
        proof {
            let front = self.header.encoding() + le_u64(self.sof) + le_u32(self.event_baudrate)
                + le_u16(self.channel) + le_u16(self.reserved_bus_event)
                + le_u64(self.sync_break_length) + le_u64(self.sync_delimiter_length)
                + le_u16(self.supplier_id) + le_u16(self.message_id) + seq![self.nad]
                + seq![self.id] + seq![self.dlc] + seq![self.checksum_model]
                + le_u64(self.databyte_timestamps@[0]) + le_u64(self.databyte_timestamps@[1])
                + le_u64(self.databyte_timestamps@[2]) + le_u64(self.databyte_timestamps@[3])
                + le_u64(self.databyte_timestamps@[4]) + le_u64(self.databyte_timestamps@[5])
                + le_u64(self.databyte_timestamps@[6]) + le_u64(self.databyte_timestamps@[7])
                + le_u64(self.databyte_timestamps@[8]) + self.data@ + le_u16(self.crc)
                + seq![self.dir] + seq![self.simulated] + seq![self.is_event_triggered]
                + seq![self.event_triggered_associated_index]
                + seq![self.event_triggered_associated_id] + seq![self.fsm_id]
                + seq![self.fsm_state];
            assert(out@ =~= old(out)@ + front);
        }
        put_u8(out, self.reserved1);
        put_u16(out, self.reserved2);
        proof {
            let front = self.header.encoding() + le_u64(self.sof) + le_u32(self.event_baudrate)
                + le_u16(self.channel) + le_u16(self.reserved_bus_event)
                + le_u64(self.sync_break_length) + le_u64(self.sync_delimiter_length)
                + le_u16(self.supplier_id) + le_u16(self.message_id) + seq![self.nad]
                + seq![self.id] + seq![self.dlc] + seq![self.checksum_model]
                + le_u64(self.databyte_timestamps@[0]) + le_u64(self.databyte_timestamps@[1])
                + le_u64(self.databyte_timestamps@[2]) + le_u64(self.databyte_timestamps@[3])
                + le_u64(self.databyte_timestamps@[4]) + le_u64(self.databyte_timestamps@[5])
                + le_u64(self.databyte_timestamps@[6]) + le_u64(self.databyte_timestamps@[7])
                + le_u64(self.databyte_timestamps@[8]) + self.data@ + le_u16(self.crc)
                + seq![self.dir] + seq![self.simulated] + seq![self.is_event_triggered]
                + seq![self.event_triggered_associated_index]
                + seq![self.event_triggered_associated_id] + seq![self.fsm_id]
                + seq![self.fsm_state] + seq![self.reserved1] + le_u16(self.reserved2);
            assert(out@ =~= old(out)@ + front);
        }
        if self.api_major >= 2 {
            put_u32(out, self.response_baudrate);
        }
        if self.api_major >= 3 {
            put_u64(out, self.exact_header_baudrate.bits());
            put_u32(out, self.early_stop_bit_offset);
            put_u32(out, self.early_stop_bit_offset_response);
        }
        put_bytes(out, &self.trailing);
        proof {
            assert(out@ =~= old(out)@ + self.encoding());
        }
    }

    /// Whether the header fits the object, so that the bytes of the object can be read
    /// back: the size is that of the layout generation, and the fields that the
    /// generation does not have are zero.
    pub open spec fn canonical(self) -> bool {
        &&& self.header.plain()
        &&& self.header.base.object_size == self.total()
        &&& self.api_major == Self::generation(self.total())
        &&& (self.api_major < 2 ==> self.response_baudrate == 0)
        &&& (self.api_major < 3 ==> self.exact_header_baudrate.0 == 0
            && self.early_stop_bit_offset == 0 && self.early_stop_bit_offset_response == 0)
    }

    /// Reading the bytes of a canonical object gives back its fields.
    #[verifier::rlimit(40)]
    pub proof fn law_read_of_write(self, base: int)
        requires
            self.canonical(),
        ensures
            self.encoding().len() == self.total(),
            Self::failure(self.encoding(), base) is None,
            self.reads(self.encoding()),
    {
        let s = self.encoding();
        let c0 = self.header.encoding();
        let c1 = c0 + le_u64(self.sof);
        let c2 = c1 + le_u32(self.event_baudrate);
        let c3 = c2 + le_u16(self.channel);
        let c4 = c3 + le_u16(self.reserved_bus_event);
        let c5 = c4 + le_u64(self.sync_break_length);
        let c6 = c5 + le_u64(self.sync_delimiter_length);
        let c7 = c6 + le_u16(self.supplier_id);
        let c8 = c7 + le_u16(self.message_id);
        let c9 = c8 + seq![self.nad];
        let c10 = c9 + seq![self.id];
        let c11 = c10 + seq![self.dlc];
        let c12 = c11 + seq![self.checksum_model];
        let c13 = c12 + le_u64(self.databyte_timestamps@[0]);
        let c14 = c13 + le_u64(self.databyte_timestamps@[1]);
        let c15 = c14 + le_u64(self.databyte_timestamps@[2]);
        let c16 = c15 + le_u64(self.databyte_timestamps@[3]);
        let c17 = c16 + le_u64(self.databyte_timestamps@[4]);
        let c18 = c17 + le_u64(self.databyte_timestamps@[5]);
        let c19 = c18 + le_u64(self.databyte_timestamps@[6]);
        let c20 = c19 + le_u64(self.databyte_timestamps@[7]);
        let c21 = c20 + le_u64(self.databyte_timestamps@[8]);
        let c22 = c21 + self.data@;
        let c23 = c22 + le_u16(self.crc);
        let c24 = c23 + seq![self.dir];
        let c25 = c24 + seq![self.simulated];
        let c26 = c25 + seq![self.is_event_triggered];
        let c27 = c26 + seq![self.event_triggered_associated_index];
        let c28 = c27 + seq![self.event_triggered_associated_id];
        let c29 = c28 + seq![self.fsm_id];
        let c30 = c29 + seq![self.fsm_state];
        let c31 = c30 + seq![self.reserved1];
        let c32 = c31 + le_u16(self.reserved2);
        let d0 = c32 + self.added();
        lemma_starts_with_self(s);
        lemma_field_bytes(d0, self.trailing@, s);
        let d1 = c32 + le_u32(self.response_baudrate);
        if self.api_major >= 3 {
            let d2 = d1 + le_u64(self.exact_header_baudrate.0);
            let d3 = d2 + le_u32(self.early_stop_bit_offset);
            assert(d0 =~= d3 + le_u32(self.early_stop_bit_offset_response));
            lemma_field_u32(d3, self.early_stop_bit_offset_response, s);
            lemma_field_u32(d2, self.early_stop_bit_offset, s);
            lemma_field_u64(d1, self.exact_header_baudrate.0, s);
            lemma_field_u32(c32, self.response_baudrate, s);
        } else if self.api_major >= 2 {
            assert(d0 =~= d1);
            lemma_field_u32(c32, self.response_baudrate, s);
        } else {
            assert(d0 =~= c32);
        }
        lemma_field_u16(c31, self.reserved2, s);
        lemma_field_u8(c30, self.reserved1, s);
        lemma_field_u8(c29, self.fsm_state, s);
        lemma_field_u8(c28, self.fsm_id, s);
        lemma_field_u8(c27, self.event_triggered_associated_id, s);
        lemma_field_u8(c26, self.event_triggered_associated_index, s);
        lemma_field_u8(c25, self.is_event_triggered, s);
        lemma_field_u8(c24, self.simulated, s);
        lemma_field_u8(c23, self.dir, s);
        lemma_field_u16(c22, self.crc, s);
        lemma_field_bytes(c21, self.data@, s);
        lemma_field_u64(c20, self.databyte_timestamps@[8], s);
        lemma_field_u64(c19, self.databyte_timestamps@[7], s);
        lemma_field_u64(c18, self.databyte_timestamps@[6], s);
        lemma_field_u64(c17, self.databyte_timestamps@[5], s);
        lemma_field_u64(c16, self.databyte_timestamps@[4], s);
        lemma_field_u64(c15, self.databyte_timestamps@[3], s);
        lemma_field_u64(c14, self.databyte_timestamps@[2], s);
        lemma_field_u64(c13, self.databyte_timestamps@[1], s);
        lemma_field_u64(c12, self.databyte_timestamps@[0], s);
        lemma_field_u8(c11, self.checksum_model, s);
        lemma_field_u8(c10, self.dlc, s);
        lemma_field_u8(c9, self.id, s);
        lemma_field_u8(c8, self.nad, s);
        lemma_field_u16(c7, self.message_id, s);
        lemma_field_u16(c6, self.supplier_id, s);
        lemma_field_u64(c5, self.sync_delimiter_length, s);
        lemma_field_u64(c4, self.sync_break_length, s);
        lemma_field_u16(c3, self.reserved_bus_event, s);
        lemma_field_u16(c2, self.channel, s);
        lemma_field_u32(c1, self.event_baudrate, s);
        lemma_field_u64(c0, self.sof, s);
        self.header.law_read_of_prefix(s, base);
        assert(
            self.databyte_timestamps@ =~= seq![
                u64_at(s, 72),
                u64_at(s, 80),
                u64_at(s, 88),
                u64_at(s, 96),
                u64_at(s, 104),
                u64_at(s, 112),
                u64_at(s, 120),
                u64_at(s, 128),
                u64_at(s, 136)
            ]
        );
    }

    /// Writing an object that was read gives back the bytes that it was read from.
    #[verifier::rlimit(40)]
    pub proof fn law_write_of_read(self, s: Seq<u8>)
        requires
            self.header.plain(),
            self.reads(s),
            s.len() == self.header.base.object_size,
            s.len() >= 164,
        ensures
            self.encoding() == s,
    {
        self.header.law_write_of_read(s);
        lemma_le_u64_at(s, 32);
        lemma_le_u32_at(s, 40);
        lemma_le_u16_at(s, 44);
        lemma_le_u16_at(s, 46);
        lemma_le_u64_at(s, 48);
        lemma_le_u64_at(s, 56);
        lemma_le_u16_at(s, 64);
        lemma_le_u16_at(s, 66);
        lemma_le_u64_at(s, 72);
        lemma_le_u64_at(s, 80);
        lemma_le_u64_at(s, 88);
        lemma_le_u64_at(s, 96);
        lemma_le_u64_at(s, 104);
        lemma_le_u64_at(s, 112);
        lemma_le_u64_at(s, 120);
        lemma_le_u64_at(s, 128);
        lemma_le_u64_at(s, 136);
        lemma_le_u16_at(s, 152);
        lemma_le_u16_at(s, 162);
        if s.len() >= 168 {
            lemma_le_u32_at(s, 164);
        }
        if s.len() >= 184 {
            lemma_le_u64_at(s, 168);
            lemma_le_u32_at(s, 176);
            lemma_le_u32_at(s, 180);
        }
        assert(self.encoding() =~= s);
    }

    /// The bytes of an object determine it.
    pub proof fn law_reads_unique(self, other: Self, s: Seq<u8>)
        requires
            self.reads(s),
            other.reads(s),
        ensures
            self.same(other),
    {
        self.header.law_reads_unique(other.header, s);
    }
}

} // verus!
