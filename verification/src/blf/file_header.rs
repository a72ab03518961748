//! The header of a BLF file.

use crate::blf::bytes::{
    le_u32, le_u64, lemma_field_bytes, lemma_field_u32, lemma_field_u64, lemma_field_u8,
    lemma_le_u32_at, lemma_le_u64_at, lemma_starts_with_self, put_bytes, put_u32, put_u64, put_u8,
    read_array, read_bytes, read_u32, read_u64, starts_with, u32_at, u64_at,
};
use crate::blf::error::{parse_err, Failure, Result};
use crate::blf::flags::AppId;
use crate::blf::time::{Time, UnixTime};
use crate::span::Span;
use crate::text::{debug_of, debug_text, dec, decoded_text, push_dec, utf8_lossy};
use vstd::prelude::*;

verus! {

/// The signature of a file, "LOGG".
pub const FILE_SIGNATURE: [u8; 4] = [0x4C, 0x4F, 0x47, 0x47];

/// Size of the mandatory portion of a BLF file header.
pub const HEADER_CORE_SIZE: usize = 72;

pub const HEADER_SIZE: usize = 144;

/// The bytes of the file signature, "LOGG".
pub open spec fn file_signature() -> Seq<u8> {
    seq![0x4C, 0x4F, 0x47, 0x47]
}

/// The header of a file.
#[derive(Debug, Clone, PartialEq, Eq)]
pub struct Header {
    pub signature: [u8; 4],
    pub header_size: u32,
    pub api_number: [u8; 4],
    pub app_id: AppId,
    pub compression: u8,
    pub app_major: u8,
    pub app_minor: u8,
    pub file_size: u64,
    pub uncompressed_file_size: u64,
    pub object_count: u32,
    pub app_build: u32,
    pub start: Time,
    pub end: Time,
    /// Offset of the first restore-point container when the extended header is present.
    pub restore_point_offset: Option<u64>,
    /// Reserved or future header bytes following `restore_point_offset`.
    pub reserved3: Vec<u8>,
}

fn is_file_signature(signature: &[u8; 4]) -> (r: bool)
    ensures
        r == (signature@ == file_signature()),
{
    let r = signature[0] == FILE_SIGNATURE[0] && signature[1] == FILE_SIGNATURE[1] && signature[2]
        == FILE_SIGNATURE[2] && signature[3] == FILE_SIGNATURE[3];
    proof {
        assert(r ==> signature@ =~= file_signature());
    }
    r
}

/// The time from `start` to `end`, if `end` is not the earlier one.
pub open spec fn span_between(start: UnixTime, end: UnixTime) -> Option<(int, int)> {
    let nanos = (end.secs - start.secs) * 1_000_000_000 + end.nanos - start.nanos;
    if nanos < 0 {
        None
    } else {
        Some((nanos / 1_000_000_000, nanos % 1_000_000_000))
    }
}

impl Header {
    /// How reading the header fails, if it does.
    pub open spec fn failure(s: Seq<u8>, base: int) -> Option<Failure> {
        let header_size = u32_at(s, 4);
        if s.len() < 8 {
            Some(
                Failure::Parse(
                    base,
                    "file too small for BLF header prefix: "@ + dec(s.len()) + " bytes, need 8"@,
                ),
            )
        } else if s.subrange(0, 4) != file_signature() {
            Some(
                Failure::Parse(
                    base,
                    "bad file signature "@ + debug_of(decoded_text(s.subrange(0, 4)))
                        + ", expected \"LOGG\""@,
                ),
            )
        } else if header_size < 72 {
            Some(
                Failure::Parse(
                    base + 4,
                    "header size "@ + dec(header_size as nat)
                        + " too small, expected at least 72"@,
                ),
            )
        } else if header_size > s.len() {
            Some(
                Failure::Parse(
                    base + 4,
                    "header size "@ + dec(header_size as nat) + " exceeds available "@ + dec(
                        s.len(),
                    ) + " bytes"@,
                ),
            )
        } else {
            None
        }
    }

    /// Whether the fields that every header has are those that stand in the bytes.
    pub open spec fn reads_fixed(self, s: Seq<u8>) -> bool {
        &&& self.signature@ == s.subrange(0, 4)
        &&& self.header_size == u32_at(s, 4)
        &&& self.api_number@ == s.subrange(8, 12)
        &&& self.app_id.0 == s[12]
        &&& self.compression == s[13]
        &&& self.app_major == s[14]
        &&& self.app_minor == s[15]
        &&& self.file_size == u64_at(s, 16)
        &&& self.uncompressed_file_size == u64_at(s, 24)
        &&& self.object_count == u32_at(s, 32)
        &&& self.app_build == u32_at(s, 36)
        &&& self.start.reads(s, 40)
        &&& self.end.reads(s, 56)
    }

    /// Whether the fields are those that stand in the bytes. A header of at least 80 bytes
    /// has the offset of the restore points.
    pub open spec fn reads(self, s: Seq<u8>) -> bool {
        let size = u32_at(s, 4);
        &&& self.reads_fixed(s)
        &&& self.restore_point_offset == (if size >= 80 { Some(u64_at(s, 72)) } else { None })
        &&& self.reserved3@ == s.subrange((if size >= 80 { 80 } else { 72 }), size as int)
    }

    /// The offset of the restore points as it is written.
    pub open spec fn offset_bytes(self) -> Seq<u8> {
        match self.restore_point_offset {
            Some(offset) => le_u64(offset),
            None => Seq::empty(),
        }
    }

    /// The bytes of the header.
    pub open spec fn encoding(self) -> Seq<u8> {
        self.signature@ + le_u32(self.header_size) + self.api_number@ + seq![self.app_id.0] + seq![
            self.compression,
        ] + seq![self.app_major] + seq![self.app_minor] + le_u64(self.file_size) + le_u64(
            self.uncompressed_file_size,
        ) + le_u32(self.object_count) + le_u32(self.app_build) + self.start.encoding()
            + self.end.encoding() + self.offset_bytes() + self.reserved3@
    }

    /// Number of bytes of the header.
    pub open spec fn spec_encoded_size(self) -> int {
        72 + (if self.restore_point_offset is Some { 8int } else { 0 }) + self.reserved3@.len()
    }

    /// Whether the header is one that reading can give: the signature is right, the size
    /// is the number of bytes, and a header without restore-point offset is too short to
    /// have one.
    pub open spec fn canonical(self) -> bool {
        &&& self.signature@ == file_signature()
        &&& self.header_size == self.spec_encoded_size()
        &&& (self.restore_point_offset is None ==> self.reserved3@.len() < 8)
    }

    /// Whether two headers agree in the fields that every header has.
    pub open spec fn same_fixed(self, other: Header) -> bool {
        &&& self.signature@ == other.signature@
        &&& self.header_size == other.header_size
        &&& self.api_number@ == other.api_number@
        &&& self.app_id == other.app_id
        &&& self.compression == other.compression
        &&& self.app_major == other.app_major
        &&& self.app_minor == other.app_minor
        &&& self.file_size == other.file_size
        &&& self.uncompressed_file_size == other.uncompressed_file_size
        &&& self.object_count == other.object_count
        &&& self.app_build == other.app_build
        &&& self.start == other.start
        &&& self.end == other.end
    }

    /// Whether two headers agree in every field.
    pub open spec fn same(self, other: Header) -> bool {
        &&& self.same_fixed(other)
        &&& self.restore_point_offset == other.restore_point_offset
        &&& self.reserved3@ == other.reserved3@
    }

    pub fn new(
        compressed: bool,
        app_id: AppId,
        app_major: u8,
        app_minor: u8,
        app_build: u32,
    ) -> (r: Self)
        ensures
            r.canonical(),
            r.header_size == 144,
            r.api_number@ == seq![0u8, 0, 0, 0],
            r.app_id == app_id,
            r.compression == (if compressed { 1u8 } else { 0 }),
            r.app_major == app_major,
            r.app_minor == app_minor,
            r.file_size == 0,
            r.uncompressed_file_size == 0,
            r.object_count == 0,
            r.app_build == app_build,
            r.start == Time::zero(),
            r.end == Time::zero(),
            r.restore_point_offset == Some(0u64),
            r.reserved3@ == Seq::new(64, |i: int| 0u8),
    {
        let mut reserved3: Vec<u8> = Vec::new();
        let mut i: usize = 0;
        while i < 64
            invariant
                i <= 64,
                reserved3@ == Seq::new(i as nat, |j: int| 0u8),
            decreases 64 - i,
        {
            reserved3.push(0);
            i += 1;
            proof {
                assert(reserved3@ =~= Seq::new(i as nat, |j: int| 0u8));
            }
        }
        let r = Header {
            signature: FILE_SIGNATURE,
            header_size: HEADER_SIZE as u32,
            api_number: [0; 4],
            app_id,
            compression: if compressed { 1 } else { 0 },
            app_major,
            app_minor,
            file_size: 0,
            uncompressed_file_size: 0,
            object_count: 0,
            app_build,
            start: Time::new(),
            end: Time::new(),
            restore_point_offset: Some(0),
            reserved3,
        };
        proof {
            assert(r.signature@ =~= file_signature());
            assert(r.api_number@ =~= seq![0u8, 0, 0, 0]);
        }
        r
    }

    /// The point in time at which the recording started.
    pub fn started(&self) -> (r: Option<UnixTime>)
        ensures
            r is Some <==> self.start.valid() && self.start.unix_secs() >= 0,
            r matches Some(t) ==> t == self.start.point(),
    {
        self.start.to_system_time()
    }

    /// The point in time at which the recording ended.
    pub fn ended(&self) -> (r: Option<UnixTime>)
        ensures
            r is Some <==> self.end.valid() && self.end.unix_secs() >= 0,
            r matches Some(t) ==> t == self.end.point(),
    {
        self.end.to_system_time()
    }

    /// How long the recording took, if it has a start and an end and did not end before it
    /// started.
    pub fn duration(&self) -> (r: Option<Span>)
        ensures
            ({
                let known = self.start.valid() && self.start.unix_secs() >= 0 && self.end.valid()
                    && self.end.unix_secs() >= 0;
                let span = span_between(self.start.point(), self.end.point());
                match r {
                    Some(d) => known && span == Some((d.secs as int, d.nanos as int)),
                    None => !known || span is None,
                }
            }),
    {
        let ended = match self.ended() {
            Some(t) => t,
            None => return None,
        };
        let started = match self.started() {
            Some(t) => t,
            None => return None,
        };
        if ended.secs < started.secs || (ended.secs == started.secs && ended.nanos
            < started.nanos) {
            return None;
        }
        let secs: u64 = (ended.secs - started.secs) as u64;
        if ended.nanos >= started.nanos {
            Some(Span { secs, nanos: ended.nanos - started.nanos })
        } else {
            Some(Span { secs: secs - 1, nanos: 1_000_000_000 - (started.nanos - ended.nanos) })
        }
    }

    pub fn parse(bytes: &[u8], base: u64) -> (r: Result<Self>)
        requires
            bytes.len() >= 8 ==> base + 4 <= u64::MAX,
        ensures
            match r {
                Ok(v) => {
                    &&& Self::failure(bytes@, base as int) is None
                    &&& v.reads(bytes@)
                    &&& v.canonical()
                },
                Err(e) => Self::failure(bytes@, base as int) == Some(e@),
            },
    {
        if bytes.len() < 8 {
            let mut message = "file too small for BLF header prefix: ".to_string();
            push_dec(&mut message, bytes.len() as u64);
            message.append(" bytes, need 8");
            return parse_err(base, message);
        }
        let signature = read_array::<4>(bytes, 0);
        let header_size: u32 = read_u32(bytes, 4);
        if !is_file_signature(&signature) {
            let mut message = "bad file signature ".to_string();
            message.append(debug_text(utf8_lossy(&signature).as_str()).as_str());
            message.append(", expected \"LOGG\"");
            return parse_err(base, message);
        }
        let size: usize = header_size as usize;
        if size < HEADER_CORE_SIZE {
            let mut message = "header size ".to_string();
            push_dec(&mut message, header_size as u64);
            message.append(" too small, expected at least 72");
            return parse_err(base + 4, message);
        }
        if size > bytes.len() {
            let mut message = "header size ".to_string();
            push_dec(&mut message, header_size as u64);
            message.append(" exceeds available ");
            push_dec(&mut message, bytes.len() as u64);
            message.append(" bytes");
            return parse_err(base + 4, message);
        }
        let extended = size >= HEADER_CORE_SIZE + 8;
        let known: usize = if extended {
            HEADER_CORE_SIZE + 8
        } else {
            HEADER_CORE_SIZE
        };
        Ok(
            Header {
                signature,
                header_size,
                api_number: read_array::<4>(bytes, 8),
                app_id: AppId(bytes[12]),
                compression: bytes[13],
                app_major: bytes[14],
                app_minor: bytes[15],
                file_size: read_u64(bytes, 16),
                uncompressed_file_size: read_u64(bytes, 24),
                object_count: read_u32(bytes, 32),
                app_build: read_u32(bytes, 36),
                start: Time::parse(bytes, 40),
                end: Time::parse(bytes, 56),
                restore_point_offset: if extended { Some(read_u64(bytes, 72)) } else { None },
                reserved3: read_bytes(bytes, known, size),
            },
        )
    }

    /// Returns the number of bytes produced by [`Header::write_to`].
    pub fn encoded_size(&self) -> (r: usize)
        requires
            self.spec_encoded_size() <= usize::MAX,
        ensures
            r == self.spec_encoded_size(),
            r == self.encoding().len(),
    {
        let extra: usize = if self.restore_point_offset.is_some() {
            8
        } else {
            0
        };
        proof {
            self.lemma_encoding_len();
        }
        HEADER_CORE_SIZE + extra + self.reserved3.len()
    }

    pub fn write_to(&self, out: &mut Vec<u8>)
        ensures
            final(out)@ == old(out)@ + self.encoding(),
    {
        put_bytes(out, &self.signature);
        put_u32(out, self.header_size);
        put_bytes(out, &self.api_number);
        put_u8(out, self.app_id.0);
        put_u8(out, self.compression);
        put_u8(out, self.app_major);
        put_u8(out, self.app_minor);
        put_u64(out, self.file_size);
        put_u64(out, self.uncompressed_file_size);
        put_u32(out, self.object_count);
        put_u32(out, self.app_build);
        self.start.write_to(out);
        self.end.write_to(out);
        if let Some(offset) = self.restore_point_offset {
            put_u64(out, offset);
        }
        put_bytes(out, &self.reserved3);
        proof {
            assert(out@ =~= old(out)@ + self.encoding());
        }
    }

    /// What reading the bytes of a header at the start of a file gives.
    pub proof fn lemma_fields(self, s: Seq<u8>)
        requires
            starts_with(s, self.encoding()),
        ensures
            self.encoding().len() == self.spec_encoded_size(),
            s.len() >= self.spec_encoded_size(),
            self.reads_fixed(s),
            self.canonical() ==> self.reads(s),
    {
        let empty = Seq::<u8>::empty();
        let c0 = self.signature@;
        let c1 = c0 + le_u32(self.header_size);
        let c2 = c1 + self.api_number@;
        let c3 = c2 + seq![self.app_id.0];
        let c4 = c3 + seq![self.compression];
        let c5 = c4 + seq![self.app_major];
        let c6 = c5 + seq![self.app_minor];
        let c7 = c6 + le_u64(self.file_size);
        let c8 = c7 + le_u64(self.uncompressed_file_size);
        let c9 = c8 + le_u32(self.object_count);
        let c10 = c9 + le_u32(self.app_build);
        let c11 = c10 + self.start.encoding();
        let c12 = c11 + self.end.encoding();
        let c13 = c12 + self.offset_bytes();
        lemma_field_bytes(c13, self.reserved3@, s);
        if let Some(offset) = self.restore_point_offset {
            lemma_field_u64(c12, offset, s);
        } else {
            assert(c13 =~= c12);
        }
        self.end.lemma_field_time(c11, s);
        self.start.lemma_field_time(c10, s);
        lemma_field_u32(c9, self.app_build, s);
        lemma_field_u32(c8, self.object_count, s);
        lemma_field_u64(c7, self.uncompressed_file_size, s);
        lemma_field_u64(c6, self.file_size, s);
        lemma_field_u8(c5, self.app_minor, s);
        lemma_field_u8(c4, self.app_major, s);
        lemma_field_u8(c3, self.compression, s);
        lemma_field_u8(c2, self.app_id.0, s);
        lemma_field_bytes(c1, self.api_number@, s);
        lemma_field_u32(c0, self.header_size, s);
        assert(empty + c0 =~= c0);
        lemma_field_bytes(empty, c0, s);
    }

    /// Headers that agree in every field have the same bytes.
    pub proof fn lemma_same_encoding(self, other: Header)
        requires
            self.same(other),
        ensures
            self.encoding() == other.encoding(),
    {
    }

    /// Number of bytes of a header.
    pub proof fn lemma_encoding_len(self)
        ensures
            self.encoding().len() == self.spec_encoded_size(),
    {
        lemma_starts_with_self(self.encoding());
        self.lemma_fields(self.encoding());
    }

    /// Reading bytes that start with those of a canonical header gives back its fields.
    pub proof fn law_read_of_prefix(self, s: Seq<u8>, base: int)
        requires
            self.canonical(),
            starts_with(s, self.encoding()),
        ensures
            self.encoding().len() == self.header_size,
            s.len() >= self.header_size,
            Self::failure(s, base) is None,
            self.reads(s),
    {
        self.lemma_fields(s);
    }

    /// Writing a header that was read gives back the bytes that it was read from.
    pub proof fn law_write_of_read(self, s: Seq<u8>)
        requires
            Self::failure(s, 0) is None,
            self.reads(s),
        ensures
            self.encoding() == s.subrange(0, self.header_size as int),
    {
        lemma_le_u32_at(s, 4);
        lemma_le_u64_at(s, 16);
        lemma_le_u64_at(s, 24);
        lemma_le_u32_at(s, 32);
        lemma_le_u32_at(s, 36);
        self.start.lemma_write_of_read(s, 40);
        self.end.lemma_write_of_read(s, 56);
        if self.header_size >= 80 {
            lemma_le_u64_at(s, 72);
        }
        assert(self.encoding() =~= s.subrange(0, self.header_size as int));
    }

    /// The bytes of a header determine the fields that every header has.
    pub proof fn law_fixed_unique(self, other: Header, s: Seq<u8>)
        requires
            self.reads_fixed(s),
            other.reads_fixed(s),
        ensures
            self.same_fixed(other),
    {
    }

    /// The bytes of a header determine it.
    pub proof fn law_reads_unique(self, other: Header, s: Seq<u8>)
        requires
            self.reads(s),
            other.reads(s),
        ensures
            self.same(other),
    {
    }
}

} // verus!
