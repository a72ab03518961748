//! Object headers: the base header that every object has, and the timed header of
//! versions 1 and 2.

use crate::blf::bytes::{
    check_fields, le_u16, le_u32, le_u64, lemma_field_bytes, lemma_field_u16, lemma_field_u32,
    lemma_field_u64, lemma_field_u8, lemma_le_u16_at, lemma_le_u32_at, lemma_le_u64_at,
    lemma_short_read_none, lemma_starts_with_self, put_bytes, put_u16, put_u32, put_u64, put_u8,
    read_array, read_bytes, read_u16, read_u32, read_u64, short_read, starts_with, u16_at, u32_at,
    u64_at,
    offsets_fit,
};
use crate::blf::error::{parse_err, Failure, Result};
use crate::blf::flags::ObjectFlags;
use crate::blf::object_type::ObjectType;
use crate::text::{debug_of, debug_text, dec, decoded_text, push_dec, utf8_lossy};
use vstd::prelude::*;

verus! {

/// The signature of an object, "LOBJ".
pub const OBJ_SIGNATURE: [u8; 4] = [0x4C, 0x4F, 0x42, 0x4A];

pub const OBJ_BASE_SIZE: usize = 16;

pub const LOBJ_SIZE: usize = 32;

pub const LOBJ_V2_SIZE: usize = 40;

/// The bytes of the object signature, "LOBJ".
pub open spec fn obj_signature() -> Seq<u8> {
    seq![0x4C, 0x4F, 0x42, 0x4A]
}

/// The header that every object starts with.
#[derive(Debug, Clone, PartialEq, Eq)]
pub struct ObjBase {
    pub signature: [u8; 4],
    pub header_size: u16,
    pub header_version: u16,
    pub object_size: u32,
    pub object_type: u32,
}

pub(crate) fn is_obj_signature(signature: &[u8; 4]) -> (r: bool)
    ensures
        r == (signature@ == obj_signature()),
{
    let r = signature[0] == OBJ_SIGNATURE[0] && signature[1] == OBJ_SIGNATURE[1] && signature[2]
        == OBJ_SIGNATURE[2] && signature[3] == OBJ_SIGNATURE[3];
    proof {
        assert(r ==> signature@ =~= obj_signature());
    }
    r
}

impl ObjBase {
    /// Where each field ends.
    pub open spec fn ends() -> Seq<usize> {
        seq![4, 6, 8, 12, 16]
    }

    /// How reading the header fails, if it does.
    pub open spec fn failure(s: Seq<u8>, base: int) -> Option<Failure> {
        short_read(ObjBase::ends(), 0, s.len() as int, base)
    }

    /// Whether the fields are those that stand in the bytes.
    pub open spec fn reads(self, s: Seq<u8>) -> bool {
        &&& self.signature@ == s.subrange(0, 4)
        &&& self.header_size == u16_at(s, 4)
        &&& self.header_version == u16_at(s, 6)
        &&& self.object_size == u32_at(s, 8)
        &&& self.object_type == u32_at(s, 12)
    }

    /// The bytes of the header with `object_size` for the size of the object.
    pub open spec fn sized_encoding(self, object_size: u32) -> Seq<u8> {
        self.signature@ + le_u16(self.header_size) + le_u16(self.header_version) + le_u32(
            object_size,
        ) + le_u32(self.object_type)
    }

    /// The bytes of the header.
    pub open spec fn encoding(self) -> Seq<u8> {
        self.sized_encoding(self.object_size)
    }

    pub fn new(object_type: u32, header_size: u16, object_size: u32) -> (r: Self)
        ensures
            r.signature@ == obj_signature(),
            r.header_size == header_size,
            r.header_version == 0,
            r.object_size == object_size,
            r.object_type == object_type,
    {
        let r = ObjBase {
            signature: OBJ_SIGNATURE,
            header_size,
            header_version: 0,
            object_size,
            object_type,
        };
        proof {
            assert(r.signature@ =~= obj_signature());
        }
        r
    }

    pub fn object_type(&self) -> (r: Option<ObjectType>)
        ensures
            r == ObjectType::of_raw(self.object_type),
    {
        ObjectType::from_raw(self.object_type)
    }

    pub fn parse(bytes: &[u8], base: u64) -> (r: Result<Self>)
        requires
            offsets_fit(base, bytes.len(), 16),
        ensures
            match r {
                Ok(v) => {
                    &&& ObjBase::failure(bytes@, base as int) is None
                    &&& v.reads(bytes@)
                    &&& bytes.len() >= 16
                },
                Err(e) => ObjBase::failure(bytes@, base as int) == Some(e@),
            },
    {
        let ends = [4usize, 6, 8, 12, 16];
        proof {
            assert(ends@ =~= ObjBase::ends());
        }
        check_fields(&ends, bytes.len(), base)?;
        proof {
            assert(ends[4] == 16);
        }
        Ok(
            ObjBase {
                signature: read_array::<4>(bytes, 0),
                header_size: read_u16(bytes, 4),
                header_version: read_u16(bytes, 6),
                object_size: read_u32(bytes, 8),
                object_type: read_u32(bytes, 12),
            },
        )
    }

    pub(crate) fn write_sized(&self, object_size: u32, out: &mut Vec<u8>)
        ensures
            final(out)@ == old(out)@ + self.sized_encoding(object_size),
    {
        put_bytes(out, &self.signature);
        put_u16(out, self.header_size);
        put_u16(out, self.header_version);
        put_u32(out, object_size);
        put_u32(out, self.object_type);
        proof {
            assert(out@ =~= old(out)@ + self.sized_encoding(object_size));
        }
    }

    pub fn write_to(&self, out: &mut Vec<u8>)
        ensures
            final(out)@ == old(out)@ + self.encoding(),
    {
        self.write_sized(self.object_size, out);
    }

    /// Reading the bytes of a header, whatever follows them, gives back its fields.
    pub proof fn law_read_of_write(self, tail: Seq<u8>, base: int)
        ensures
            self.encoding().len() == 16,
            ObjBase::failure(self.encoding() + tail, base) is None,
            self.reads(self.encoding() + tail),
    {
        let s = self.encoding() + tail;
        let c0 = self.signature@;
        let c1 = c0 + le_u16(self.header_size);
        let c2 = c1 + le_u16(self.header_version);
        let c3 = c2 + le_u32(self.object_size);
        lemma_starts_with_self(s);
        lemma_field_bytes(self.encoding(), tail, s);
        lemma_field_u32(c3, self.object_type, s);
        lemma_field_u32(c2, self.object_size, s);
        lemma_field_u16(c1, self.header_version, s);
        lemma_field_u16(c0, self.header_size, s);
        assert(Seq::<u8>::empty() + c0 =~= c0);
        lemma_field_bytes(Seq::empty(), c0, s);
        lemma_short_read_none(ObjBase::ends(), 0, s.len() as int, base);
    }

    /// Reading bytes that start with those of a header gives back its fields.
    pub proof fn law_read_of_prefix(self, s: Seq<u8>, base: int)
        requires
            starts_with(s, self.encoding()),
        ensures
            self.encoding().len() == 16,
            ObjBase::failure(s, base) is None,
            self.reads(s),
    {
        reveal(starts_with);
        let n = self.encoding().len() as int;
        let tail = s.subrange(n, s.len() as int);
        assert(s =~= self.encoding() + tail);
        self.law_read_of_write(tail, base);
    }

    /// Writing a header that was read gives back the bytes that it was read from.
    pub proof fn law_write_of_read(self, s: Seq<u8>)
        requires
            s.len() >= 16,
            self.reads(s),
        ensures
            self.encoding() == s.subrange(0, 16),
    {
        lemma_le_u16_at(s, 4);
        lemma_le_u16_at(s, 6);
        lemma_le_u32_at(s, 8);
        lemma_le_u32_at(s, 12);
        assert(self.encoding() =~= s.subrange(0, 16));
    }
}

/// The header of timed objects.
#[derive(Debug, Clone, PartialEq, Eq)]
pub struct LObj {
    pub base: ObjBase,
    pub object_flags: ObjectFlags,
    pub client_index: u16,
    pub object_version: u16,
    pub timestamp: u64,
    /// Timestamp-status flags used by version-2 object headers.
    pub timestamp_status: Option<u8>,
    /// Reserved byte used by version-2 object headers.
    pub reserved_header: Option<u8>,
    /// Original timestamp carried by version-2 object headers.
    pub original_timestamp: Option<u64>,
    /// Unrecognized bytes between the known header fields and `header_size`.
    pub header_extension: Vec<u8>,
}

/// The message for bytes that do not start with the object signature.
pub open spec fn signature_message(signature: Seq<u8>) -> Seq<char> {
    "bad object signature "@ + debug_of(decoded_text(signature)) + ", expected \"LOBJ\""@
}

pub(crate) fn bad_signature<T>(signature: &[u8; 4], base: u64) -> (r: Result<T>)
    ensures
        r is Err,
        r->Err_0@ == Failure::Parse(base as int, signature_message(signature@)),
{
    let mut message = "bad object signature ".to_string();
    message.append(debug_text(utf8_lossy(signature).as_str()).as_str());
    message.append(", expected \"LOBJ\"");
    parse_err(base, message)
}

/// Size of the known fields of a header of some version; a header of that version is at
/// least that long.
pub open spec fn known_size(version: u16) -> int {
    if version == 0 {
        16
    } else if version == 1 {
        32
    } else {
        40
    }
}

/// Whether a header of the version may have the size.
pub open spec fn supported(version: u16, header_size: u16) -> bool {
    ||| version == 0 && header_size == 16
    ||| version == 1 && header_size >= 32
    ||| version == 2 && header_size >= 40
}

impl LObj {
    /// How reading the header fails, if it does.
    pub open spec fn failure(s: Seq<u8>, base: int) -> Option<Failure> {
        let header_size = u16_at(s, 4);
        let version = u16_at(s, 6);
        if ObjBase::failure(s, base) is Some {
            ObjBase::failure(s, base)
        } else if s.subrange(0, 4) != obj_signature() {
            Some(Failure::Parse(base, signature_message(s.subrange(0, 4))))
        } else if header_size < 16 || header_size > s.len() {
            Some(
                Failure::Parse(
                    base + 4,
                    "object header size "@ + dec(header_size as nat) + " is outside available "@
                        + dec(s.len()) + " bytes"@,
                ),
            )
        } else if !supported(version, header_size) {
            Some(
                Failure::Parse(
                    base + 6,
                    "unsupported object header version "@ + dec(version as nat) + " with size "@
                        + dec(header_size as nat),
                ),
            )
        } else {
            None
        }
    }

    /// Whether the fields are those that stand in the bytes.
    pub open spec fn reads(self, s: Seq<u8>) -> bool {
        let version = self.base.header_version;
        &&& self.base.reads(s)
        &&& self.object_flags.0 == (if version == 0 { 0 } else { u32_at(s, 16) })
        &&& self.client_index == (if version == 1 { u16_at(s, 20) } else { 0 })
        &&& self.object_version == (if version == 0 { 0 } else { u16_at(s, 22) })
        &&& self.timestamp == (if version == 0 { 0 } else { u64_at(s, 24) })
        &&& self.timestamp_status == (if version == 2 { Some(s[20]) } else { None })
        &&& self.reserved_header == (if version == 2 { Some(s[21]) } else { None })
        &&& self.original_timestamp == (if version == 2 { Some(u64_at(s, 32)) } else { None })
        &&& self.header_extension@ == s.subrange(
            known_size(version),
            self.base.header_size as int,
        )
    }

    /// The bytes between the base header and the header extension.
    pub open spec fn known_fields(self) -> Seq<u8> {
        if self.base.header_version == 1 {
            le_u32(self.object_flags.0) + le_u16(self.client_index) + le_u16(self.object_version)
                + le_u64(self.timestamp)
        } else if self.base.header_version == 2 {
            le_u32(self.object_flags.0) + seq![
                (match self.timestamp_status {
                    Some(v) => v,
                    None => 0,
                }),
            ] + seq![
                (match self.reserved_header {
                    Some(v) => v,
                    None => 0,
                }),
            ] + le_u16(self.object_version) + le_u64(self.timestamp) + le_u64(
                (match self.original_timestamp {
                    Some(v) => v,
                    None => 0,
                }),
            )
        } else {
            Seq::empty()
        }
    }

    /// The bytes of the header with `object_size` for the size of the object.
    pub open spec fn sized_encoding(self, object_size: u32) -> Seq<u8> {
        self.base.sized_encoding(object_size) + self.known_fields() + self.header_extension@
    }

    /// The bytes of the header.
    pub open spec fn encoding(self) -> Seq<u8> {
        self.sized_encoding(self.base.object_size)
    }

    /// Whether two headers agree in every field.
    pub open spec fn same(self, other: LObj) -> bool {
        &&& self.base == other.base
        &&& self.object_flags == other.object_flags
        &&& self.client_index == other.client_index
        &&& self.object_version == other.object_version
        &&& self.timestamp == other.timestamp
        &&& self.timestamp_status == other.timestamp_status
        &&& self.reserved_header == other.reserved_header
        &&& self.original_timestamp == other.original_timestamp
        &&& self.header_extension@ == other.header_extension@
    }

    /// Whether the header is one that reading can give: its signature and size are
    /// right, and it has exactly the fields of its version.
    pub open spec fn valid(self) -> bool {
        let version = self.base.header_version;
        &&& self.base.signature@ == obj_signature()
        &&& supported(version, self.base.header_size)
        &&& self.header_extension@.len() == self.base.header_size - known_size(version)
        &&& (version == 0 ==> self.object_flags.0 == 0 && self.object_version == 0
            && self.timestamp == 0)
        &&& (version != 1 ==> self.client_index == 0)
        &&& self.timestamp_status is Some == (version == 2)
        &&& self.reserved_header is Some == (version == 2)
        &&& self.original_timestamp is Some == (version == 2)
    }

    /// Whether the header is a valid version-1 header without extension, the form
    /// that typed objects have.
    pub open spec fn plain(self) -> bool {
        self.valid() && self.base.header_version == 1 && self.base.header_size == 32
    }

    /// Whether the header is the one that [`LObj::new_raw`] makes.
    pub open spec fn is_new(
        self,
        object_type: u32,
        object_flags: ObjectFlags,
        timestamp: u64,
        object_size: u32,
    ) -> bool {
        &&& self.plain()
        &&& self.base.object_size == object_size
        &&& self.base.object_type == object_type
        &&& self.object_flags == object_flags
        &&& self.client_index == 0
        &&& self.object_version == 0
        &&& self.timestamp == timestamp
    }

    pub fn new(
        object_type: ObjectType,
        object_flags: ObjectFlags,
        timestamp: u64,
        object_size: u32,
    ) -> (r: Self)
        ensures
            r.is_new(object_type.raw(), object_flags, timestamp, object_size),
    {
        Self::new_raw(object_type.to_raw(), object_flags, timestamp, object_size)
    }

    /// Creates a version-1 object header for any numeric object type.
    pub fn new_raw(
        object_type: u32,
        object_flags: ObjectFlags,
        timestamp: u64,
        object_size: u32,
    ) -> (r: Self)
        ensures
            r.is_new(object_type, object_flags, timestamp, object_size),
    {
        let mut base = ObjBase::new(object_type, LOBJ_SIZE as u16, object_size);
        base.header_version = 1;
        LObj {
            base,
            object_flags,
            client_index: 0,
            object_version: 0,
            timestamp,
            timestamp_status: None,
            reserved_header: None,
            original_timestamp: None,
            header_extension: Vec::new(),
        }
    }

    /// Number of padding bytes behind an object of a type and size.
    pub open spec fn padding_of(object_type: u32, object_size: u32) -> u32 {
        match ObjectType::of_raw(object_type) {
            Some(t) => if t.spec_is_padded() {
                (object_size % 4) as u32
            } else {
                0
            },
            None => 0,
        }
    }

    /// Number of padding bytes that follow the object.
    pub fn padding(&self) -> (r: u32)
        ensures
            r == LObj::padding_of(self.base.object_type, self.base.object_size),
            r < 4,
    {
        match self.base.object_type() {
            Some(t) => if t.is_padded() {
                self.base.object_size % 4
            } else {
                0
            },
            None => 0,
        }
    }

    pub fn parse(bytes: &[u8], base: u64) -> (r: Result<Self>)
        requires
            offsets_fit(base, bytes.len(), 16),
        ensures
            match r {
                Ok(v) => {
                    &&& LObj::failure(bytes@, base as int) is None
                    &&& v.reads(bytes@)
                    &&& v.valid()
                    &&& v.base.header_size <= bytes.len()
                },
                Err(e) => LObj::failure(bytes@, base as int) == Some(e@),
            },
    {
        let base_obj = ObjBase::parse(bytes, base)?;
        if !is_obj_signature(&base_obj.signature) {
            return bad_signature(&base_obj.signature, base);
        }
        let header_size: usize = base_obj.header_size as usize;
        let version: u16 = base_obj.header_version;
        if header_size < OBJ_BASE_SIZE || header_size > bytes.len() {
            let mut message = "object header size ".to_string();
            push_dec(&mut message, header_size as u64);
            message.append(" is outside available ");
            push_dec(&mut message, bytes.len() as u64);
            message.append(" bytes");
            return parse_err(base + 4, message);
        }
        let mut object_flags = ObjectFlags(0);
        let mut client_index: u16 = 0;
        let mut object_version: u16 = 0;
        let mut timestamp: u64 = 0;
        let mut timestamp_status: Option<u8> = None;
        let mut reserved_header: Option<u8> = None;
        let mut original_timestamp: Option<u64> = None;
        let known: usize = if version == 0 && header_size == OBJ_BASE_SIZE {
            OBJ_BASE_SIZE
        } else if version == 1 && header_size >= LOBJ_SIZE {
            object_flags = ObjectFlags(read_u32(bytes, 16));
            client_index = read_u16(bytes, 20);
            object_version = read_u16(bytes, 22);
            timestamp = read_u64(bytes, 24);
            LOBJ_SIZE
        } else if version == 2 && header_size >= LOBJ_V2_SIZE {
            object_flags = ObjectFlags(read_u32(bytes, 16));
            timestamp_status = Some(bytes[20]);
            reserved_header = Some(bytes[21]);
            object_version = read_u16(bytes, 22);
            timestamp = read_u64(bytes, 24);
            original_timestamp = Some(read_u64(bytes, 32));
            LOBJ_V2_SIZE
        } else {
            let mut message = "unsupported object header version ".to_string();
            push_dec(&mut message, version as u64);
            message.append(" with size ");
            push_dec(&mut message, header_size as u64);
            return parse_err(base + 6, message);
        };
        Ok(
            LObj {
                base: base_obj,
                object_flags,
                client_index,
                object_version,
                timestamp,
                timestamp_status,
                reserved_header,
                original_timestamp,
                header_extension: read_bytes(bytes, known, header_size),
            },
        )
    }

    /// Writes the header with `object_size` for the size of the object.
    pub(crate) fn write_sized(&self, object_size: u32, out: &mut Vec<u8>)
        ensures
            final(out)@ == old(out)@ + self.sized_encoding(object_size),
    {
        self.base.write_sized(object_size, out);
        if self.base.header_version == 1 {
            put_u32(out, self.object_flags.0);
            put_u16(out, self.client_index);
            put_u16(out, self.object_version);
            put_u64(out, self.timestamp);
        } else if self.base.header_version == 2 {
            put_u32(out, self.object_flags.0);
            put_u8(out, self.timestamp_status.unwrap_or(0));
            put_u8(out, self.reserved_header.unwrap_or(0));
            put_u16(out, self.object_version);
            put_u64(out, self.timestamp);
            put_u64(out, self.original_timestamp.unwrap_or(0));
        }
        put_bytes(out, &self.header_extension);
        proof {
            assert(out@ =~= old(out)@ + self.sized_encoding(object_size));
        }
    }

    pub fn write_to(&self, out: &mut Vec<u8>)
        ensures
            final(out)@ == old(out)@ + self.encoding(),
    {
        self.write_sized(self.base.object_size, out);
    }

    /// Reading the bytes of a valid header, whatever follows them, gives back its fields.
    pub proof fn law_read_of_write(self, tail: Seq<u8>, base: int)
        requires
            self.valid(),
        ensures
            self.encoding().len() == self.base.header_size,
            LObj::failure(self.encoding() + tail, base) is None,
            self.reads(self.encoding() + tail),
    {
        let version = self.base.header_version;
        let rest = self.known_fields() + self.header_extension@ + tail;
        let s = self.encoding() + tail;
        assert(s =~= self.base.encoding() + rest);
        self.base.law_read_of_write(rest, base);
        lemma_starts_with_self(s);
        lemma_field_bytes(self.encoding(), tail, s);
        let fields = self.base.encoding() + self.known_fields();
        lemma_field_bytes(fields, self.header_extension@, s);
        let c0 = self.base.encoding();
        let c1 = c0 + le_u32(self.object_flags.0);
        if version == 1 {
            let c2 = c1 + le_u16(self.client_index);
            let c3 = c2 + le_u16(self.object_version);
            assert(fields =~= c3 + le_u64(self.timestamp));
            lemma_field_u64(c3, self.timestamp, s);
            lemma_field_u16(c2, self.object_version, s);
            lemma_field_u16(c1, self.client_index, s);
            lemma_field_u32(c0, self.object_flags.0, s);
        } else if version == 2 {
            let status = self.timestamp_status->0;
            let reserved = self.reserved_header->0;
            let original = self.original_timestamp->0;
            let c2 = c1 + seq![status];
            let c3 = c2 + seq![reserved];
            let c4 = c3 + le_u16(self.object_version);
            let c5 = c4 + le_u64(self.timestamp);
            assert(fields =~= c5 + le_u64(original));
            lemma_field_u64(c5, original, s);
            lemma_field_u64(c4, self.timestamp, s);
            lemma_field_u16(c3, self.object_version, s);
            lemma_field_u8(c2, reserved, s);
            lemma_field_u8(c1, status, s);
            lemma_field_u32(c0, self.object_flags.0, s);
        } else {
            assert(fields =~= c0);
        }
    }

    /// Reading bytes that start with those of a valid header gives back its fields.
    pub proof fn law_read_of_prefix(self, s: Seq<u8>, base: int)
        requires
            self.valid(),
            starts_with(s, self.encoding()),
        ensures
            self.encoding().len() == self.base.header_size,
            LObj::failure(s, base) is None,
            self.reads(s),
    {
        reveal(starts_with);
        let n = self.encoding().len() as int;
        let tail = s.subrange(n, s.len() as int);
        assert(s =~= self.encoding() + tail);
        self.law_read_of_write(tail, base);
    }

    /// Writing a header that was read gives back the bytes that it was read from.
    pub proof fn law_write_of_read(self, s: Seq<u8>)
        requires
            self.valid(),
            self.base.header_size <= s.len(),
            self.reads(s),
        ensures
            self.encoding() == s.subrange(0, self.base.header_size as int),
    {
        let version = self.base.header_version;
        self.base.law_write_of_read(s);
        if version != 0 {
            lemma_le_u32_at(s, 16);
            lemma_le_u16_at(s, 22);
            lemma_le_u64_at(s, 24);
        }
        if version == 1 {
            lemma_le_u16_at(s, 20);
        } else if version == 2 {
            lemma_le_u64_at(s, 32);
        }
        assert(self.encoding() =~= s.subrange(0, self.base.header_size as int));
    }

    /// The bytes of a header determine it.
    pub proof fn law_reads_unique(self, other: LObj, s: Seq<u8>)
        requires
            self.reads(s),
            other.reads(s),
        ensures
            self.same(other),
    {
        assert(self.base.signature =~= other.base.signature);
    }
}

} // verus!
