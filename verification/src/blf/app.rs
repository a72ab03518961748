//! Application texts, system variables and restore points.

use crate::blf::bytes::{
    check_fields, le_u16, le_u32, le_u64, lemma_field_bytes, lemma_field_u16, lemma_field_u32,
    lemma_field_u64, lemma_le_u16_at, lemma_le_u32_at, lemma_low16, lemma_low32,
    lemma_short_read_none, lemma_starts_with_self, low16, low32, low_u16, low_u32, put_bytes,
    put_u16, put_u32, put_u64, read_array, read_bytes, read_u16, read_u32, read_u64, short_read,
    size2_u32, size_u32, u16_at, u32_at, u64_at,
    offsets_fit,
};
use crate::blf::can_ext::resized;
use crate::blf::error::{parse_err, Failure, Result};
use crate::blf::flags::ObjectFlags;
use crate::blf::header::{LObj, LOBJ_SIZE};
use crate::blf::object_type::{ObjectType, SysVarDataType};
use crate::text::{
    dec, decoded_text, lemma_trimmed_nul_same, push_dec, trim_nul, trimmed_nul, utf8_lossy,
};
use vstd::prelude::*;
use vstd::utf8::encode_utf8;

verus! {

pub const APP_TEXT_SIZE: usize = 48;

pub const SYS_VARIABLE_SIZE: usize = 64;

pub const RESTORE_POINT_CONTAINER_SIZE: usize = 48;

/// The text that stands in a field: the bytes decoded, without NUL at the start and the end.
pub open spec fn field_text(s: Seq<u8>, from: int, to: int) -> Seq<char> {
    trimmed_nul(decoded_text(s.subrange(from, to)))
}

fn read_text(bytes: &[u8], from: usize, to: usize) -> (r: String)
    requires
        from <= to <= bytes.len(),
    ensures
        r@ == field_text(bytes@, from as int, to as int),
{
    trim_nul(utf8_lossy(&bytes[from..to]).as_str())
}

/// Whether a text neither starts nor ends with NUL.
pub open spec fn has_no_outer_nul(text: Seq<char>) -> bool {
    text.len() > 0 ==> text[0] != '\0' && text[text.len() - 1] != '\0'
}

/// The UTF-8 bytes of a text without NUL at its ends are read back as the text.
proof fn lemma_text_of_bytes(text: Seq<char>, s: Seq<u8>, from: int, to: int)
    requires
        has_no_outer_nul(text),
        0 <= from <= to <= s.len(),
        s.subrange(from, to) == encode_utf8(text),
    ensures
        field_text(s, from, to) == text,
{
    vstd::utf8::encode_utf8_valid_utf8(text);
    vstd::utf8::encode_utf8_decode_utf8(text);
    lemma_trimmed_nul_same(text);
}

/// The fixed part of an application text.
#[derive(Debug, Clone, PartialEq, Eq)]
pub struct AppText {
    pub header: LObj,
    pub source: u32,
    pub reserved: u32,
    pub length: u32,
    pub reserved2: u32,
}

impl AppText {
    /// Where each field ends, counted from the end of the object header.
    pub open spec fn ends() -> Seq<usize> {
        seq![4, 8, 12, 16]
    }

    /// How reading the object fails, if it does.
    pub open spec fn failure(s: Seq<u8>, base: int) -> Option<Failure> {
        if LObj::failure(s, base) is Some {
            LObj::failure(s, base)
        } else {
            short_read(Self::ends(), 0, s.len() - 32, base + 32)
        }
    }

    /// Whether the fields are those that stand in the bytes.
    pub open spec fn reads(self, s: Seq<u8>) -> bool {
        &&& self.header.reads(s)
        &&& self.source == u32_at(s, 32)
        &&& self.reserved == u32_at(s, 36)
        &&& self.length == u32_at(s, 40)
        &&& self.reserved2 == u32_at(s, 44)
    }

    /// The bytes of the object.
    pub open spec fn encoding(self) -> Seq<u8> {
        self.header.encoding() + le_u32(self.source) + le_u32(self.reserved) + le_u32(self.length)
            + le_u32(self.reserved2)
    }

    /// Whether two objects agree in every field.
    pub open spec fn same(self, other: Self) -> bool {
        &&& self.header.same(other.header)
        &&& self.source == other.source
        &&& self.reserved == other.reserved
        &&& self.length == other.length
        &&& self.reserved2 == other.reserved2
    }

    pub fn parse(bytes: &[u8], base: u64) -> (r: Result<Self>)
        requires
            offsets_fit(base, bytes.len(), 48),
            LObj::failure(bytes@, base as int) is None ==> bytes.len() >= 32,
        ensures
            match r {
                Ok(v) => {
                    &&& Self::failure(bytes@, base as int) is None
                    &&& v.reads(bytes@)
                    &&& v.header.valid()
                    &&& bytes.len() >= 48
                },
                Err(e) => Self::failure(bytes@, base as int) == Some(e@),
            },
    {
        let header = LObj::parse(bytes, base)?;
        let ends = [4usize, 8, 12, 16];
        proof {
            assert(ends@ =~= Self::ends());
        }
        check_fields(&ends, bytes.len() - LOBJ_SIZE, base + LOBJ_SIZE as u64)?;
        proof {
            assert(ends[3] == 16);
        }
        Ok(
            AppText {
                header,
                source: read_u32(bytes, 32),
                reserved: read_u32(bytes, 36),
                length: read_u32(bytes, 40),
                reserved2: read_u32(bytes, 44),
            },
        )
    }

    pub fn write_to(&self, out: &mut Vec<u8>)
        ensures
            final(out)@ == old(out)@ + self.encoding(),
    {
        self.header.write_to(out);
        put_u32(out, self.source);
        put_u32(out, self.reserved);
        put_u32(out, self.length);
        put_u32(out, self.reserved2);
        proof {
            assert(out@ =~= old(out)@ + self.encoding());
        }
    }

    /// Whether the header fits the object, so that the bytes of the object can be read
    /// back.
    pub open spec fn canonical(self) -> bool {
        &&& self.header.plain()
    }

    /// Reading the bytes of a canonical object gives back its fields.
    pub proof fn law_read_of_write(self, base: int)
        requires
            self.canonical(),
        ensures
            self.encoding().len() == 48,
            Self::failure(self.encoding(), base) is None,
            self.reads(self.encoding()),
    {
        let s = self.encoding();
        let c0 = self.header.encoding();
        let c1 = c0 + le_u32(self.source);
        let c2 = c1 + le_u32(self.reserved);
        let c3 = c2 + le_u32(self.length);
        lemma_starts_with_self(s);
        lemma_field_u32(c3, self.reserved2, s);
        lemma_field_u32(c2, self.length, s);
        lemma_field_u32(c1, self.reserved, s);
        lemma_field_u32(c0, self.source, s);
        self.header.law_read_of_prefix(s, base);
        lemma_short_read_none(Self::ends(), 0, s.len() - 32, base + 32);
    }

    /// Writing an object that was read gives back the bytes that it was read from.
    pub proof fn law_write_of_read(self, s: Seq<u8>)
        requires
            self.header.plain(),
            self.reads(s),
            s.len() == 48,
        ensures
            self.encoding() == s,
    {
        self.header.law_write_of_read(s);
        lemma_le_u32_at(s, 32);
        lemma_le_u32_at(s, 36);
        lemma_le_u32_at(s, 40);
        lemma_le_u32_at(s, 44);
        assert(self.encoding() =~= s);
    }

    /// The bytes of an object determine it.
    pub proof fn law_reads_unique(self, other: Self, s: Seq<u8>)
        requires
            self.reads(s),
            other.reads(s),
        ensures
            self.same(other),
    {
        self.header.law_reads_unique(other.header, s);
    }
}

/// An application text.
#[derive(Debug, Clone, PartialEq, Eq)]
pub struct AppTextManaged {
    pub header: LObj,
    pub source: u32,
    pub reserved: u32,
    pub reserved2: u32,
    pub text: String,
}

impl AppTextManaged {
    /// How reading the object fails, if it does.
    pub open spec fn failure(s: Seq<u8>, base: int) -> Option<Failure> {
        let size = u32_at(s, 8);
        let len = u32_at(s, 40);
        if AppText::failure(s, base) is Some {
            AppText::failure(s, base)
        } else if 48 + len > size || size > s.len() {
            Some(
                Failure::Parse(
                    base,
                    "APP_TEXT: text length "@ + dec(len as nat) + " exceeds object size "@ + dec(
                        size as nat,
                    ),
                ),
            )
        } else {
            None
        }
    }

    /// Whether the fields are those that stand in the bytes.
    pub open spec fn reads(self, s: Seq<u8>) -> bool {
        &&& self.header.reads(s)
        &&& self.source == u32_at(s, 32)
        &&& self.reserved == u32_at(s, 36)
        &&& self.reserved2 == u32_at(s, 44)
        &&& self.text@ == field_text(s, 48, 48 + u32_at(s, 40))
    }

    /// The UTF-8 bytes of the text.
    pub open spec fn text_bytes(self) -> Seq<u8> {
        encode_utf8(self.text@)
    }

    /// Number of bytes of the object.
    pub open spec fn total(self) -> int {
        (48 + self.text_bytes().len()) as int
    }

    /// The fixed part as it is written.
    pub open spec fn fixed(self) -> AppText {
        AppText {
            header: resized(self.header, low32(self.total())),
            source: self.source,
            reserved: self.reserved,
            length: low32(self.text_bytes().len() as int),
            reserved2: self.reserved2,
        }
    }

    /// The bytes of the object.
    pub open spec fn encoding(self) -> Seq<u8> {
        self.fixed().encoding() + self.text_bytes()
    }

    /// Whether two objects agree in every field.
    pub open spec fn same(self, other: Self) -> bool {
        &&& self.header.same(other.header)
        &&& self.source == other.source
        &&& self.reserved == other.reserved
        &&& self.reserved2 == other.reserved2
        &&& self.text@ == other.text@
    }

    pub fn new(object_flags: ObjectFlags, timestamp: u64, source: u32, text: &str) -> (r: Self)
        ensures
            r.header.is_new(
                ObjectType::AppText.raw(),
                object_flags,
                timestamp,
                low32((48 + encode_utf8(text@).len()) as int),
            ),
            r.source == source,
            r.reserved == 0,
            r.reserved2 == 0,
            r.text@ == text@,
    {
        AppTextManaged {
            header: LObj::new(
                ObjectType::AppText,
                object_flags,
                timestamp,
                size_u32(APP_TEXT_SIZE as u32, text.as_bytes().len()),
            ),
            source,
            reserved: 0,
            reserved2: 0,
            text: text.to_string(),
        }
    }

    pub fn parse(bytes: &[u8], base: u64) -> (r: Result<Self>)
        requires
            offsets_fit(base, bytes.len(), 48),
            LObj::failure(bytes@, base as int) is None ==> bytes.len() >= 32,
        ensures
            match r {
                Ok(v) => {
                    &&& Self::failure(bytes@, base as int) is None
                    &&& v.reads(bytes@)
                    &&& v.header.valid()
                    &&& 48 <= v.header.base.object_size <= bytes.len()
                },
                Err(e) => Self::failure(bytes@, base as int) == Some(e@),
            },
    {
        let fixed = AppText::parse(bytes, base)?;
        let object_size: u32 = fixed.header.base.object_size;
        let len: u32 = fixed.length;
        if APP_TEXT_SIZE as u64 + len as u64 > object_size as u64 || object_size as usize
            > bytes.len() {
            let mut message = "APP_TEXT: text length ".to_string();
            push_dec(&mut message, len as u64);
            message.append(" exceeds object size ");
            push_dec(&mut message, object_size as u64);
            return parse_err(base, message);
        }
        let text = read_text(bytes, APP_TEXT_SIZE, APP_TEXT_SIZE + len as usize);
        Ok(
            AppTextManaged {
                header: fixed.header,
                source: fixed.source,
                reserved: fixed.reserved,
                reserved2: fixed.reserved2,
                text,
            },
        )
    }

    pub fn write_to(&self, out: &mut Vec<u8>)
        ensures
            final(out)@ == old(out)@ + self.encoding(),
    {
        let bytes = self.text.as_str().as_bytes();
        self.header.write_sized(size_u32(APP_TEXT_SIZE as u32, bytes.len()), out);
        put_u32(out, self.source);
        put_u32(out, self.reserved);
        put_u32(out, low_u32(bytes.len()));
        put_u32(out, self.reserved2);
        put_bytes(out, bytes);
        proof {
            assert(out@ =~= old(out)@ + self.encoding());
        }
    }

    /// Whether the header fits the object, so that the bytes of the object can be read
    /// back: the text neither starts nor ends with NUL.
    pub open spec fn canonical(self) -> bool {
        &&& self.header.plain()
        &&& self.header.base.object_size == self.total()
        &&& has_no_outer_nul(self.text@)
    }

    /// Reading the bytes of a canonical object gives back its fields.
    pub proof fn law_read_of_write(self, base: int)
        requires
            self.canonical(),
        ensures
            self.encoding().len() == self.total(),
            Self::failure(self.encoding(), base) is None,
            self.reads(self.encoding()),
    {
        let s = self.encoding();
        let len = self.text_bytes().len() as int;
        lemma_low32(self.total());
        lemma_low32(len);
        assert(resized(self.header, self.header.base.object_size) == self.header);
        let c0 = self.header.encoding();
        let c1 = c0 + le_u32(self.source);
        let c2 = c1 + le_u32(self.reserved);
        let c3 = c2 + le_u32(len as u32);
        let c4 = c3 + le_u32(self.reserved2);
        assert(self.fixed().encoding() == c4);
        lemma_starts_with_self(s);
        lemma_field_bytes(c4, self.text_bytes(), s);
        lemma_field_u32(c3, self.reserved2, s);
        lemma_field_u32(c2, len as u32, s);
        lemma_field_u32(c1, self.reserved, s);
        lemma_field_u32(c0, self.source, s);
        self.header.law_read_of_prefix(s, base);
        lemma_short_read_none(AppText::ends(), 0, s.len() - 32, base + 32);
        lemma_text_of_bytes(self.text@, s, 48, 48 + len);
    }

    /// The bytes of an object determine it.
    pub proof fn law_reads_unique(self, other: Self, s: Seq<u8>)
        requires
            self.reads(s),
            other.reads(s),
        ensures
            self.same(other),
    {
        self.header.law_reads_unique(other.header, s);
    }
}

/// The fixed part of a system variable.
#[derive(Debug, Clone, PartialEq, Eq)]
pub struct SysVariable {
    pub header: LObj,
    pub data_type: SysVarDataType,
    pub representation: u32,
    pub reserved: u64,
    pub name_length: u32,
    pub data_length: u32,
    pub reserved2: u64,
}

impl SysVariable {
    /// Where each field ends, counted from the end of the object header.
    pub open spec fn ends() -> Seq<usize> {
        seq![4, 8, 16, 20, 24, 32]
    }

    /// How reading the object fails, if it does. The data type is looked up before the
    /// fields behind it are read.
    pub open spec fn failure(s: Seq<u8>, base: int) -> Option<Failure> {
        if LObj::failure(s, base) is Some {
            LObj::failure(s, base)
        } else if s.len() >= 36 && SysVarDataType::of_raw(u32_at(s, 32)) is None {
            Some(
                Failure::Parse(
                    base + 32,
                    "unknown SysVarDataType "@ + dec(u32_at(s, 32) as nat),
                ),
            )
        } else {
            short_read(Self::ends(), 0, s.len() - 32, base + 32)
        }
    }

    /// Whether the fields are those that stand in the bytes.
    pub open spec fn reads(self, s: Seq<u8>) -> bool {
        &&& self.header.reads(s)
        &&& self.data_type.raw() == u32_at(s, 32)
        &&& self.representation == u32_at(s, 36)
        &&& self.reserved == u64_at(s, 40)
        &&& self.name_length == u32_at(s, 48)
        &&& self.data_length == u32_at(s, 52)
        &&& self.reserved2 == u64_at(s, 56)
    }

    /// The bytes of the object.
    pub open spec fn encoding(self) -> Seq<u8> {
        self.header.encoding() + le_u32(self.data_type.raw()) + le_u32(self.representation)
            + le_u64(self.reserved) + le_u32(self.name_length) + le_u32(self.data_length) + le_u64(
            self.reserved2,
        )
    }

    pub fn parse(bytes: &[u8], base: u64) -> (r: Result<Self>)
        requires
            offsets_fit(base, bytes.len(), 64),
            LObj::failure(bytes@, base as int) is None ==> bytes.len() >= 32,
        ensures
            match r {
                Ok(v) => {
                    &&& Self::failure(bytes@, base as int) is None
                    &&& v.reads(bytes@)
                    &&& v.header.valid()
                    &&& bytes.len() >= 64
                },
                Err(e) => Self::failure(bytes@, base as int) == Some(e@),
            },
    {
        let header = LObj::parse(bytes, base)?;
        if bytes.len() >= 36 {
            let raw_type: u32 = read_u32(bytes, 32);
            if SysVarDataType::from_raw(raw_type).is_none() {
                let mut message = "unknown SysVarDataType ".to_string();
                push_dec(&mut message, raw_type as u64);
                return parse_err(base + LOBJ_SIZE as u64, message);
            }
        }
        let ends = [4usize, 8, 16, 20, 24, 32];
        proof {
            assert(ends@ =~= Self::ends());
        }
        check_fields(&ends, bytes.len() - LOBJ_SIZE, base + LOBJ_SIZE as u64)?;
        proof {
            assert(ends[5] == 32);
            SysVarDataType::law_raw(SysVarDataType::Double, u32_at(bytes@, 32));
        }
        Ok(
            SysVariable {
                header,
                data_type: SysVarDataType::from_raw(read_u32(bytes, 32)).unwrap(),
                representation: read_u32(bytes, 36),
                reserved: read_u64(bytes, 40),
                name_length: read_u32(bytes, 48),
                data_length: read_u32(bytes, 52),
                reserved2: read_u64(bytes, 56),
            },
        )
    }

    pub fn write_to(&self, out: &mut Vec<u8>)
        ensures
            final(out)@ == old(out)@ + self.encoding(),
    {
        self.header.write_to(out);
        put_u32(out, self.data_type.to_raw());
        put_u32(out, self.representation);
        put_u64(out, self.reserved);
        put_u32(out, self.name_length);
        put_u32(out, self.data_length);
        put_u64(out, self.reserved2);
        proof {
            assert(out@ =~= old(out)@ + self.encoding());
        }
    }

    /// Reading bytes that start with those of the object gives back its fields.
    pub proof fn law_read_of_prefix(self, s: Seq<u8>, base: int)
        requires
            self.header.plain(),
            crate::blf::bytes::starts_with(s, self.encoding()),
        ensures
            self.encoding().len() == 64,
            Self::failure(s, base) is None,
            self.reads(s),
    {
        let c0 = self.header.encoding();
        let c1 = c0 + le_u32(self.data_type.raw());
        let c2 = c1 + le_u32(self.representation);
        let c3 = c2 + le_u64(self.reserved);
        let c4 = c3 + le_u32(self.name_length);
        let c5 = c4 + le_u32(self.data_length);
        lemma_field_u64(c5, self.reserved2, s);
        lemma_field_u32(c4, self.data_length, s);
        lemma_field_u32(c3, self.name_length, s);
        lemma_field_u64(c2, self.reserved, s);
        lemma_field_u32(c1, self.representation, s);
        lemma_field_u32(c0, self.data_type.raw(), s);
        self.header.law_read_of_prefix(s, base);
        lemma_short_read_none(Self::ends(), 0, s.len() - 32, base + 32);
        SysVarDataType::law_raw(self.data_type, self.data_type.raw());
    }
}

/// A system variable with its name and its value.
#[derive(Debug, Clone, PartialEq, Eq)]
pub struct SysVariableManaged {
    pub header: LObj,
    pub data_type: SysVarDataType,
    pub representation: u32,
    pub reserved: u64,
    pub reserved2: u64,
    pub name: String,
    pub data: Vec<u8>,
}

impl SysVariableManaged {
    /// How reading the object fails, if it does.
    pub open spec fn failure(s: Seq<u8>, base: int) -> Option<Failure> {
        let size = u32_at(s, 8);
        if SysVariable::failure(s, base) is Some {
            SysVariable::failure(s, base)
        } else if 64 + u32_at(s, 48) + u32_at(s, 52) > size || size > s.len() {
            Some(
                Failure::Parse(
                    base,
                    "SYS_VARIABLE: name+data length exceeds object size "@ + dec(size as nat),
                ),
            )
        } else {
            None
        }
    }

    /// Whether the fields are those that stand in the bytes.
    pub open spec fn reads(self, s: Seq<u8>) -> bool {
        let name_end = 64 + u32_at(s, 48);
        &&& self.header.reads(s)
        &&& self.data_type.raw() == u32_at(s, 32)
        &&& self.representation == u32_at(s, 36)
        &&& self.reserved == u64_at(s, 40)
        &&& self.reserved2 == u64_at(s, 56)
        &&& self.name@ == field_text(s, 64, name_end)
        &&& self.data@ == s.subrange(name_end, name_end + u32_at(s, 52))
    }

    /// The UTF-8 bytes of the name.
    pub open spec fn name_bytes(self) -> Seq<u8> {
        encode_utf8(self.name@)
    }

    /// Number of bytes of the object.
    pub open spec fn total(self) -> int {
        (64 + self.name_bytes().len() + self.data@.len()) as int
    }

    /// The fixed part as it is written.
    pub open spec fn fixed(self) -> SysVariable {
        SysVariable {
            header: resized(self.header, low32(self.total())),
            data_type: self.data_type,
            representation: self.representation,
            reserved: self.reserved,
            name_length: low32(self.name_bytes().len() as int),
            data_length: low32(self.data@.len() as int),
            reserved2: self.reserved2,
        }
    }

    /// The bytes of the object.
    pub open spec fn encoding(self) -> Seq<u8> {
        self.fixed().encoding() + self.name_bytes() + self.data@
    }

    /// Whether two objects agree in every field.
    pub open spec fn same(self, other: Self) -> bool {
        &&& self.header.same(other.header)
        &&& self.data_type == other.data_type
        &&& self.representation == other.representation
        &&& self.reserved == other.reserved
        &&& self.reserved2 == other.reserved2
        &&& self.name@ == other.name@
        &&& self.data@ == other.data@
    }

    pub fn new(
        object_flags: ObjectFlags,
        timestamp: u64,
        data_type: SysVarDataType,
        representation: u32,
        name: &str,
        data: Vec<u8>,
    ) -> (r: Self)
        ensures
            r.header.is_new(
                ObjectType::SysVariable.raw(),
                object_flags,
                timestamp,
                low32((64 + encode_utf8(name@).len() + data@.len()) as int),
            ),
            r.data_type == data_type,
            r.representation == representation,
            r.reserved == 0,
            r.reserved2 == 0,
            r.name@ == name@,
            r.data@ == data@,
    {
        SysVariableManaged {
            header: LObj::new(
                ObjectType::SysVariable,
                object_flags,
                timestamp,
                size2_u32(SYS_VARIABLE_SIZE as u32, name.as_bytes().len(), data.len()),
            ),
            data_type,
            representation,
            reserved: 0,
            reserved2: 0,
            name: name.to_string(),
            data,
        }
    }

    pub fn parse(bytes: &[u8], base: u64) -> (r: Result<Self>)
        requires
            offsets_fit(base, bytes.len(), 64),
            LObj::failure(bytes@, base as int) is None ==> bytes.len() >= 32,
        ensures
            match r {
                Ok(v) => {
                    &&& Self::failure(bytes@, base as int) is None
                    &&& v.reads(bytes@)
                    &&& v.header.valid()
                    &&& 64 <= v.header.base.object_size <= bytes.len()
                },
                Err(e) => Self::failure(bytes@, base as int) == Some(e@),
            },
    {
        let fixed = SysVariable::parse(bytes, base)?;
        let object_size: u32 = fixed.header.base.object_size;
        let name_len: u32 = fixed.name_length;
        let data_len: u32 = fixed.data_length;
        if SYS_VARIABLE_SIZE as u64 + name_len as u64 + data_len as u64 > object_size as u64
            || object_size as usize > bytes.len() {
            let mut message = "SYS_VARIABLE: name+data length exceeds object size ".to_string();
            push_dec(&mut message, object_size as u64);
            return parse_err(base, message);
        }
        let name_end: usize = SYS_VARIABLE_SIZE + name_len as usize;
        let name = read_text(bytes, SYS_VARIABLE_SIZE, name_end);
        let data = read_bytes(bytes, name_end, name_end + data_len as usize);
        Ok(
            SysVariableManaged {
                header: fixed.header,
                data_type: fixed.data_type,
                representation: fixed.representation,
                reserved: fixed.reserved,
                reserved2: fixed.reserved2,
                name,
                data,
            },
        )
    }

    pub fn write_to(&self, out: &mut Vec<u8>)
        ensures
            final(out)@ == old(out)@ + self.encoding(),
    {
        let name_bytes = self.name.as_str().as_bytes();
        self.header.write_sized(
            size2_u32(SYS_VARIABLE_SIZE as u32, name_bytes.len(), self.data.len()),
            out,
        );
        put_u32(out, self.data_type.to_raw());
        put_u32(out, self.representation);
        put_u64(out, self.reserved);
        put_u32(out, low_u32(name_bytes.len()));
        put_u32(out, low_u32(self.data.len()));
        put_u64(out, self.reserved2);
        proof {
            assert(out@ =~= old(out)@ + self.fixed().encoding());
        }
        put_bytes(out, name_bytes);
        put_bytes(out, &self.data);
        proof {
            assert(out@ =~= old(out)@ + self.encoding());
        }
    }

    /// Whether the header fits the object, so that the bytes of the object can be read
    /// back: the name neither starts nor ends with NUL.
    pub open spec fn canonical(self) -> bool {
        &&& self.header.plain()
        &&& self.header.base.object_size == self.total()
        &&& has_no_outer_nul(self.name@)
    }

    /// Reading the bytes of a canonical object gives back its fields.
    pub proof fn law_read_of_write(self, base: int)
        requires
            self.canonical(),
        ensures
            self.encoding().len() == self.total(),
            Self::failure(self.encoding(), base) is None,
            self.reads(self.encoding()),
    {
        let s = self.encoding();
        let len = self.name_bytes().len() as int;
        lemma_low32(self.total());
        lemma_low32(len);
        lemma_low32(self.data@.len() as int);
        assert(resized(self.header, self.header.base.object_size) == self.header);
        let c0 = self.fixed().encoding();
        let c1 = c0 + self.name_bytes();
        lemma_starts_with_self(s);
        lemma_field_bytes(c1, self.data@, s);
        lemma_field_bytes(c0, self.name_bytes(), s);
        self.fixed().law_read_of_prefix(s, base);
        lemma_text_of_bytes(self.name@, s, 64, 64 + len);
    }

    /// The bytes of an object determine it.
    pub proof fn law_reads_unique(self, other: Self, s: Seq<u8>)
        requires
            self.reads(s),
            other.reads(s),
        ensures
            self.same(other),
    {
        self.header.law_reads_unique(other.header, s);
        SysVarDataType::law_raw(self.data_type, u32_at(s, 32));
        SysVarDataType::law_raw(other.data_type, u32_at(s, 32));
    }
}

/// The fixed part of a restore-point container.
#[derive(Debug, Clone, PartialEq, Eq)]
pub struct RestorePointContainer {
    pub header: LObj,
    pub reserved: [u8; 14],
    pub data_length: u16,
}

impl RestorePointContainer {
    /// Where each field ends, counted from the end of the object header.
    pub open spec fn ends() -> Seq<usize> {
        seq![14, 16]
    }

    /// How reading the object fails, if it does.
    pub open spec fn failure(s: Seq<u8>, base: int) -> Option<Failure> {
        if LObj::failure(s, base) is Some {
            LObj::failure(s, base)
        } else {
            short_read(Self::ends(), 0, s.len() - 32, base + 32)
        }
    }

    /// Whether the fields are those that stand in the bytes.
    pub open spec fn reads(self, s: Seq<u8>) -> bool {
        &&& self.header.reads(s)
        &&& self.reserved@ == s.subrange(32, 46)
        &&& self.data_length == u16_at(s, 46)
    }

    /// The bytes of the object.
    pub open spec fn encoding(self) -> Seq<u8> {
        self.header.encoding() + self.reserved@ + le_u16(self.data_length)
    }

    /// Whether two objects agree in every field.
    pub open spec fn same(self, other: Self) -> bool {
        &&& self.header.same(other.header)
        &&& self.reserved@ == other.reserved@
        &&& self.data_length == other.data_length
    }

    pub fn parse(bytes: &[u8], base: u64) -> (r: Result<Self>)
        requires
            offsets_fit(base, bytes.len(), 48),
            LObj::failure(bytes@, base as int) is None ==> bytes.len() >= 32,
        ensures
            match r {
                Ok(v) => {
                    &&& Self::failure(bytes@, base as int) is None
                    &&& v.reads(bytes@)
                    &&& v.header.valid()
                    &&& bytes.len() >= 48
                },
                Err(e) => Self::failure(bytes@, base as int) == Some(e@),
            },
    {
        let header = LObj::parse(bytes, base)?;
        let ends = [14usize, 16];
        proof {
            assert(ends@ =~= Self::ends());
        }
        check_fields(&ends, bytes.len() - LOBJ_SIZE, base + LOBJ_SIZE as u64)?;
        proof {
            assert(ends[1] == 16);
        }
        Ok(
            RestorePointContainer {
                header,
                reserved: read_array::<14>(bytes, 32),
                data_length: read_u16(bytes, 46),
            },
        )
    }

    pub fn write_to(&self, out: &mut Vec<u8>)
        ensures
            final(out)@ == old(out)@ + self.encoding(),
    {
        self.header.write_to(out);
        put_bytes(out, &self.reserved);
        put_u16(out, self.data_length);
        proof {
            assert(out@ =~= old(out)@ + self.encoding());
        }
    }

    /// Whether the header fits the object, so that the bytes of the object can be read
    /// back.
    pub open spec fn canonical(self) -> bool {
        &&& self.header.plain()
    }

    /// Reading the bytes of a canonical object gives back its fields.
    pub proof fn law_read_of_write(self, base: int)
        requires
            self.canonical(),
        ensures
            self.encoding().len() == 48,
            Self::failure(self.encoding(), base) is None,
            self.reads(self.encoding()),
    {
        let s = self.encoding();
        let c0 = self.header.encoding();
        let c1 = c0 + self.reserved@;
        lemma_starts_with_self(s);
        lemma_field_u16(c1, self.data_length, s);
        lemma_field_bytes(c0, self.reserved@, s);
        self.header.law_read_of_prefix(s, base);
        lemma_short_read_none(Self::ends(), 0, s.len() - 32, base + 32);
    }

    /// Writing an object that was read gives back the bytes that it was read from.
    pub proof fn law_write_of_read(self, s: Seq<u8>)
        requires
            self.header.plain(),
            self.reads(s),
            s.len() == 48,
        ensures
            self.encoding() == s,
    {
        self.header.law_write_of_read(s);
        lemma_le_u16_at(s, 46);
        assert(self.encoding() =~= s);
    }

    /// The bytes of an object determine it.
    pub proof fn law_reads_unique(self, other: Self, s: Seq<u8>)
        requires
            self.reads(s),
            other.reads(s),
        ensures
            self.same(other),
    {
        self.header.law_reads_unique(other.header, s);
    }
}

/// A restore-point container with its data.
#[derive(Debug, Clone, PartialEq, Eq)]
pub struct RestorePointContainerManaged {
    pub header: LObj,
    pub reserved: [u8; 14],
    pub data: Vec<u8>,
}

impl RestorePointContainerManaged {
    /// How reading the object fails, if it does.
    pub open spec fn failure(s: Seq<u8>, base: int) -> Option<Failure> {
        let size = u32_at(s, 8);
        let len = u16_at(s, 46);
        if RestorePointContainer::failure(s, base) is Some {
            RestorePointContainer::failure(s, base)
        } else if 48 + len > size || size > s.len() {
            Some(
                Failure::Parse(
                    base,
                    "RESTOREPOINT_CONTAINER: data length "@ + dec(len as nat)
                        + " exceeds object size "@ + dec(size as nat),
                ),
            )
        } else {
            None
        }
    }

    /// Whether the fields are those that stand in the bytes.
    pub open spec fn reads(self, s: Seq<u8>) -> bool {
        &&& self.header.reads(s)
        &&& self.reserved@ == s.subrange(32, 46)
        &&& self.data@ == s.subrange(48, 48 + u16_at(s, 46))
    }

    /// Number of bytes of the object.
    pub open spec fn total(self) -> int {
        (48 + self.data@.len()) as int
    }

    /// The bytes of the object.
    pub open spec fn encoding(self) -> Seq<u8> {
        self.header.sized_encoding(low32(self.total())) + self.reserved@ + le_u16(
            low16(self.data@.len() as int),
        ) + self.data@
    }

    /// Whether two objects agree in every field.
    pub open spec fn same(self, other: Self) -> bool {
        &&& self.header.same(other.header)
        &&& self.reserved@ == other.reserved@
        &&& self.data@ == other.data@
    }

    pub fn new(object_flags: ObjectFlags, timestamp: u64, data: Vec<u8>) -> (r: Self)
        ensures
            r.header.is_new(
                ObjectType::RestorepointContainer.raw(),
                object_flags,
                timestamp,
                low32((48 + data@.len()) as int),
            ),
            r.reserved@ == Seq::new(14, |i: int| 0u8),
            r.data@ == data@,
    {
        let r = RestorePointContainerManaged {
            header: LObj::new(
                ObjectType::RestorepointContainer,
                object_flags,
                timestamp,
                size_u32(RESTORE_POINT_CONTAINER_SIZE as u32, data.len()),
            ),
            reserved: [0; 14],
            data,
        };
        proof {
            assert(r.reserved@ =~= Seq::new(14, |i: int| 0u8));
        }
        r
    }

    pub fn parse(bytes: &[u8], base: u64) -> (r: Result<Self>)
        requires
            offsets_fit(base, bytes.len(), 48),
            LObj::failure(bytes@, base as int) is None ==> bytes.len() >= 32,
        ensures
            match r {
                Ok(v) => {
                    &&& Self::failure(bytes@, base as int) is None
                    &&& v.reads(bytes@)
                    &&& v.header.valid()
                    &&& 48 <= v.header.base.object_size <= bytes.len()
                },
                Err(e) => Self::failure(bytes@, base as int) == Some(e@),
            },
    {
        let fixed = RestorePointContainer::parse(bytes, base)?;
        let object_size: usize = fixed.header.base.object_size as usize;
        let len: usize = fixed.data_length as usize;
        if RESTORE_POINT_CONTAINER_SIZE + len > object_size || object_size > bytes.len() {
            let mut message = "RESTOREPOINT_CONTAINER: data length ".to_string();
            push_dec(&mut message, len as u64);
            message.append(" exceeds object size ");
            push_dec(&mut message, object_size as u64);
            return parse_err(base, message);
        }
        Ok(
            RestorePointContainerManaged {
                header: fixed.header,
                reserved: fixed.reserved,
                data: read_bytes(
                    bytes,
                    RESTORE_POINT_CONTAINER_SIZE,
                    RESTORE_POINT_CONTAINER_SIZE + len,
                ),
            },
        )
    }

    pub fn write_to(&self, out: &mut Vec<u8>)
        ensures
            final(out)@ == old(out)@ + self.encoding(),
    {
        self.header.write_sized(
            size_u32(RESTORE_POINT_CONTAINER_SIZE as u32, self.data.len()),
            out,
        );
        put_bytes(out, &self.reserved);
        put_u16(out, low_u16(self.data.len()));
        put_bytes(out, &self.data);
        proof {
            assert(out@ =~= old(out)@ + self.encoding());
        }
    }

    /// Whether the header fits the object, so that the bytes of the object can be read
    /// back.
    pub open spec fn canonical(self) -> bool {
        &&& self.header.plain()
        &&& self.header.base.object_size == self.total()
        &&& self.data@.len() <= u16::MAX
    }

    /// Reading the bytes of a canonical object gives back its fields.
    pub proof fn law_read_of_write(self, base: int)
        requires
            self.canonical(),
        ensures
            self.encoding().len() == self.total(),
            Self::failure(self.encoding(), base) is None,
            self.reads(self.encoding()),
    {
        let s = self.encoding();
        let len = self.data@.len() as int;
        lemma_low32(self.total());
        lemma_low16(len);
        let c0 = self.header.encoding();
        let c1 = c0 + self.reserved@;
        let c2 = c1 + le_u16(len as u16);
        lemma_starts_with_self(s);
        lemma_field_bytes(c2, self.data@, s);
        lemma_field_u16(c1, len as u16, s);
        lemma_field_bytes(c0, self.reserved@, s);
        self.header.law_read_of_prefix(s, base);
        lemma_short_read_none(RestorePointContainer::ends(), 0, s.len() - 32, base + 32);
    }

    /// The bytes of an object determine it.
    pub proof fn law_reads_unique(self, other: Self, s: Seq<u8>)
        requires
            self.reads(s),
            other.reads(s),
        ensures
            self.same(other),
    {
        self.header.law_reads_unique(other.header, s);
    }
}

} // verus!
