//! General-purpose BLF event objects.

use crate::blf::bytes::{
    le_u16, le_u32, le_u64, lemma_field_bytes, lemma_field_u16, lemma_field_u32, lemma_field_u64,
    lemma_field_u8, lemma_le_u16_at, lemma_le_u32_at, lemma_le_u64_at, lemma_low32,
    lemma_starts_with_self, low32, low_u32, put_bytes, put_u16, put_u32, put_u64, put_u8, read_bytes, read_u16, read_u32,
    read_u64, u16_at, u32_at, u64_at,
    offsets_fit,
};
use crate::blf::error::{parse_err, Failure, Result};
use crate::blf::flags::ObjectFlags;
use crate::blf::float64::Float64;
use crate::blf::header::LObj;
use crate::blf::object_type::ObjectType;
use crate::text::{dec, push_dec};
use vstd::prelude::*;

verus! {

/// How reading a header and checking the size of its object fails, if it does.
pub open spec fn object_failure(s: Seq<u8>, base: int, minimum_size: int) -> Option<Failure> {
    let object_size = u32_at(s, 8);
    if LObj::failure(s, base) is Some {
        LObj::failure(s, base)
    } else if object_size < minimum_size || object_size > s.len() {
        Some(
            Failure::Parse(
                base,
                "object size "@ + dec(object_size as nat) + " is outside "@ + dec(
                    minimum_size as nat,
                ) + "..="@ + dec(s.len()),
            ),
        )
    } else {
        None
    }
}

fn checked_object(bytes: &[u8], base: u64, minimum_size: usize) -> (r: Result<LObj>)
    requires
        offsets_fit(base, bytes.len(), 16),
    ensures
        match r {
            Ok(v) => {
                &&& object_failure(bytes@, base as int, minimum_size as int) is None
                &&& v.reads(bytes@)
                &&& v.valid()
                &&& minimum_size <= v.base.object_size <= bytes.len()
            },
            Err(e) => object_failure(bytes@, base as int, minimum_size as int) == Some(e@),
        },
{
    let header = LObj::parse(bytes, base)?;
    let object_size: usize = header.base.object_size as usize;
    if object_size < minimum_size || object_size > bytes.len() {
        let mut message = "object size ".to_string();
        push_dec(&mut message, object_size as u64);
        message.append(" is outside ");
        push_dec(&mut message, minimum_size as u64);
        message.append("..=");
        push_dec(&mut message, bytes.len() as u64);
        return parse_err(base, message);
    }
    Ok(header)
}

/// How splitting `available` bytes into fields with `total` bytes in all fails, if it
/// does.
pub open spec fn lengths_failure(total: int, available: int, base: int) -> Option<Failure> {
    if total > usize::MAX {
        Some(Failure::Parse(base, "variable-field lengths overflow addressable memory"@))
    } else if total > available {
        Some(
            Failure::Parse(
                base,
                "variable fields declare "@ + dec(total as nat) + " bytes but only "@ + dec(
                    available as nat,
                ) + " remain"@,
            ),
        )
    } else {
        None
    }
}

fn check_lengths(total: u64, available: usize, base: u64) -> (r: Result<()>)
    ensures
        match r {
            Ok(_) => {
                &&& lengths_failure(total as int, available as int, base as int) is None
                &&& total <= available
            },
            Err(e) => lengths_failure(total as int, available as int, base as int) == Some(e@),
        },
{
    if total > usize::MAX as u64 {
        return parse_err(base, "variable-field lengths overflow addressable memory".to_string());
    }
    if total > available as u64 {
        let mut message = "variable fields declare ".to_string();
        push_dec(&mut message, total);
        message.append(" bytes but only ");
        push_dec(&mut message, available as u64);
        message.append(" remain");
        return parse_err(base, message);
    }
    Ok(())
}

/// The object size that is written for `n` bytes: no sum goes beyond what memory can
/// hold, and of it the low 32 bits are written.
pub open spec fn dynamic_size(n: int) -> u32 {
    if n > usize::MAX {
        low32(usize::MAX as int)
    } else {
        low32(n)
    }
}

/// Application trigger window and flags.
#[derive(Debug, Clone, PartialEq, Eq)]
pub struct AppTrigger {
    pub header: LObj,
    pub pre_trigger_time: u64,
    pub post_trigger_time: u64,
    pub channel: u16,
    pub flags: u16,
    pub app_specific: u32,
}

impl AppTrigger {
    pub const SIZE: usize = 56;

    /// How reading the object fails, if it does.
    pub open spec fn failure(s: Seq<u8>, base: int) -> Option<Failure> {
        object_failure(s, base, 56)
    }

    /// Whether the fields are those that stand in the bytes.
    pub open spec fn reads(self, s: Seq<u8>) -> bool {
        &&& self.header.reads(s)
        &&& self.pre_trigger_time == u64_at(s, 32)
        &&& self.post_trigger_time == u64_at(s, 40)
        &&& self.channel == u16_at(s, 48)
        &&& self.flags == u16_at(s, 50)
        &&& self.app_specific == u32_at(s, 52)
    }

    /// The bytes of the object.
    pub open spec fn encoding(self) -> Seq<u8> {
        self.header.encoding() + le_u64(self.pre_trigger_time) + le_u64(self.post_trigger_time)
            + le_u16(self.channel) + le_u16(self.flags) + le_u32(self.app_specific)
    }

    /// Whether two objects agree in every field.
    pub open spec fn same(self, other: Self) -> bool {
        &&& self.header.same(other.header)
        &&& self.pre_trigger_time == other.pre_trigger_time
        &&& self.post_trigger_time == other.post_trigger_time
        &&& self.channel == other.channel
        &&& self.flags == other.flags
        &&& self.app_specific == other.app_specific
    }

    pub fn new(object_flags: ObjectFlags, timestamp: u64) -> (r: Self)
        ensures
            r.header.is_new(ObjectType::AppTrigger.raw(), object_flags, timestamp, 56),
            r.pre_trigger_time == 0,
            r.post_trigger_time == 0,
            r.channel == 0,
            r.flags == 0,
            r.app_specific == 0,
    {
        AppTrigger {
            header: LObj::new(ObjectType::AppTrigger, object_flags, timestamp, Self::SIZE as u32),
            pre_trigger_time: 0,
            post_trigger_time: 0,
            channel: 0,
            flags: 0,
            app_specific: 0,
        }
    }

    pub fn parse(bytes: &[u8], base: u64) -> (r: Result<Self>)
        requires
            offsets_fit(base, bytes.len(), 16),
        ensures
            match r {
                Ok(v) => {
                    &&& Self::failure(bytes@, base as int) is None
                    &&& v.reads(bytes@)
                    &&& v.header.valid()
                    &&& 56 <= v.header.base.object_size <= bytes.len()
                },
                Err(e) => Self::failure(bytes@, base as int) == Some(e@),
            },
    {
        let header = checked_object(bytes, base, Self::SIZE)?;
        Ok(
            AppTrigger {
                header,
                pre_trigger_time: read_u64(bytes, 32),
                post_trigger_time: read_u64(bytes, 40),
                channel: read_u16(bytes, 48),
                flags: read_u16(bytes, 50),
                app_specific: read_u32(bytes, 52),
            },
        )
    }

    pub fn write_to(&self, out: &mut Vec<u8>)
        ensures
            final(out)@ == old(out)@ + self.encoding(),
    {
        self.header.write_to(out);
        put_u64(out, self.pre_trigger_time);
        put_u64(out, self.post_trigger_time);
        put_u16(out, self.channel);
        put_u16(out, self.flags);
        put_u32(out, self.app_specific);
        proof {
            assert(out@ =~= old(out)@ + self.encoding());
        }
    }

    /// Whether the header fits the object, so that the bytes of the object can be read
    /// back.
    pub open spec fn canonical(self) -> bool {
        &&& self.header.plain()
        &&& self.header.base.object_size == 56
    }

    /// Reading the bytes of a canonical object gives back its fields.
    pub proof fn law_read_of_write(self, base: int)
        requires
            self.canonical(),
        ensures
            self.encoding().len() == 56,
            Self::failure(self.encoding(), base) is None,
            self.reads(self.encoding()),
    {
        let s = self.encoding();
        let c0 = self.header.encoding();
        let c1 = c0 + le_u64(self.pre_trigger_time);
        let c2 = c1 + le_u64(self.post_trigger_time);
        let c3 = c2 + le_u16(self.channel);
        let c4 = c3 + le_u16(self.flags);
        lemma_starts_with_self(s);
        lemma_field_u32(c4, self.app_specific, s);
        lemma_field_u16(c3, self.flags, s);
        lemma_field_u16(c2, self.channel, s);
        lemma_field_u64(c1, self.post_trigger_time, s);
        lemma_field_u64(c0, self.pre_trigger_time, s);
        self.header.law_read_of_prefix(s, base);
    }

    /// Writing an object that was read gives back the bytes that it was read from.
    pub proof fn law_write_of_read(self, s: Seq<u8>)
        requires
            self.header.plain(),
            self.reads(s),
            s.len() == 56,
        ensures
            self.encoding() == s,
    {
        self.header.law_write_of_read(s);
        lemma_le_u64_at(s, 32);
        lemma_le_u64_at(s, 40);
        lemma_le_u16_at(s, 48);
        lemma_le_u16_at(s, 50);
        lemma_le_u32_at(s, 52);
        assert(self.encoding() =~= s);
    }

    /// The bytes of an object determine it.
    pub proof fn law_reads_unique(self, other: Self, s: Seq<u8>)
        requires
            self.reads(s),
            other.reads(s),
        ensures
            self.same(other),
    {
        self.header.law_reads_unique(other.header, s);
    }
}

/// An environment variable value. Its object type determines the value encoding.
#[derive(Debug, Clone, PartialEq, Eq)]
pub struct EnvironmentVariable {
    pub header: LObj,
    pub reserved: u64,
    pub name: Vec<u8>,
    pub data: Vec<u8>,
    pub trailing: Vec<u8>,
}

impl EnvironmentVariable {
    pub const FIXED_SIZE: usize = 48;

    /// How reading the object fails, if it does.
    pub open spec fn failure(s: Seq<u8>, base: int) -> Option<Failure> {
        if object_failure(s, base, 48) is Some {
            object_failure(s, base, 48)
        } else {
            lengths_failure(u32_at(s, 32) + u32_at(s, 36), u32_at(s, 8) - 48, base + 48)
        }
    }

    /// Whether the fields are those that stand in the bytes.
    pub open spec fn reads(self, s: Seq<u8>) -> bool {
        let end1 = 48 + u32_at(s, 32);
        let end2 = end1 + u32_at(s, 36);
        &&& self.header.reads(s)
        &&& self.reserved == u64_at(s, 40)
        &&& self.name@ == s.subrange(48, end1)
        &&& self.data@ == s.subrange(end1, end2)
        &&& self.trailing@ == s.subrange(end2, u32_at(s, 8) as int)
    }

    /// Number of bytes of the object.
    pub open spec fn total(self) -> int {
        (48 + self.name@.len() + self.data@.len() + self.trailing@.len()) as int
    }

    /// The bytes of the object.
    pub open spec fn encoding(self) -> Seq<u8> {
        self.header.sized_encoding(dynamic_size(self.total()))
            + le_u32(low32(self.name@.len() as int)) + le_u32(low32(self.data@.len() as int))
            + le_u64(self.reserved) + self.name@ + self.data@ + self.trailing@
    }

    /// Whether two objects agree in every field.
    pub open spec fn same(self, other: Self) -> bool {
        &&& self.header.same(other.header)
        &&& self.reserved == other.reserved
        &&& self.name@ == other.name@
        &&& self.data@ == other.data@
        &&& self.trailing@ == other.trailing@
    }

    /// Makes an environment variable of one of the four `Env*` object types.
    pub fn new(
        object_type: ObjectType,
        object_flags: ObjectFlags,
        timestamp: u64,
        name: Vec<u8>,
        data: Vec<u8>,
    ) -> (r: Result<Self>)
        ensures
            match r {
                Ok(v) => {
                    &&& EnvironmentVariable::is_env(object_type)
                    &&& v.header.is_new(
                        object_type.raw(),
                        object_flags,
                        timestamp,
                        dynamic_size((48 + name@.len() + data@.len()) as int),
                    )
                    &&& v.reserved == 0
                    &&& v.name@ == name@
                    &&& v.data@ == data@
                    &&& v.trailing@.len() == 0
                },
                Err(e) => {
                    &&& !EnvironmentVariable::is_env(object_type)
                    &&& e@ == Failure::Parse(
                        0,
                        "environment variable requires an ENV_* object type"@,
                    )
                },
            },
    {
        if !matches!(
            object_type,
            ObjectType::EnvInteger
                | ObjectType::EnvDouble
                | ObjectType::EnvString
                | ObjectType::EnvData
        ) {
            return parse_err(
                0,
                "environment variable requires an ENV_* object type".to_string(),
            );
        }
        let size: usize = Self::FIXED_SIZE.saturating_add(name.len()).saturating_add(data.len());
        Ok(
            EnvironmentVariable {
                header: LObj::new(object_type, object_flags, timestamp, low_u32(size)),
                reserved: 0,
                name,
                data,
                trailing: Vec::new(),
            },
        )
    }

    /// Whether the type is that of an environment variable.
    pub open spec fn is_env(t: ObjectType) -> bool {
        t is EnvInteger || t is EnvDouble || t is EnvString || t is EnvData
    }

    pub fn parse(bytes: &[u8], base: u64) -> (r: Result<Self>)
        requires
            offsets_fit(base, bytes.len(), 48),
        ensures
            match r {
                Ok(v) => {
                    &&& Self::failure(bytes@, base as int) is None
                    &&& v.reads(bytes@)
                    &&& v.header.valid()
                    &&& 48 <= v.header.base.object_size <= bytes.len()
                },
                Err(e) => Self::failure(bytes@, base as int) == Some(e@),
            },
    {
        let header = checked_object(bytes, base, Self::FIXED_SIZE)?;
        let object_size: usize = header.base.object_size as usize;
        let name_length: u32 = read_u32(bytes, 32);
        let data_length: u32 = read_u32(bytes, 36);
        let total: u64 = name_length as u64 + data_length as u64;
        check_lengths(total, object_size - Self::FIXED_SIZE, base + Self::FIXED_SIZE as u64)?;
        let end1: usize = Self::FIXED_SIZE + name_length as usize;
        let end2: usize = end1 + data_length as usize;
        Ok(
            EnvironmentVariable {
                header,
                reserved: read_u64(bytes, 40),
                name: read_bytes(bytes, Self::FIXED_SIZE, end1),
                data: read_bytes(bytes, end1, end2),
                trailing: read_bytes(bytes, end2, object_size),
            },
        )
    }

    pub fn write_to(&self, out: &mut Vec<u8>)
        ensures
            final(out)@ == old(out)@ + self.encoding(),
    {
        let mut size: usize = Self::FIXED_SIZE;
        size = size.saturating_add(self.name.len());
        size = size.saturating_add(self.data.len());
        size = size.saturating_add(self.trailing.len());
        self.header.write_sized(low_u32(size), out);
        put_u32(out, low_u32(self.name.len()));
        put_u32(out, low_u32(self.data.len()));
        put_u64(out, self.reserved);
        put_bytes(out, &self.name);
        put_bytes(out, &self.data);
        put_bytes(out, &self.trailing);
        proof {
            assert(out@ =~= old(out)@ + self.encoding());
        }
    }

    /// Whether the header fits the object, so that the bytes of the object can be read
    /// back.
    pub open spec fn canonical(self) -> bool {
        &&& self.header.plain()
        &&& self.header.base.object_size == self.total()
    }

    /// Reading the bytes of a canonical object gives back its fields.
    pub proof fn law_read_of_write(self, base: int)
        requires
            self.canonical(),
        ensures
            self.encoding().len() == self.total(),
            Self::failure(self.encoding(), base) is None,
            self.reads(self.encoding()),
    {
        let s = self.encoding();
        lemma_low32(self.total());
        lemma_low32(self.name@.len() as int);
        lemma_low32(self.data@.len() as int);
        let c0 = self.header.encoding();
        let c1 = c0 + le_u32(low32(self.name@.len() as int));
        let c2 = c1 + le_u32(low32(self.data@.len() as int));
        let c3 = c2 + le_u64(self.reserved);
        let c4 = c3 + self.name@;
        let c5 = c4 + self.data@;
        lemma_starts_with_self(s);
        lemma_field_bytes(c5, self.trailing@, s);
        lemma_field_bytes(c4, self.data@, s);
        lemma_field_bytes(c3, self.name@, s);
        lemma_field_u64(c2, self.reserved, s);
        lemma_field_u32(c1, low32(self.data@.len() as int), s);
        lemma_field_u32(c0, low32(self.name@.len() as int), s);
        self.header.law_read_of_prefix(s, base);
    }

    /// Writing an object that was read gives back the bytes that it was read from.
    pub proof fn law_write_of_read(self, s: Seq<u8>)
        requires
            self.header.plain(),
            self.reads(s),
            s.len() == self.header.base.object_size,
            Self::failure(s, 0) is None,
            s.len() >= 48,
        ensures
            self.encoding() == s,
    {
        self.header.law_write_of_read(s);
        lemma_low32(self.total());
        lemma_low32(self.name@.len() as int);
        lemma_low32(self.data@.len() as int);
        lemma_le_u32_at(s, 32);
        lemma_le_u32_at(s, 36);
        lemma_le_u64_at(s, 40);
        assert(self.encoding() =~= s);
    }

    /// The bytes of an object determine it.
    pub proof fn law_reads_unique(self, other: Self, s: Seq<u8>)
        requires
            self.reads(s),
            other.reads(s),
        ensures
            self.same(other),
    {
        self.header.law_reads_unique(other.header, s);
    }
}

/// Correlation between the logger clock and real time.
#[derive(Debug, Clone, PartialEq, Eq)]
pub struct RealtimeClock {
    pub header: LObj,
    pub time: u64,
    pub logging_offset: u64,
}

impl RealtimeClock {
    pub const SIZE: usize = 48;

    /// How reading the object fails, if it does.
    pub open spec fn failure(s: Seq<u8>, base: int) -> Option<Failure> {
        object_failure(s, base, 48)
    }

    /// Whether the fields are those that stand in the bytes.
    pub open spec fn reads(self, s: Seq<u8>) -> bool {
        &&& self.header.reads(s)
        &&& self.time == u64_at(s, 32)
        &&& self.logging_offset == u64_at(s, 40)
    }

    /// The bytes of the object.
    pub open spec fn encoding(self) -> Seq<u8> {
        self.header.encoding() + le_u64(self.time) + le_u64(self.logging_offset)
    }

    /// Whether two objects agree in every field.
    pub open spec fn same(self, other: Self) -> bool {
        &&& self.header.same(other.header)
        &&& self.time == other.time
        &&& self.logging_offset == other.logging_offset
    }

    pub fn parse(bytes: &[u8], base: u64) -> (r: Result<Self>)
        requires
            offsets_fit(base, bytes.len(), 16),
        ensures
            match r {
                Ok(v) => {
                    &&& Self::failure(bytes@, base as int) is None
                    &&& v.reads(bytes@)
                    &&& v.header.valid()
                    &&& 48 <= v.header.base.object_size <= bytes.len()
                },
                Err(e) => Self::failure(bytes@, base as int) == Some(e@),
            },
    {
        let header = checked_object(bytes, base, Self::SIZE)?;
        Ok(
            RealtimeClock {
                header,
                time: read_u64(bytes, 32),
                logging_offset: read_u64(bytes, 40),
            },
        )
    }

    pub fn write_to(&self, out: &mut Vec<u8>)
        ensures
            final(out)@ == old(out)@ + self.encoding(),
    {
        self.header.write_to(out);
        put_u64(out, self.time);
        put_u64(out, self.logging_offset);
        proof {
            assert(out@ =~= old(out)@ + self.encoding());
        }
    }

    /// Whether the header fits the object, so that the bytes of the object can be read
    /// back.
    pub open spec fn canonical(self) -> bool {
        &&& self.header.plain()
        &&& self.header.base.object_size == 48
    }

    /// Reading the bytes of a canonical object gives back its fields.
    pub proof fn law_read_of_write(self, base: int)
        requires
            self.canonical(),
        ensures
            self.encoding().len() == 48,
            Self::failure(self.encoding(), base) is None,
            self.reads(self.encoding()),
    {
        let s = self.encoding();
        let c0 = self.header.encoding();
        let c1 = c0 + le_u64(self.time);
        lemma_starts_with_self(s);
        lemma_field_u64(c1, self.logging_offset, s);
        lemma_field_u64(c0, self.time, s);
        self.header.law_read_of_prefix(s, base);
    }

    /// Writing an object that was read gives back the bytes that it was read from.
    pub proof fn law_write_of_read(self, s: Seq<u8>)
        requires
            self.header.plain(),
            self.reads(s),
            s.len() == 48,
        ensures
            self.encoding() == s,
    {
        self.header.law_write_of_read(s);
        lemma_le_u64_at(s, 32);
        lemma_le_u64_at(s, 40);
        assert(self.encoding() =~= s);
    }

    /// The bytes of an object determine it.
    pub proof fn law_reads_unique(self, other: Self, s: Seq<u8>)
        requires
            self.reads(s),
            other.reads(s),
        ensures
            self.same(other),
    {
        self.header.law_reads_unique(other.header, s);
    }
}

/// Driver receive-buffer overrun information.
#[derive(Debug, Clone, PartialEq, Eq)]
pub struct DriverOverrun {
    pub header: LObj,
    pub bus_type: u32,
    pub channel: u16,
    pub reserved: u16,
}

impl DriverOverrun {
    pub const SIZE: usize = 40;

    /// How reading the object fails, if it does.
    pub open spec fn failure(s: Seq<u8>, base: int) -> Option<Failure> {
        object_failure(s, base, 40)
    }

    /// Whether the fields are those that stand in the bytes.
    pub open spec fn reads(self, s: Seq<u8>) -> bool {
        &&& self.header.reads(s)
        &&& self.bus_type == u32_at(s, 32)
        &&& self.channel == u16_at(s, 36)
        &&& self.reserved == u16_at(s, 38)
    }

    /// The bytes of the object.
    pub open spec fn encoding(self) -> Seq<u8> {
        self.header.encoding() + le_u32(self.bus_type) + le_u16(self.channel)
            + le_u16(self.reserved)
    }

    /// Whether two objects agree in every field.
    pub open spec fn same(self, other: Self) -> bool {
        &&& self.header.same(other.header)
        &&& self.bus_type == other.bus_type
        &&& self.channel == other.channel
        &&& self.reserved == other.reserved
    }

    pub fn parse(bytes: &[u8], base: u64) -> (r: Result<Self>)
        requires
            offsets_fit(base, bytes.len(), 16),
        ensures
            match r {
                Ok(v) => {
                    &&& Self::failure(bytes@, base as int) is None
                    &&& v.reads(bytes@)
                    &&& v.header.valid()
                    &&& 40 <= v.header.base.object_size <= bytes.len()
                },
                Err(e) => Self::failure(bytes@, base as int) == Some(e@),
            },
    {
        let header = checked_object(bytes, base, Self::SIZE)?;
        Ok(
            DriverOverrun {
                header,
                bus_type: read_u32(bytes, 32),
                channel: read_u16(bytes, 36),
                reserved: read_u16(bytes, 38),
            },
        )
    }

    pub fn write_to(&self, out: &mut Vec<u8>)
        ensures
            final(out)@ == old(out)@ + self.encoding(),
    {
        self.header.write_to(out);
        put_u32(out, self.bus_type);
        put_u16(out, self.channel);
        put_u16(out, self.reserved);
        proof {
            assert(out@ =~= old(out)@ + self.encoding());
        }
    }

    /// Whether the header fits the object, so that the bytes of the object can be read
    /// back.
    pub open spec fn canonical(self) -> bool {
        &&& self.header.plain()
        &&& self.header.base.object_size == 40
    }

    /// Reading the bytes of a canonical object gives back its fields.
    pub proof fn law_read_of_write(self, base: int)
        requires
            self.canonical(),
        ensures
            self.encoding().len() == 40,
            Self::failure(self.encoding(), base) is None,
            self.reads(self.encoding()),
    {
        let s = self.encoding();
        let c0 = self.header.encoding();
        let c1 = c0 + le_u32(self.bus_type);
        let c2 = c1 + le_u16(self.channel);
        lemma_starts_with_self(s);
        lemma_field_u16(c2, self.reserved, s);
        lemma_field_u16(c1, self.channel, s);
        lemma_field_u32(c0, self.bus_type, s);
        self.header.law_read_of_prefix(s, base);
    }

    /// Writing an object that was read gives back the bytes that it was read from.
    pub proof fn law_write_of_read(self, s: Seq<u8>)
        requires
            self.header.plain(),
            self.reads(s),
            s.len() == 40,
        ensures
            self.encoding() == s,
    {
        self.header.law_write_of_read(s);
        lemma_le_u32_at(s, 32);
        lemma_le_u16_at(s, 36);
        lemma_le_u16_at(s, 38);
        assert(self.encoding() =~= s);
    }

    /// The bytes of an object determine it.
    pub proof fn law_reads_unique(self, other: Self, s: Seq<u8>)
        requires
            self.reads(s),
            other.reads(s),
        ensures
            self.same(other),
    {
        self.header.law_reads_unique(other.header, s);
    }
}

/// A textual comment attached to an event type.
#[derive(Debug, Clone, PartialEq, Eq)]
pub struct EventComment {
    pub header: LObj,
    pub commented_event_type: u32,
    pub reserved: u64,
    pub text: Vec<u8>,
    pub trailing: Vec<u8>,
}

impl EventComment {
    pub const FIXED_SIZE: usize = 48;

    /// How reading the object fails, if it does.
    pub open spec fn failure(s: Seq<u8>, base: int) -> Option<Failure> {
        if object_failure(s, base, 48) is Some {
            object_failure(s, base, 48)
        } else {
            lengths_failure(u32_at(s, 36) as int, u32_at(s, 8) - 48, base + 48)
        }
    }

    /// Whether the fields are those that stand in the bytes.
    pub open spec fn reads(self, s: Seq<u8>) -> bool {
        let end1 = 48 + u32_at(s, 36);
        &&& self.header.reads(s)
        &&& self.commented_event_type == u32_at(s, 32)
        &&& self.reserved == u64_at(s, 40)
        &&& self.text@ == s.subrange(48, end1)
        &&& self.trailing@ == s.subrange(end1, u32_at(s, 8) as int)
    }

    /// Number of bytes of the object.
    pub open spec fn total(self) -> int {
        (48 + self.text@.len() + self.trailing@.len()) as int
    }

    /// The bytes of the object.
    pub open spec fn encoding(self) -> Seq<u8> {
        self.header.sized_encoding(dynamic_size(self.total())) + le_u32(self.commented_event_type)
            + le_u32(low32(self.text@.len() as int)) + le_u64(self.reserved) + self.text@
            + self.trailing@
    }

    /// Whether two objects agree in every field.
    pub open spec fn same(self, other: Self) -> bool {
        &&& self.header.same(other.header)
        &&& self.commented_event_type == other.commented_event_type
        &&& self.reserved == other.reserved
        &&& self.text@ == other.text@
        &&& self.trailing@ == other.trailing@
    }

    pub fn parse(bytes: &[u8], base: u64) -> (r: Result<Self>)
        requires
            offsets_fit(base, bytes.len(), 48),
        ensures
            match r {
                Ok(v) => {
                    &&& Self::failure(bytes@, base as int) is None
                    &&& v.reads(bytes@)
                    &&& v.header.valid()
                    &&& 48 <= v.header.base.object_size <= bytes.len()
                },
                Err(e) => Self::failure(bytes@, base as int) == Some(e@),
            },
    {
        let header = checked_object(bytes, base, Self::FIXED_SIZE)?;
        let object_size: usize = header.base.object_size as usize;
        let text_length: u32 = read_u32(bytes, 36);
        let total: u64 = text_length as u64;
        check_lengths(total, object_size - Self::FIXED_SIZE, base + Self::FIXED_SIZE as u64)?;
        let end1: usize = Self::FIXED_SIZE + text_length as usize;
        Ok(
            EventComment {
                header,
                commented_event_type: read_u32(bytes, 32),
                reserved: read_u64(bytes, 40),
                text: read_bytes(bytes, Self::FIXED_SIZE, end1),
                trailing: read_bytes(bytes, end1, object_size),
            },
        )
    }

    pub fn write_to(&self, out: &mut Vec<u8>)
        ensures
            final(out)@ == old(out)@ + self.encoding(),
    {
        let mut size: usize = Self::FIXED_SIZE;
        size = size.saturating_add(self.text.len());
        size = size.saturating_add(self.trailing.len());
        self.header.write_sized(low_u32(size), out);
        put_u32(out, self.commented_event_type);
        put_u32(out, low_u32(self.text.len()));
        put_u64(out, self.reserved);
        put_bytes(out, &self.text);
        put_bytes(out, &self.trailing);
        proof {
            assert(out@ =~= old(out)@ + self.encoding());
        }
    }

    /// Whether the header fits the object, so that the bytes of the object can be read
    /// back.
    pub open spec fn canonical(self) -> bool {
        &&& self.header.plain()
        &&& self.header.base.object_size == self.total()
    }

    /// Reading the bytes of a canonical object gives back its fields.
    pub proof fn law_read_of_write(self, base: int)
        requires
            self.canonical(),
        ensures
            self.encoding().len() == self.total(),
            Self::failure(self.encoding(), base) is None,
            self.reads(self.encoding()),
    {
        let s = self.encoding();
        lemma_low32(self.total());
        lemma_low32(self.text@.len() as int);
        let c0 = self.header.encoding();
        let c1 = c0 + le_u32(self.commented_event_type);
        let c2 = c1 + le_u32(low32(self.text@.len() as int));
        let c3 = c2 + le_u64(self.reserved);
        let c4 = c3 + self.text@;
        lemma_starts_with_self(s);
        lemma_field_bytes(c4, self.trailing@, s);
        lemma_field_bytes(c3, self.text@, s);
        lemma_field_u64(c2, self.reserved, s);
        lemma_field_u32(c1, low32(self.text@.len() as int), s);
        lemma_field_u32(c0, self.commented_event_type, s);
        self.header.law_read_of_prefix(s, base);
    }

    /// Writing an object that was read gives back the bytes that it was read from.
    pub proof fn law_write_of_read(self, s: Seq<u8>)
        requires
            self.header.plain(),
            self.reads(s),
            s.len() == self.header.base.object_size,
            Self::failure(s, 0) is None,
            s.len() >= 48,
        ensures
            self.encoding() == s,
    {
        self.header.law_write_of_read(s);
        lemma_low32(self.total());
        lemma_low32(self.text@.len() as int);
        lemma_le_u32_at(s, 32);
        lemma_le_u32_at(s, 36);
        lemma_le_u64_at(s, 40);
        assert(self.encoding() =~= s);
    }

    /// The bytes of an object determine it.
    pub proof fn law_reads_unique(self, other: Self, s: Seq<u8>)
        requires
            self.reads(s),
            other.reads(s),
        ensures
            self.same(other),
    {
        self.header.law_reads_unique(other.header, s);
    }
}

/// A named, colored global marker.
#[derive(Debug, Clone, PartialEq, Eq)]
pub struct GlobalMarker {
    pub header: LObj,
    pub commented_event_type: u32,
    pub foreground_color: u32,
    pub background_color: u32,
    pub is_relocatable: u8,
    pub reserved1: u8,
    pub reserved2: u16,
    pub reserved3: u32,
    pub reserved4: u64,
    pub group_name: Vec<u8>,
    pub marker_name: Vec<u8>,
    pub description: Vec<u8>,
    pub trailing: Vec<u8>,
}

impl GlobalMarker {
    pub const FIXED_SIZE: usize = 72;

    /// How reading the object fails, if it does.
    pub open spec fn failure(s: Seq<u8>, base: int) -> Option<Failure> {
        if object_failure(s, base, 72) is Some {
            object_failure(s, base, 72)
        } else {
            lengths_failure(u32_at(s, 48) + u32_at(s, 52) + u32_at(s, 56), u32_at(s, 8) - 72, base + 72)
        }
    }

    /// Whether the fields are those that stand in the bytes.
    pub open spec fn reads(self, s: Seq<u8>) -> bool {
        let end1 = 72 + u32_at(s, 48);
        let end2 = end1 + u32_at(s, 52);
        let end3 = end2 + u32_at(s, 56);
        &&& self.header.reads(s)
        &&& self.commented_event_type == u32_at(s, 32)
        &&& self.foreground_color == u32_at(s, 36)
        &&& self.background_color == u32_at(s, 40)
        &&& self.is_relocatable == s[44]
        &&& self.reserved1 == s[45]
        &&& self.reserved2 == u16_at(s, 46)
        &&& self.reserved3 == u32_at(s, 60)
        &&& self.reserved4 == u64_at(s, 64)
        &&& self.group_name@ == s.subrange(72, end1)
        &&& self.marker_name@ == s.subrange(end1, end2)
        &&& self.description@ == s.subrange(end2, end3)
        &&& self.trailing@ == s.subrange(end3, u32_at(s, 8) as int)
    }

    /// Number of bytes of the object.
    pub open spec fn total(self) -> int {
        (
            72 + self.group_name@.len() + self.marker_name@.len() + self.description@.len() + self.trailing@.len()
        ) as int
    }

    /// The bytes of the object.
    pub open spec fn encoding(self) -> Seq<u8> {
        self.header.sized_encoding(dynamic_size(self.total())) + le_u32(self.commented_event_type)
            + le_u32(self.foreground_color) + le_u32(self.background_color)
            + seq![self.is_relocatable] + seq![self.reserved1] + le_u16(self.reserved2)
            + le_u32(low32(self.group_name@.len() as int))
            + le_u32(low32(self.marker_name@.len() as int))
            + le_u32(low32(self.description@.len() as int)) + le_u32(self.reserved3)
            + le_u64(self.reserved4) + self.group_name@ + self.marker_name@ + self.description@
            + self.trailing@
    }

    /// Whether two objects agree in every field.
    pub open spec fn same(self, other: Self) -> bool {
        &&& self.header.same(other.header)
        &&& self.commented_event_type == other.commented_event_type
        &&& self.foreground_color == other.foreground_color
        &&& self.background_color == other.background_color
        &&& self.is_relocatable == other.is_relocatable
        &&& self.reserved1 == other.reserved1
        &&& self.reserved2 == other.reserved2
        &&& self.reserved3 == other.reserved3
        &&& self.reserved4 == other.reserved4
        &&& self.group_name@ == other.group_name@
        &&& self.marker_name@ == other.marker_name@
        &&& self.description@ == other.description@
        &&& self.trailing@ == other.trailing@
    }

    pub fn parse(bytes: &[u8], base: u64) -> (r: Result<Self>)
        requires
            offsets_fit(base, bytes.len(), 72),
        ensures
            match r {
                Ok(v) => {
                    &&& Self::failure(bytes@, base as int) is None
                    &&& v.reads(bytes@)
                    &&& v.header.valid()
                    &&& 72 <= v.header.base.object_size <= bytes.len()
                },
                Err(e) => Self::failure(bytes@, base as int) == Some(e@),
            },
    {
        let header = checked_object(bytes, base, Self::FIXED_SIZE)?;
        let object_size: usize = header.base.object_size as usize;
        let group_name_length: u32 = read_u32(bytes, 48);
        let marker_name_length: u32 = read_u32(bytes, 52);
        let description_length: u32 = read_u32(bytes, 56);
        let total: u64 = group_name_length as u64 + marker_name_length as u64 + description_length as u64;
        check_lengths(total, object_size - Self::FIXED_SIZE, base + Self::FIXED_SIZE as u64)?;
        let end1: usize = Self::FIXED_SIZE + group_name_length as usize;
        let end2: usize = end1 + marker_name_length as usize;
        let end3: usize = end2 + description_length as usize;
        Ok(
            GlobalMarker {
                header,
                commented_event_type: read_u32(bytes, 32),
                foreground_color: read_u32(bytes, 36),
                background_color: read_u32(bytes, 40),
                is_relocatable: bytes[44],
                reserved1: bytes[45],
                reserved2: read_u16(bytes, 46),
                reserved3: read_u32(bytes, 60),
                reserved4: read_u64(bytes, 64),
                group_name: read_bytes(bytes, Self::FIXED_SIZE, end1),
                marker_name: read_bytes(bytes, end1, end2),
                description: read_bytes(bytes, end2, end3),
                trailing: read_bytes(bytes, end3, object_size),
            },
        )
    }

    pub fn write_to(&self, out: &mut Vec<u8>)
        ensures
            final(out)@ == old(out)@ + self.encoding(),
    {
        let mut size: usize = Self::FIXED_SIZE;
        size = size.saturating_add(self.group_name.len());
        size = size.saturating_add(self.marker_name.len());
        size = size.saturating_add(self.description.len());
        size = size.saturating_add(self.trailing.len());
        self.header.write_sized(low_u32(size), out);
        put_u32(out, self.commented_event_type);
        put_u32(out, self.foreground_color);
        put_u32(out, self.background_color);
        put_u8(out, self.is_relocatable);
        put_u8(out, self.reserved1);
        put_u16(out, self.reserved2);
        put_u32(out, low_u32(self.group_name.len()));
        put_u32(out, low_u32(self.marker_name.len()));
        put_u32(out, low_u32(self.description.len()));
        put_u32(out, self.reserved3);
        put_u64(out, self.reserved4);
        put_bytes(out, &self.group_name);
        put_bytes(out, &self.marker_name);
        put_bytes(out, &self.description);
        put_bytes(out, &self.trailing);
        proof {
            assert(out@ =~= old(out)@ + self.encoding());
        }
    }

    /// Whether the header fits the object, so that the bytes of the object can be read
    /// back.
    pub open spec fn canonical(self) -> bool {
        &&& self.header.plain()
        &&& self.header.base.object_size == self.total()
    }

    /// Reading the bytes of a canonical object gives back its fields.
    pub proof fn law_read_of_write(self, base: int)
        requires
            self.canonical(),
        ensures
            self.encoding().len() == self.total(),
            Self::failure(self.encoding(), base) is None,
            self.reads(self.encoding()),
    {
        let s = self.encoding();
        lemma_low32(self.total());
        lemma_low32(self.group_name@.len() as int);
        lemma_low32(self.marker_name@.len() as int);
        lemma_low32(self.description@.len() as int);
        let c0 = self.header.encoding();
        let c1 = c0 + le_u32(self.commented_event_type);
        let c2 = c1 + le_u32(self.foreground_color);
        let c3 = c2 + le_u32(self.background_color);
        let c4 = c3 + seq![self.is_relocatable];
        let c5 = c4 + seq![self.reserved1];
        let c6 = c5 + le_u16(self.reserved2);
        let c7 = c6 + le_u32(low32(self.group_name@.len() as int));
        let c8 = c7 + le_u32(low32(self.marker_name@.len() as int));
        let c9 = c8 + le_u32(low32(self.description@.len() as int));
        let c10 = c9 + le_u32(self.reserved3);
        let c11 = c10 + le_u64(self.reserved4);
        let c12 = c11 + self.group_name@;
        let c13 = c12 + self.marker_name@;
        let c14 = c13 + self.description@;
        lemma_starts_with_self(s);
        lemma_field_bytes(c14, self.trailing@, s);
        lemma_field_bytes(c13, self.description@, s);
        lemma_field_bytes(c12, self.marker_name@, s);
        lemma_field_bytes(c11, self.group_name@, s);
        lemma_field_u64(c10, self.reserved4, s);
        lemma_field_u32(c9, self.reserved3, s);
        lemma_field_u32(c8, low32(self.description@.len() as int), s);
        lemma_field_u32(c7, low32(self.marker_name@.len() as int), s);
        lemma_field_u32(c6, low32(self.group_name@.len() as int), s);
        lemma_field_u16(c5, self.reserved2, s);
        lemma_field_u8(c4, self.reserved1, s);
        lemma_field_u8(c3, self.is_relocatable, s);
        lemma_field_u32(c2, self.background_color, s);
        lemma_field_u32(c1, self.foreground_color, s);
        lemma_field_u32(c0, self.commented_event_type, s);
        self.header.law_read_of_prefix(s, base);
    }

    /// Writing an object that was read gives back the bytes that it was read from.
    pub proof fn law_write_of_read(self, s: Seq<u8>)
        requires
            self.header.plain(),
            self.reads(s),
            s.len() == self.header.base.object_size,
            Self::failure(s, 0) is None,
            s.len() >= 72,
        ensures
            self.encoding() == s,
    {
        self.header.law_write_of_read(s);
        lemma_low32(self.total());
        lemma_low32(self.group_name@.len() as int);
        lemma_low32(self.marker_name@.len() as int);
        lemma_low32(self.description@.len() as int);
        lemma_le_u32_at(s, 32);
        lemma_le_u32_at(s, 36);
        lemma_le_u32_at(s, 40);
        lemma_le_u16_at(s, 46);
        lemma_le_u32_at(s, 48);
        lemma_le_u32_at(s, 52);
        lemma_le_u32_at(s, 56);
        lemma_le_u32_at(s, 60);
        lemma_le_u64_at(s, 64);
        assert(self.encoding() =~= s);
    }

    /// The bytes of an object determine it.
    pub proof fn law_reads_unique(self, other: Self, s: Seq<u8>)
        requires
            self.reads(s),
            other.reads(s),
        ensures
            self.same(other),
    {
        self.header.law_reads_unique(other.header, s);
    }
}

/// A GPS position, speed, and course sample.
#[derive(Debug, Clone, PartialEq, Eq)]
pub struct GpsEvent {
    pub header: LObj,
    pub flags: u32,
    pub channel: u16,
    pub reserved: u16,
    pub latitude: Float64,
    pub longitude: Float64,
    pub altitude: Float64,
    pub speed: Float64,
    pub course: Float64,
}

impl GpsEvent {
    pub const SIZE: usize = 80;

    /// How reading the object fails, if it does.
    pub open spec fn failure(s: Seq<u8>, base: int) -> Option<Failure> {
        object_failure(s, base, 80)
    }

    /// Whether the fields are those that stand in the bytes.
    pub open spec fn reads(self, s: Seq<u8>) -> bool {
        &&& self.header.reads(s)
        &&& self.flags == u32_at(s, 32)
        &&& self.channel == u16_at(s, 36)
        &&& self.reserved == u16_at(s, 38)
        &&& self.latitude.0 == u64_at(s, 40)
        &&& self.longitude.0 == u64_at(s, 48)
        &&& self.altitude.0 == u64_at(s, 56)
        &&& self.speed.0 == u64_at(s, 64)
        &&& self.course.0 == u64_at(s, 72)
    }

    /// The bytes of the object.
    pub open spec fn encoding(self) -> Seq<u8> {
        self.header.encoding() + le_u32(self.flags) + le_u16(self.channel) + le_u16(self.reserved)
            + le_u64(self.latitude.0) + le_u64(self.longitude.0) + le_u64(self.altitude.0)
            + le_u64(self.speed.0) + le_u64(self.course.0)
    }

    /// Whether two objects agree in every field.
    pub open spec fn same(self, other: Self) -> bool {
        &&& self.header.same(other.header)
        &&& self.flags == other.flags
        &&& self.channel == other.channel
        &&& self.reserved == other.reserved
        &&& self.latitude == other.latitude
        &&& self.longitude == other.longitude
        &&& self.altitude == other.altitude
        &&& self.speed == other.speed
        &&& self.course == other.course
    }

    pub fn parse(bytes: &[u8], base: u64) -> (r: Result<Self>)
        requires
            offsets_fit(base, bytes.len(), 16),
        ensures
            match r {
                Ok(v) => {
                    &&& Self::failure(bytes@, base as int) is None
                    &&& v.reads(bytes@)
                    &&& v.header.valid()
                    &&& 80 <= v.header.base.object_size <= bytes.len()
                },
                Err(e) => Self::failure(bytes@, base as int) == Some(e@),
            },
    {
        let header = checked_object(bytes, base, Self::SIZE)?;
        Ok(
            GpsEvent {
                header,
                flags: read_u32(bytes, 32),
                channel: read_u16(bytes, 36),
                reserved: read_u16(bytes, 38),
                latitude: Float64::from_bits(read_u64(bytes, 40)),
                longitude: Float64::from_bits(read_u64(bytes, 48)),
                altitude: Float64::from_bits(read_u64(bytes, 56)),
                speed: Float64::from_bits(read_u64(bytes, 64)),
                course: Float64::from_bits(read_u64(bytes, 72)),
            },
        )
    }

    pub fn write_to(&self, out: &mut Vec<u8>)
        ensures
            final(out)@ == old(out)@ + self.encoding(),
    {
        self.header.write_to(out);
        put_u32(out, self.flags);
        put_u16(out, self.channel);
        put_u16(out, self.reserved);
        put_u64(out, self.latitude.bits());
        put_u64(out, self.longitude.bits());
        put_u64(out, self.altitude.bits());
        put_u64(out, self.speed.bits());
        put_u64(out, self.course.bits());
        proof {
            assert(out@ =~= old(out)@ + self.encoding());
        }
    }

    /// Whether the header fits the object, so that the bytes of the object can be read
    /// back.
    pub open spec fn canonical(self) -> bool {
        &&& self.header.plain()
        &&& self.header.base.object_size == 80
    }

    /// Reading the bytes of a canonical object gives back its fields.
    pub proof fn law_read_of_write(self, base: int)
        requires
            self.canonical(),
        ensures
            self.encoding().len() == 80,
            Self::failure(self.encoding(), base) is None,
            self.reads(self.encoding()),
    {
        let s = self.encoding();
        let c0 = self.header.encoding();
        let c1 = c0 + le_u32(self.flags);
        let c2 = c1 + le_u16(self.channel);
        let c3 = c2 + le_u16(self.reserved);
        let c4 = c3 + le_u64(self.latitude.0);
        let c5 = c4 + le_u64(self.longitude.0);
        let c6 = c5 + le_u64(self.altitude.0);
        let c7 = c6 + le_u64(self.speed.0);
        lemma_starts_with_self(s);
        lemma_field_u64(c7, self.course.0, s);
        lemma_field_u64(c6, self.speed.0, s);
        lemma_field_u64(c5, self.altitude.0, s);
        lemma_field_u64(c4, self.longitude.0, s);
        lemma_field_u64(c3, self.latitude.0, s);
        lemma_field_u16(c2, self.reserved, s);
        lemma_field_u16(c1, self.channel, s);
        lemma_field_u32(c0, self.flags, s);
        self.header.law_read_of_prefix(s, base);
    }

    /// Writing an object that was read gives back the bytes that it was read from.
    pub proof fn law_write_of_read(self, s: Seq<u8>)
        requires
            self.header.plain(),
            self.reads(s),
            s.len() == 80,
        ensures
            self.encoding() == s,
    {
        self.header.law_write_of_read(s);
        lemma_le_u32_at(s, 32);
        lemma_le_u16_at(s, 36);
        lemma_le_u16_at(s, 38);
        lemma_le_u64_at(s, 40);
        lemma_le_u64_at(s, 48);
        lemma_le_u64_at(s, 56);
        lemma_le_u64_at(s, 64);
        lemma_le_u64_at(s, 72);
        assert(self.encoding() =~= s);
    }

    /// The bytes of an object determine it.
    pub proof fn law_reads_unique(self, other: Self, s: Seq<u8>)
        requires
            self.reads(s),
            other.reads(s),
        ensures
            self.same(other),
    {
        self.header.law_reads_unique(other.header, s);
    }
}

/// Start of a data-loss interval.
#[derive(Debug, Clone, PartialEq, Eq)]
pub struct DataLostBegin {
    pub header: LObj,
    pub queue_identifier: u32,
}

impl DataLostBegin {
    pub const SIZE: usize = 36;

    /// How reading the object fails, if it does.
    pub open spec fn failure(s: Seq<u8>, base: int) -> Option<Failure> {
        object_failure(s, base, 36)
    }

    /// Whether the fields are those that stand in the bytes.
    pub open spec fn reads(self, s: Seq<u8>) -> bool {
        &&& self.header.reads(s)
        &&& self.queue_identifier == u32_at(s, 32)
    }

    /// The bytes of the object.
    pub open spec fn encoding(self) -> Seq<u8> {
        self.header.encoding() + le_u32(self.queue_identifier)
    }

    /// Whether two objects agree in every field.
    pub open spec fn same(self, other: Self) -> bool {
        &&& self.header.same(other.header)
        &&& self.queue_identifier == other.queue_identifier
    }

    pub fn parse(bytes: &[u8], base: u64) -> (r: Result<Self>)
        requires
            offsets_fit(base, bytes.len(), 16),
        ensures
            match r {
                Ok(v) => {
                    &&& Self::failure(bytes@, base as int) is None
                    &&& v.reads(bytes@)
                    &&& v.header.valid()
                    &&& 36 <= v.header.base.object_size <= bytes.len()
                },
                Err(e) => Self::failure(bytes@, base as int) == Some(e@),
            },
    {
        let header = checked_object(bytes, base, Self::SIZE)?;
        Ok(
            DataLostBegin {
                header,
                queue_identifier: read_u32(bytes, 32),
            },
        )
    }

    pub fn write_to(&self, out: &mut Vec<u8>)
        ensures
            final(out)@ == old(out)@ + self.encoding(),
    {
        self.header.write_to(out);
        put_u32(out, self.queue_identifier);
        proof {
            assert(out@ =~= old(out)@ + self.encoding());
        }
    }

    /// Whether the header fits the object, so that the bytes of the object can be read
    /// back.
    pub open spec fn canonical(self) -> bool {
        &&& self.header.plain()
        &&& self.header.base.object_size == 36
    }

    /// Reading the bytes of a canonical object gives back its fields.
    pub proof fn law_read_of_write(self, base: int)
        requires
            self.canonical(),
        ensures
            self.encoding().len() == 36,
            Self::failure(self.encoding(), base) is None,
            self.reads(self.encoding()),
    {
        let s = self.encoding();
        let c0 = self.header.encoding();
        lemma_starts_with_self(s);
        lemma_field_u32(c0, self.queue_identifier, s);
        self.header.law_read_of_prefix(s, base);
    }

    /// Writing an object that was read gives back the bytes that it was read from.
    pub proof fn law_write_of_read(self, s: Seq<u8>)
        requires
            self.header.plain(),
            self.reads(s),
            s.len() == 36,
        ensures
            self.encoding() == s,
    {
        self.header.law_write_of_read(s);
        lemma_le_u32_at(s, 32);
        assert(self.encoding() =~= s);
    }

    /// The bytes of an object determine it.
    pub proof fn law_reads_unique(self, other: Self, s: Seq<u8>)
        requires
            self.reads(s),
            other.reads(s),
        ensures
            self.same(other),
    {
        self.header.law_reads_unique(other.header, s);
    }
}

/// End of a data-loss interval.
#[derive(Debug, Clone, PartialEq, Eq)]
pub struct DataLostEnd {
    pub header: LObj,
    pub queue_identifier: u32,
    pub first_object_lost_timestamp: u64,
    pub number_of_lost_events: u32,
}

impl DataLostEnd {
    pub const SIZE: usize = 48;

    /// How reading the object fails, if it does.
    pub open spec fn failure(s: Seq<u8>, base: int) -> Option<Failure> {
        object_failure(s, base, 48)
    }

    /// Whether the fields are those that stand in the bytes.
    pub open spec fn reads(self, s: Seq<u8>) -> bool {
        &&& self.header.reads(s)
        &&& self.queue_identifier == u32_at(s, 32)
        &&& self.first_object_lost_timestamp == u64_at(s, 36)
        &&& self.number_of_lost_events == u32_at(s, 44)
    }

    /// The bytes of the object.
    pub open spec fn encoding(self) -> Seq<u8> {
        self.header.encoding() + le_u32(self.queue_identifier)
            + le_u64(self.first_object_lost_timestamp) + le_u32(self.number_of_lost_events)
    }

    /// Whether two objects agree in every field.
    pub open spec fn same(self, other: Self) -> bool {
        &&& self.header.same(other.header)
        &&& self.queue_identifier == other.queue_identifier
        &&& self.first_object_lost_timestamp == other.first_object_lost_timestamp
        &&& self.number_of_lost_events == other.number_of_lost_events
    }

    pub fn parse(bytes: &[u8], base: u64) -> (r: Result<Self>)
        requires
            offsets_fit(base, bytes.len(), 16),
        ensures
            match r {
                Ok(v) => {
                    &&& Self::failure(bytes@, base as int) is None
                    &&& v.reads(bytes@)
                    &&& v.header.valid()
                    &&& 48 <= v.header.base.object_size <= bytes.len()
                },
                Err(e) => Self::failure(bytes@, base as int) == Some(e@),
            },
    {
        let header = checked_object(bytes, base, Self::SIZE)?;
        Ok(
            DataLostEnd {
                header,
                queue_identifier: read_u32(bytes, 32),
                first_object_lost_timestamp: read_u64(bytes, 36),
                number_of_lost_events: read_u32(bytes, 44),
            },
        )
    }

    pub fn write_to(&self, out: &mut Vec<u8>)
        ensures
            final(out)@ == old(out)@ + self.encoding(),
    {
        self.header.write_to(out);
        put_u32(out, self.queue_identifier);
        put_u64(out, self.first_object_lost_timestamp);
        put_u32(out, self.number_of_lost_events);
        proof {
            assert(out@ =~= old(out)@ + self.encoding());
        }
    }

    /// Whether the header fits the object, so that the bytes of the object can be read
    /// back.
    pub open spec fn canonical(self) -> bool {
        &&& self.header.plain()
        &&& self.header.base.object_size == 48
    }

    /// Reading the bytes of a canonical object gives back its fields.
    pub proof fn law_read_of_write(self, base: int)
        requires
            self.canonical(),
        ensures
            self.encoding().len() == 48,
            Self::failure(self.encoding(), base) is None,
            self.reads(self.encoding()),
    {
        let s = self.encoding();
        let c0 = self.header.encoding();
        let c1 = c0 + le_u32(self.queue_identifier);
        let c2 = c1 + le_u64(self.first_object_lost_timestamp);
        lemma_starts_with_self(s);
        lemma_field_u32(c2, self.number_of_lost_events, s);
        lemma_field_u64(c1, self.first_object_lost_timestamp, s);
        lemma_field_u32(c0, self.queue_identifier, s);
        self.header.law_read_of_prefix(s, base);
    }

    /// Writing an object that was read gives back the bytes that it was read from.
    pub proof fn law_write_of_read(self, s: Seq<u8>)
        requires
            self.header.plain(),
            self.reads(s),
            s.len() == 48,
        ensures
            self.encoding() == s,
    {
        self.header.law_write_of_read(s);
        lemma_le_u32_at(s, 32);
        lemma_le_u64_at(s, 36);
        lemma_le_u32_at(s, 44);
        assert(self.encoding() =~= s);
    }

    /// The bytes of an object determine it.
    pub proof fn law_reads_unique(self, other: Self, s: Seq<u8>)
        requires
            self.reads(s),
            other.reads(s),
        ensures
            self.same(other),
    {
        self.header.law_reads_unique(other.header, s);
    }
}

/// Queue high/low watermark transition.
#[derive(Debug, Clone, PartialEq, Eq)]
pub struct WaterMarkEvent {
    pub header: LObj,
    pub queue_state: u32,
    pub reserved: u32,
}

impl WaterMarkEvent {
    pub const SIZE: usize = 40;

    /// How reading the object fails, if it does.
    pub open spec fn failure(s: Seq<u8>, base: int) -> Option<Failure> {
        object_failure(s, base, 40)
    }

    /// Whether the fields are those that stand in the bytes.
    pub open spec fn reads(self, s: Seq<u8>) -> bool {
        &&& self.header.reads(s)
        &&& self.queue_state == u32_at(s, 32)
        &&& self.reserved == u32_at(s, 36)
    }

    /// The bytes of the object.
    pub open spec fn encoding(self) -> Seq<u8> {
        self.header.encoding() + le_u32(self.queue_state) + le_u32(self.reserved)
    }

    /// Whether two objects agree in every field.
    pub open spec fn same(self, other: Self) -> bool {
        &&& self.header.same(other.header)
        &&& self.queue_state == other.queue_state
        &&& self.reserved == other.reserved
    }

    pub fn parse(bytes: &[u8], base: u64) -> (r: Result<Self>)
        requires
            offsets_fit(base, bytes.len(), 16),
        ensures
            match r {
                Ok(v) => {
                    &&& Self::failure(bytes@, base as int) is None
                    &&& v.reads(bytes@)
                    &&& v.header.valid()
                    &&& 40 <= v.header.base.object_size <= bytes.len()
                },
                Err(e) => Self::failure(bytes@, base as int) == Some(e@),
            },
    {
        let header = checked_object(bytes, base, Self::SIZE)?;
        Ok(
            WaterMarkEvent {
                header,
                queue_state: read_u32(bytes, 32),
                reserved: read_u32(bytes, 36),
            },
        )
    }

    pub fn write_to(&self, out: &mut Vec<u8>)
        ensures
            final(out)@ == old(out)@ + self.encoding(),
    {
        self.header.write_to(out);
        put_u32(out, self.queue_state);
        put_u32(out, self.reserved);
        proof {
            assert(out@ =~= old(out)@ + self.encoding());
        }
    }

    /// Whether the header fits the object, so that the bytes of the object can be read
    /// back.
    pub open spec fn canonical(self) -> bool {
        &&& self.header.plain()
        &&& self.header.base.object_size == 40
    }

    /// Reading the bytes of a canonical object gives back its fields.
    pub proof fn law_read_of_write(self, base: int)
        requires
            self.canonical(),
        ensures
            self.encoding().len() == 40,
            Self::failure(self.encoding(), base) is None,
            self.reads(self.encoding()),
    {
        let s = self.encoding();
        let c0 = self.header.encoding();
        let c1 = c0 + le_u32(self.queue_state);
        lemma_starts_with_self(s);
        lemma_field_u32(c1, self.reserved, s);
        lemma_field_u32(c0, self.queue_state, s);
        self.header.law_read_of_prefix(s, base);
    }

    /// Writing an object that was read gives back the bytes that it was read from.
    pub proof fn law_write_of_read(self, s: Seq<u8>)
        requires
            self.header.plain(),
            self.reads(s),
            s.len() == 40,
        ensures
            self.encoding() == s,
    {
        self.header.law_write_of_read(s);
        lemma_le_u32_at(s, 32);
        lemma_le_u32_at(s, 36);
        assert(self.encoding() =~= s);
    }

    /// The bytes of an object determine it.
    pub proof fn law_reads_unique(self, other: Self, s: Seq<u8>)
        requires
            self.reads(s),
            other.reads(s),
        ensures
            self.same(other),
    {
        self.header.law_reads_unique(other.header, s);
    }
}

/// A trigger block and its textual condition.
#[derive(Debug, Clone, PartialEq, Eq)]
pub struct TriggerCondition {
    pub header: LObj,
    pub state: u32,
    pub trigger_block_name: Vec<u8>,
    pub trigger_condition: Vec<u8>,
    pub trailing: Vec<u8>,
}

impl TriggerCondition {
    pub const FIXED_SIZE: usize = 44;

    /// How reading the object fails, if it does.
    pub open spec fn failure(s: Seq<u8>, base: int) -> Option<Failure> {
        if object_failure(s, base, 44) is Some {
            object_failure(s, base, 44)
        } else {
            lengths_failure(u32_at(s, 36) + u32_at(s, 40), u32_at(s, 8) - 44, base + 44)
        }
    }

    /// Whether the fields are those that stand in the bytes.
    pub open spec fn reads(self, s: Seq<u8>) -> bool {
        let end1 = 44 + u32_at(s, 36);
        let end2 = end1 + u32_at(s, 40);
        &&& self.header.reads(s)
        &&& self.state == u32_at(s, 32)
        &&& self.trigger_block_name@ == s.subrange(44, end1)
        &&& self.trigger_condition@ == s.subrange(end1, end2)
        &&& self.trailing@ == s.subrange(end2, u32_at(s, 8) as int)
    }

    /// Number of bytes of the object.
    pub open spec fn total(self) -> int {
        (44 + self.trigger_block_name@.len() + self.trigger_condition@.len() + self.trailing@.len()) as int
    }

    /// The bytes of the object.
    pub open spec fn encoding(self) -> Seq<u8> {
        self.header.sized_encoding(dynamic_size(self.total())) + le_u32(self.state)
            + le_u32(low32(self.trigger_block_name@.len() as int))
            + le_u32(low32(self.trigger_condition@.len() as int)) + self.trigger_block_name@
            + self.trigger_condition@ + self.trailing@
    }

    /// Whether two objects agree in every field.
    pub open spec fn same(self, other: Self) -> bool {
        &&& self.header.same(other.header)
        &&& self.state == other.state
        &&& self.trigger_block_name@ == other.trigger_block_name@
        &&& self.trigger_condition@ == other.trigger_condition@
        &&& self.trailing@ == other.trailing@
    }

    pub fn parse(bytes: &[u8], base: u64) -> (r: Result<Self>)
        requires
            offsets_fit(base, bytes.len(), 44),
        ensures
            match r {
                Ok(v) => {
                    &&& Self::failure(bytes@, base as int) is None
                    &&& v.reads(bytes@)
                    &&& v.header.valid()
                    &&& 44 <= v.header.base.object_size <= bytes.len()
                },
                Err(e) => Self::failure(bytes@, base as int) == Some(e@),
            },
    {
        let header = checked_object(bytes, base, Self::FIXED_SIZE)?;
        let object_size: usize = header.base.object_size as usize;
        let trigger_block_name_length: u32 = read_u32(bytes, 36);
        let trigger_condition_length: u32 = read_u32(bytes, 40);
        let total: u64 = trigger_block_name_length as u64 + trigger_condition_length as u64;
        check_lengths(total, object_size - Self::FIXED_SIZE, base + Self::FIXED_SIZE as u64)?;
        let end1: usize = Self::FIXED_SIZE + trigger_block_name_length as usize;
        let end2: usize = end1 + trigger_condition_length as usize;
        Ok(
            TriggerCondition {
                header,
                state: read_u32(bytes, 32),
                trigger_block_name: read_bytes(bytes, Self::FIXED_SIZE, end1),
                trigger_condition: read_bytes(bytes, end1, end2),
                trailing: read_bytes(bytes, end2, object_size),
            },
        )
    }

    pub fn write_to(&self, out: &mut Vec<u8>)
        ensures
            final(out)@ == old(out)@ + self.encoding(),
    {
        let mut size: usize = Self::FIXED_SIZE;
        size = size.saturating_add(self.trigger_block_name.len());
        size = size.saturating_add(self.trigger_condition.len());
        size = size.saturating_add(self.trailing.len());
        self.header.write_sized(low_u32(size), out);
        put_u32(out, self.state);
        put_u32(out, low_u32(self.trigger_block_name.len()));
        put_u32(out, low_u32(self.trigger_condition.len()));
        put_bytes(out, &self.trigger_block_name);
        put_bytes(out, &self.trigger_condition);
        put_bytes(out, &self.trailing);
        proof {
            assert(out@ =~= old(out)@ + self.encoding());
        }
    }

    /// Whether the header fits the object, so that the bytes of the object can be read
    /// back.
    pub open spec fn canonical(self) -> bool {
        &&& self.header.plain()
        &&& self.header.base.object_size == self.total()
    }

    /// Reading the bytes of a canonical object gives back its fields.
    pub proof fn law_read_of_write(self, base: int)
        requires
            self.canonical(),
        ensures
            self.encoding().len() == self.total(),
            Self::failure(self.encoding(), base) is None,
            self.reads(self.encoding()),
    {
        let s = self.encoding();
        lemma_low32(self.total());
        lemma_low32(self.trigger_block_name@.len() as int);
        lemma_low32(self.trigger_condition@.len() as int);
        let c0 = self.header.encoding();
        let c1 = c0 + le_u32(self.state);
        let c2 = c1 + le_u32(low32(self.trigger_block_name@.len() as int));
        let c3 = c2 + le_u32(low32(self.trigger_condition@.len() as int));
        let c4 = c3 + self.trigger_block_name@;
        let c5 = c4 + self.trigger_condition@;
        lemma_starts_with_self(s);
        lemma_field_bytes(c5, self.trailing@, s);
        lemma_field_bytes(c4, self.trigger_condition@, s);
        lemma_field_bytes(c3, self.trigger_block_name@, s);
        lemma_field_u32(c2, low32(self.trigger_condition@.len() as int), s);
        lemma_field_u32(c1, low32(self.trigger_block_name@.len() as int), s);
        lemma_field_u32(c0, self.state, s);
        self.header.law_read_of_prefix(s, base);
    }

    /// Writing an object that was read gives back the bytes that it was read from.
    pub proof fn law_write_of_read(self, s: Seq<u8>)
        requires
            self.header.plain(),
            self.reads(s),
            s.len() == self.header.base.object_size,
            Self::failure(s, 0) is None,
            s.len() >= 44,
        ensures
            self.encoding() == s,
    {
        self.header.law_write_of_read(s);
        lemma_low32(self.total());
        lemma_low32(self.trigger_block_name@.len() as int);
        lemma_low32(self.trigger_condition@.len() as int);
        lemma_le_u32_at(s, 32);
        lemma_le_u32_at(s, 36);
        lemma_le_u32_at(s, 40);
        assert(self.encoding() =~= s);
    }

    /// The bytes of an object determine it.
    pub proof fn law_reads_unique(self, other: Self, s: Seq<u8>)
        requires
            self.reads(s),
            other.reads(s),
        ensures
            self.same(other),
    {
        self.header.law_reads_unique(other.header, s);
    }
}

/// A distributed-object member value.
#[derive(Debug, Clone, PartialEq, Eq)]
pub struct DistributedObjectMember {
    pub header: LObj,
    pub member_type: u32,
    pub detail_type: u32,
    pub path: Vec<u8>,
    pub data: Vec<u8>,
    pub trailing: Vec<u8>,
}

impl DistributedObjectMember {
    pub const FIXED_SIZE: usize = 48;

    /// How reading the object fails, if it does.
    pub open spec fn failure(s: Seq<u8>, base: int) -> Option<Failure> {
        if object_failure(s, base, 48) is Some {
            object_failure(s, base, 48)
        } else {
            lengths_failure(u32_at(s, 40) + u32_at(s, 44), u32_at(s, 8) - 48, base + 48)
        }
    }

    /// Whether the fields are those that stand in the bytes.
    pub open spec fn reads(self, s: Seq<u8>) -> bool {
        let end1 = 48 + u32_at(s, 40);
        let end2 = end1 + u32_at(s, 44);
        &&& self.header.reads(s)
        &&& self.member_type == u32_at(s, 32)
        &&& self.detail_type == u32_at(s, 36)
        &&& self.path@ == s.subrange(48, end1)
        &&& self.data@ == s.subrange(end1, end2)
        &&& self.trailing@ == s.subrange(end2, u32_at(s, 8) as int)
    }

    /// Number of bytes of the object.
    pub open spec fn total(self) -> int {
        (48 + self.path@.len() + self.data@.len() + self.trailing@.len()) as int
    }

    /// The bytes of the object.
    pub open spec fn encoding(self) -> Seq<u8> {
        self.header.sized_encoding(dynamic_size(self.total())) + le_u32(self.member_type)
            + le_u32(self.detail_type) + le_u32(low32(self.path@.len() as int))
            + le_u32(low32(self.data@.len() as int)) + self.path@ + self.data@ + self.trailing@
    }

    /// Whether two objects agree in every field.
    pub open spec fn same(self, other: Self) -> bool {
        &&& self.header.same(other.header)
        &&& self.member_type == other.member_type
        &&& self.detail_type == other.detail_type
        &&& self.path@ == other.path@
        &&& self.data@ == other.data@
        &&& self.trailing@ == other.trailing@
    }

    pub fn parse(bytes: &[u8], base: u64) -> (r: Result<Self>)
        requires
            offsets_fit(base, bytes.len(), 48),
        ensures
            match r {
                Ok(v) => {
                    &&& Self::failure(bytes@, base as int) is None
                    &&& v.reads(bytes@)
                    &&& v.header.valid()
                    &&& 48 <= v.header.base.object_size <= bytes.len()
                },
                Err(e) => Self::failure(bytes@, base as int) == Some(e@),
            },
    {
        let header = checked_object(bytes, base, Self::FIXED_SIZE)?;
        let object_size: usize = header.base.object_size as usize;
        let path_length: u32 = read_u32(bytes, 40);
        let data_length: u32 = read_u32(bytes, 44);
        let total: u64 = path_length as u64 + data_length as u64;
        check_lengths(total, object_size - Self::FIXED_SIZE, base + Self::FIXED_SIZE as u64)?;
        let end1: usize = Self::FIXED_SIZE + path_length as usize;
        let end2: usize = end1 + data_length as usize;
        Ok(
            DistributedObjectMember {
                header,
                member_type: read_u32(bytes, 32),
                detail_type: read_u32(bytes, 36),
                path: read_bytes(bytes, Self::FIXED_SIZE, end1),
                data: read_bytes(bytes, end1, end2),
                trailing: read_bytes(bytes, end2, object_size),
            },
        )
    }

    pub fn write_to(&self, out: &mut Vec<u8>)
        ensures
            final(out)@ == old(out)@ + self.encoding(),
    {
        let mut size: usize = Self::FIXED_SIZE;
        size = size.saturating_add(self.path.len());
        size = size.saturating_add(self.data.len());
        size = size.saturating_add(self.trailing.len());
        self.header.write_sized(low_u32(size), out);
        put_u32(out, self.member_type);
        put_u32(out, self.detail_type);
        put_u32(out, low_u32(self.path.len()));
        put_u32(out, low_u32(self.data.len()));
        put_bytes(out, &self.path);
        put_bytes(out, &self.data);
        put_bytes(out, &self.trailing);
        proof {
            assert(out@ =~= old(out)@ + self.encoding());
        }
    }

    /// Whether the header fits the object, so that the bytes of the object can be read
    /// back.
    pub open spec fn canonical(self) -> bool {
        &&& self.header.plain()
        &&& self.header.base.object_size == self.total()
    }

    /// Reading the bytes of a canonical object gives back its fields.
    pub proof fn law_read_of_write(self, base: int)
        requires
            self.canonical(),
        ensures
            self.encoding().len() == self.total(),
            Self::failure(self.encoding(), base) is None,
            self.reads(self.encoding()),
    {
        let s = self.encoding();
        lemma_low32(self.total());
        lemma_low32(self.path@.len() as int);
        lemma_low32(self.data@.len() as int);
        let c0 = self.header.encoding();
        let c1 = c0 + le_u32(self.member_type);
        let c2 = c1 + le_u32(self.detail_type);
        let c3 = c2 + le_u32(low32(self.path@.len() as int));
        let c4 = c3 + le_u32(low32(self.data@.len() as int));
        let c5 = c4 + self.path@;
        let c6 = c5 + self.data@;
        lemma_starts_with_self(s);
        lemma_field_bytes(c6, self.trailing@, s);
        lemma_field_bytes(c5, self.data@, s);
        lemma_field_bytes(c4, self.path@, s);
        lemma_field_u32(c3, low32(self.data@.len() as int), s);
        lemma_field_u32(c2, low32(self.path@.len() as int), s);
        lemma_field_u32(c1, self.detail_type, s);
        lemma_field_u32(c0, self.member_type, s);
        self.header.law_read_of_prefix(s, base);
    }

    /// Writing an object that was read gives back the bytes that it was read from.
    pub proof fn law_write_of_read(self, s: Seq<u8>)
        requires
            self.header.plain(),
            self.reads(s),
            s.len() == self.header.base.object_size,
            Self::failure(s, 0) is None,
            s.len() >= 48,
        ensures
            self.encoding() == s,
    {
        self.header.law_write_of_read(s);
        lemma_low32(self.total());
        lemma_low32(self.path@.len() as int);
        lemma_low32(self.data@.len() as int);
        lemma_le_u32_at(s, 32);
        lemma_le_u32_at(s, 36);
        lemma_le_u32_at(s, 40);
        lemma_le_u32_at(s, 44);
        assert(self.encoding() =~= s);
    }

    /// The bytes of an object determine it.
    pub proof fn law_reads_unique(self, other: Self, s: Seq<u8>)
        requires
            self.reads(s),
            other.reads(s),
        ensures
            self.same(other),
    {
        self.header.law_reads_unique(other.header, s);
    }
}

/// An attribute update for an attributable object member.
#[derive(Debug, Clone, PartialEq, Eq)]
pub struct AttributeEvent {
    pub header: LObj,
    pub main_object_path: Vec<u8>,
    pub member_path: Vec<u8>,
    pub attribute_definition_path: Vec<u8>,
    pub data: Vec<u8>,
    pub trailing: Vec<u8>,
}

impl AttributeEvent {
    pub const FIXED_SIZE: usize = 48;

    /// How reading the object fails, if it does.
    pub open spec fn failure(s: Seq<u8>, base: int) -> Option<Failure> {
        if object_failure(s, base, 48) is Some {
            object_failure(s, base, 48)
        } else {
            lengths_failure(
                u32_at(s, 32) + u32_at(s, 36) + u32_at(s, 40) + u32_at(s, 44),
                u32_at(s, 8) - 48,
                base + 48
            )
        }
    }

    /// Whether the fields are those that stand in the bytes.
    pub open spec fn reads(self, s: Seq<u8>) -> bool {
        let end1 = 48 + u32_at(s, 32);
        let end2 = end1 + u32_at(s, 36);
        let end3 = end2 + u32_at(s, 40);
        let end4 = end3 + u32_at(s, 44);
        &&& self.header.reads(s)
        &&& self.main_object_path@ == s.subrange(48, end1)
        &&& self.member_path@ == s.subrange(end1, end2)
        &&& self.attribute_definition_path@ == s.subrange(end2, end3)
        &&& self.data@ == s.subrange(end3, end4)
        &&& self.trailing@ == s.subrange(end4, u32_at(s, 8) as int)
    }

    /// Number of bytes of the object.
    pub open spec fn total(self) -> int {
        (
            48 + self.main_object_path@.len() + self.member_path@.len() + self.attribute_definition_path@.len() + self.data@.len() + self.trailing@.len()
        ) as int
    }

    /// The bytes of the object.
    pub open spec fn encoding(self) -> Seq<u8> {
        self.header.sized_encoding(dynamic_size(self.total()))
            + le_u32(low32(self.main_object_path@.len() as int))
            + le_u32(low32(self.member_path@.len() as int))
            + le_u32(low32(self.attribute_definition_path@.len() as int))
            + le_u32(low32(self.data@.len() as int)) + self.main_object_path@ + self.member_path@
            + self.attribute_definition_path@ + self.data@ + self.trailing@
    }

    /// Whether two objects agree in every field.
    pub open spec fn same(self, other: Self) -> bool {
        &&& self.header.same(other.header)
        &&& self.main_object_path@ == other.main_object_path@
        &&& self.member_path@ == other.member_path@
        &&& self.attribute_definition_path@ == other.attribute_definition_path@
        &&& self.data@ == other.data@
        &&& self.trailing@ == other.trailing@
    }

    pub fn parse(bytes: &[u8], base: u64) -> (r: Result<Self>)
        requires
            offsets_fit(base, bytes.len(), 48),
        ensures
            match r {
                Ok(v) => {
                    &&& Self::failure(bytes@, base as int) is None
                    &&& v.reads(bytes@)
                    &&& v.header.valid()
                    &&& 48 <= v.header.base.object_size <= bytes.len()
                },
                Err(e) => Self::failure(bytes@, base as int) == Some(e@),
            },
    {
        let header = checked_object(bytes, base, Self::FIXED_SIZE)?;
        let object_size: usize = header.base.object_size as usize;
        let main_object_path_length: u32 = read_u32(bytes, 32);
        let member_path_length: u32 = read_u32(bytes, 36);
        let attribute_definition_path_length: u32 = read_u32(bytes, 40);
        let data_length: u32 = read_u32(bytes, 44);
        let total: u64 = main_object_path_length as u64 + member_path_length as u64 + attribute_definition_path_length as u64 + data_length as u64;
        check_lengths(total, object_size - Self::FIXED_SIZE, base + Self::FIXED_SIZE as u64)?;
        let end1: usize = Self::FIXED_SIZE + main_object_path_length as usize;
        let end2: usize = end1 + member_path_length as usize;
        let end3: usize = end2 + attribute_definition_path_length as usize;
        let end4: usize = end3 + data_length as usize;
        Ok(
            AttributeEvent {
                header,
                main_object_path: read_bytes(bytes, Self::FIXED_SIZE, end1),
                member_path: read_bytes(bytes, end1, end2),
                attribute_definition_path: read_bytes(bytes, end2, end3),
                data: read_bytes(bytes, end3, end4),
                trailing: read_bytes(bytes, end4, object_size),
            },
        )
    }

    pub fn write_to(&self, out: &mut Vec<u8>)
        ensures
            final(out)@ == old(out)@ + self.encoding(),
    {
        let mut size: usize = Self::FIXED_SIZE;
        size = size.saturating_add(self.main_object_path.len());
        size = size.saturating_add(self.member_path.len());
        size = size.saturating_add(self.attribute_definition_path.len());
        size = size.saturating_add(self.data.len());
        size = size.saturating_add(self.trailing.len());
        self.header.write_sized(low_u32(size), out);
        put_u32(out, low_u32(self.main_object_path.len()));
        put_u32(out, low_u32(self.member_path.len()));
        put_u32(out, low_u32(self.attribute_definition_path.len()));
        put_u32(out, low_u32(self.data.len()));
        put_bytes(out, &self.main_object_path);
        put_bytes(out, &self.member_path);
        put_bytes(out, &self.attribute_definition_path);
        put_bytes(out, &self.data);
        put_bytes(out, &self.trailing);
        proof {
            assert(out@ =~= old(out)@ + self.encoding());
        }
    }

    /// Whether the header fits the object, so that the bytes of the object can be read
    /// back.
    pub open spec fn canonical(self) -> bool {
        &&& self.header.plain()
        &&& self.header.base.object_size == self.total()
    }

    /// Reading the bytes of a canonical object gives back its fields.
    pub proof fn law_read_of_write(self, base: int)
        requires
            self.canonical(),
        ensures
            self.encoding().len() == self.total(),
            Self::failure(self.encoding(), base) is None,
            self.reads(self.encoding()),
    {
        let s = self.encoding();
        lemma_low32(self.total());
        lemma_low32(self.main_object_path@.len() as int);
        lemma_low32(self.member_path@.len() as int);
        lemma_low32(self.attribute_definition_path@.len() as int);
        lemma_low32(self.data@.len() as int);
        let c0 = self.header.encoding();
        let c1 = c0 + le_u32(low32(self.main_object_path@.len() as int));
        let c2 = c1 + le_u32(low32(self.member_path@.len() as int));
        let c3 = c2 + le_u32(low32(self.attribute_definition_path@.len() as int));
        let c4 = c3 + le_u32(low32(self.data@.len() as int));
        let c5 = c4 + self.main_object_path@;
        let c6 = c5 + self.member_path@;
        let c7 = c6 + self.attribute_definition_path@;
        let c8 = c7 + self.data@;
        lemma_starts_with_self(s);
        lemma_field_bytes(c8, self.trailing@, s);
        lemma_field_bytes(c7, self.data@, s);
        lemma_field_bytes(c6, self.attribute_definition_path@, s);
        lemma_field_bytes(c5, self.member_path@, s);
        lemma_field_bytes(c4, self.main_object_path@, s);
        lemma_field_u32(c3, low32(self.data@.len() as int), s);
        lemma_field_u32(c2, low32(self.attribute_definition_path@.len() as int), s);
        lemma_field_u32(c1, low32(self.member_path@.len() as int), s);
        lemma_field_u32(c0, low32(self.main_object_path@.len() as int), s);
        self.header.law_read_of_prefix(s, base);
    }

    /// Writing an object that was read gives back the bytes that it was read from.
    pub proof fn law_write_of_read(self, s: Seq<u8>)
        requires
            self.header.plain(),
            self.reads(s),
            s.len() == self.header.base.object_size,
            Self::failure(s, 0) is None,
            s.len() >= 48,
        ensures
            self.encoding() == s,
    {
        self.header.law_write_of_read(s);
        lemma_low32(self.total());
        lemma_low32(self.main_object_path@.len() as int);
        lemma_low32(self.member_path@.len() as int);
        lemma_low32(self.attribute_definition_path@.len() as int);
        lemma_low32(self.data@.len() as int);
        lemma_le_u32_at(s, 32);
        lemma_le_u32_at(s, 36);
        lemma_le_u32_at(s, 40);
        lemma_le_u32_at(s, 44);
        assert(self.encoding() =~= s);
    }

    /// The bytes of an object determine it.
    pub proof fn law_reads_unique(self, other: Self, s: Seq<u8>)
        requires
            self.reads(s),
            other.reads(s),
        ensures
            self.same(other),
    {
        self.header.law_reads_unique(other.header, s);
    }
}

/// A function-bus object and its opaque value data.
#[derive(Debug, Clone, PartialEq, Eq)]
pub struct FunctionBus {
    pub header: LObj,
    pub function_bus_object_type: u32,
    pub value_entity_type: u32,
    pub name: Vec<u8>,
    pub data: Vec<u8>,
    pub trailing: Vec<u8>,
}

impl FunctionBus {
    pub const FIXED_SIZE: usize = 48;

    /// How reading the object fails, if it does.
    pub open spec fn failure(s: Seq<u8>, base: int) -> Option<Failure> {
        if object_failure(s, base, 48) is Some {
            object_failure(s, base, 48)
        } else {
            lengths_failure(u32_at(s, 40) + u32_at(s, 44), u32_at(s, 8) - 48, base + 48)
        }
    }

    /// Whether the fields are those that stand in the bytes.
    pub open spec fn reads(self, s: Seq<u8>) -> bool {
        let end1 = 48 + u32_at(s, 40);
        let end2 = end1 + u32_at(s, 44);
        &&& self.header.reads(s)
        &&& self.function_bus_object_type == u32_at(s, 32)
        &&& self.value_entity_type == u32_at(s, 36)
        &&& self.name@ == s.subrange(48, end1)
        &&& self.data@ == s.subrange(end1, end2)
        &&& self.trailing@ == s.subrange(end2, u32_at(s, 8) as int)
    }

    /// Number of bytes of the object.
    pub open spec fn total(self) -> int {
        (48 + self.name@.len() + self.data@.len() + self.trailing@.len()) as int
    }

    /// The bytes of the object.
    pub open spec fn encoding(self) -> Seq<u8> {
        self.header.sized_encoding(dynamic_size(self.total()))
            + le_u32(self.function_bus_object_type) + le_u32(self.value_entity_type)
            + le_u32(low32(self.name@.len() as int)) + le_u32(low32(self.data@.len() as int))
            + self.name@ + self.data@ + self.trailing@
    }

    /// Whether two objects agree in every field.
    pub open spec fn same(self, other: Self) -> bool {
        &&& self.header.same(other.header)
        &&& self.function_bus_object_type == other.function_bus_object_type
        &&& self.value_entity_type == other.value_entity_type
        &&& self.name@ == other.name@
        &&& self.data@ == other.data@
        &&& self.trailing@ == other.trailing@
    }

    pub fn parse(bytes: &[u8], base: u64) -> (r: Result<Self>)
        requires
            offsets_fit(base, bytes.len(), 48),
        ensures
            match r {
                Ok(v) => {
                    &&& Self::failure(bytes@, base as int) is None
                    &&& v.reads(bytes@)
                    &&& v.header.valid()
                    &&& 48 <= v.header.base.object_size <= bytes.len()
                },
                Err(e) => Self::failure(bytes@, base as int) == Some(e@),
            },
    {
        let header = checked_object(bytes, base, Self::FIXED_SIZE)?;
        let object_size: usize = header.base.object_size as usize;
        let name_length: u32 = read_u32(bytes, 40);
        let data_length: u32 = read_u32(bytes, 44);
        let total: u64 = name_length as u64 + data_length as u64;
        check_lengths(total, object_size - Self::FIXED_SIZE, base + Self::FIXED_SIZE as u64)?;
        let end1: usize = Self::FIXED_SIZE + name_length as usize;
        let end2: usize = end1 + data_length as usize;
        Ok(
            FunctionBus {
                header,
                function_bus_object_type: read_u32(bytes, 32),
                value_entity_type: read_u32(bytes, 36),
                name: read_bytes(bytes, Self::FIXED_SIZE, end1),
                data: read_bytes(bytes, end1, end2),
                trailing: read_bytes(bytes, end2, object_size),
            },
        )
    }

    pub fn write_to(&self, out: &mut Vec<u8>)
        ensures
            final(out)@ == old(out)@ + self.encoding(),
    {
        let mut size: usize = Self::FIXED_SIZE;
        size = size.saturating_add(self.name.len());
        size = size.saturating_add(self.data.len());
        size = size.saturating_add(self.trailing.len());
        self.header.write_sized(low_u32(size), out);
        put_u32(out, self.function_bus_object_type);
        put_u32(out, self.value_entity_type);
        put_u32(out, low_u32(self.name.len()));
        put_u32(out, low_u32(self.data.len()));
        put_bytes(out, &self.name);
        put_bytes(out, &self.data);
        put_bytes(out, &self.trailing);
        proof {
            assert(out@ =~= old(out)@ + self.encoding());
        }
    }

    /// Whether the header fits the object, so that the bytes of the object can be read
    /// back.
    pub open spec fn canonical(self) -> bool {
        &&& self.header.plain()
        &&& self.header.base.object_size == self.total()
    }

    /// Reading the bytes of a canonical object gives back its fields.
    pub proof fn law_read_of_write(self, base: int)
        requires
            self.canonical(),
        ensures
            self.encoding().len() == self.total(),
            Self::failure(self.encoding(), base) is None,
            self.reads(self.encoding()),
    {
        let s = self.encoding();
        lemma_low32(self.total());
        lemma_low32(self.name@.len() as int);
        lemma_low32(self.data@.len() as int);
        let c0 = self.header.encoding();
        let c1 = c0 + le_u32(self.function_bus_object_type);
        let c2 = c1 + le_u32(self.value_entity_type);
        let c3 = c2 + le_u32(low32(self.name@.len() as int));
        let c4 = c3 + le_u32(low32(self.data@.len() as int));
        let c5 = c4 + self.name@;
        let c6 = c5 + self.data@;
        lemma_starts_with_self(s);
        lemma_field_bytes(c6, self.trailing@, s);
        lemma_field_bytes(c5, self.data@, s);
        lemma_field_bytes(c4, self.name@, s);
        lemma_field_u32(c3, low32(self.data@.len() as int), s);
        lemma_field_u32(c2, low32(self.name@.len() as int), s);
        lemma_field_u32(c1, self.value_entity_type, s);
        lemma_field_u32(c0, self.function_bus_object_type, s);
        self.header.law_read_of_prefix(s, base);
    }

    /// Writing an object that was read gives back the bytes that it was read from.
    pub proof fn law_write_of_read(self, s: Seq<u8>)
        requires
            self.header.plain(),
            self.reads(s),
            s.len() == self.header.base.object_size,
            Self::failure(s, 0) is None,
            s.len() >= 48,
        ensures
            self.encoding() == s,
    {
        self.header.law_write_of_read(s);
        lemma_low32(self.total());
        lemma_low32(self.name@.len() as int);
        lemma_low32(self.data@.len() as int);
        lemma_le_u32_at(s, 32);
        lemma_le_u32_at(s, 36);
        lemma_le_u32_at(s, 40);
        lemma_le_u32_at(s, 44);
        assert(self.encoding() =~= s);
    }

    /// The bytes of an object determine it.
    pub proof fn law_reads_unique(self, other: Self, s: Seq<u8>)
        requires
            self.reads(s),
            other.reads(s),
        ensures
            self.same(other),
    {
        self.header.law_reads_unique(other.header, s);
    }
}

/// Diagnostic request interpretation and qualifier strings.
#[derive(Debug, Clone, PartialEq, Eq)]
pub struct DiagRequestInterpretation {
    pub header: LObj,
    pub description_handle: u32,
    pub variant_handle: u32,
    pub service_handle: u32,
    pub ecu_qualifier: Vec<u8>,
    pub variant_qualifier: Vec<u8>,
    pub service_qualifier: Vec<u8>,
    pub trailing: Vec<u8>,
}

impl DiagRequestInterpretation {
    pub const FIXED_SIZE: usize = 56;

    /// How reading the object fails, if it does.
    pub open spec fn failure(s: Seq<u8>, base: int) -> Option<Failure> {
        if object_failure(s, base, 56) is Some {
            object_failure(s, base, 56)
        } else {
            lengths_failure(u32_at(s, 44) + u32_at(s, 48) + u32_at(s, 52), u32_at(s, 8) - 56, base + 56)
        }
    }

    /// Whether the fields are those that stand in the bytes.
    pub open spec fn reads(self, s: Seq<u8>) -> bool {
        let end1 = 56 + u32_at(s, 44);
        let end2 = end1 + u32_at(s, 48);
        let end3 = end2 + u32_at(s, 52);
        &&& self.header.reads(s)
        &&& self.description_handle == u32_at(s, 32)
        &&& self.variant_handle == u32_at(s, 36)
        &&& self.service_handle == u32_at(s, 40)
        &&& self.ecu_qualifier@ == s.subrange(56, end1)
        &&& self.variant_qualifier@ == s.subrange(end1, end2)
        &&& self.service_qualifier@ == s.subrange(end2, end3)
        &&& self.trailing@ == s.subrange(end3, u32_at(s, 8) as int)
    }

    /// Number of bytes of the object.
    pub open spec fn total(self) -> int {
        (
            56 + self.ecu_qualifier@.len() + self.variant_qualifier@.len() + self.service_qualifier@.len() + self.trailing@.len()
        ) as int
    }

    /// The bytes of the object.
    pub open spec fn encoding(self) -> Seq<u8> {
        self.header.sized_encoding(dynamic_size(self.total())) + le_u32(self.description_handle)
            + le_u32(self.variant_handle) + le_u32(self.service_handle)
            + le_u32(low32(self.ecu_qualifier@.len() as int))
            + le_u32(low32(self.variant_qualifier@.len() as int))
            + le_u32(low32(self.service_qualifier@.len() as int)) + self.ecu_qualifier@
            + self.variant_qualifier@ + self.service_qualifier@ + self.trailing@
    }

    /// Whether two objects agree in every field.
    pub open spec fn same(self, other: Self) -> bool {
        &&& self.header.same(other.header)
        &&& self.description_handle == other.description_handle
        &&& self.variant_handle == other.variant_handle
        &&& self.service_handle == other.service_handle
        &&& self.ecu_qualifier@ == other.ecu_qualifier@
        &&& self.variant_qualifier@ == other.variant_qualifier@
        &&& self.service_qualifier@ == other.service_qualifier@
        &&& self.trailing@ == other.trailing@
    }

    pub fn parse(bytes: &[u8], base: u64) -> (r: Result<Self>)
        requires
            offsets_fit(base, bytes.len(), 56),
        ensures
            match r {
                Ok(v) => {
                    &&& Self::failure(bytes@, base as int) is None
                    &&& v.reads(bytes@)
                    &&& v.header.valid()
                    &&& 56 <= v.header.base.object_size <= bytes.len()
                },
                Err(e) => Self::failure(bytes@, base as int) == Some(e@),
            },
    {
        let header = checked_object(bytes, base, Self::FIXED_SIZE)?;
        let object_size: usize = header.base.object_size as usize;
        let ecu_qualifier_length: u32 = read_u32(bytes, 44);
        let variant_qualifier_length: u32 = read_u32(bytes, 48);
        let service_qualifier_length: u32 = read_u32(bytes, 52);
        let total: u64 = ecu_qualifier_length as u64 + variant_qualifier_length as u64 + service_qualifier_length as u64;
        check_lengths(total, object_size - Self::FIXED_SIZE, base + Self::FIXED_SIZE as u64)?;
        let end1: usize = Self::FIXED_SIZE + ecu_qualifier_length as usize;
        let end2: usize = end1 + variant_qualifier_length as usize;
        let end3: usize = end2 + service_qualifier_length as usize;
        Ok(
            DiagRequestInterpretation {
                header,
                description_handle: read_u32(bytes, 32),
                variant_handle: read_u32(bytes, 36),
                service_handle: read_u32(bytes, 40),
                ecu_qualifier: read_bytes(bytes, Self::FIXED_SIZE, end1),
                variant_qualifier: read_bytes(bytes, end1, end2),
                service_qualifier: read_bytes(bytes, end2, end3),
                trailing: read_bytes(bytes, end3, object_size),
            },
        )
    }

    pub fn write_to(&self, out: &mut Vec<u8>)
        ensures
            final(out)@ == old(out)@ + self.encoding(),
    {
        let mut size: usize = Self::FIXED_SIZE;
        size = size.saturating_add(self.ecu_qualifier.len());
        size = size.saturating_add(self.variant_qualifier.len());
        size = size.saturating_add(self.service_qualifier.len());
        size = size.saturating_add(self.trailing.len());
        self.header.write_sized(low_u32(size), out);
        put_u32(out, self.description_handle);
        put_u32(out, self.variant_handle);
        put_u32(out, self.service_handle);
        put_u32(out, low_u32(self.ecu_qualifier.len()));
        put_u32(out, low_u32(self.variant_qualifier.len()));
        put_u32(out, low_u32(self.service_qualifier.len()));
        put_bytes(out, &self.ecu_qualifier);
        put_bytes(out, &self.variant_qualifier);
        put_bytes(out, &self.service_qualifier);
        put_bytes(out, &self.trailing);
        proof {
            assert(out@ =~= old(out)@ + self.encoding());
        }
    }

    /// Whether the header fits the object, so that the bytes of the object can be read
    /// back.
    pub open spec fn canonical(self) -> bool {
        &&& self.header.plain()
        &&& self.header.base.object_size == self.total()
    }

    /// Reading the bytes of a canonical object gives back its fields.
    pub proof fn law_read_of_write(self, base: int)
        requires
            self.canonical(),
        ensures
            self.encoding().len() == self.total(),
            Self::failure(self.encoding(), base) is None,
            self.reads(self.encoding()),
    {
        let s = self.encoding();
        lemma_low32(self.total());
        lemma_low32(self.ecu_qualifier@.len() as int);
        lemma_low32(self.variant_qualifier@.len() as int);
        lemma_low32(self.service_qualifier@.len() as int);
        let c0 = self.header.encoding();
        let c1 = c0 + le_u32(self.description_handle);
        let c2 = c1 + le_u32(self.variant_handle);
        let c3 = c2 + le_u32(self.service_handle);
        let c4 = c3 + le_u32(low32(self.ecu_qualifier@.len() as int));
        let c5 = c4 + le_u32(low32(self.variant_qualifier@.len() as int));
        let c6 = c5 + le_u32(low32(self.service_qualifier@.len() as int));
        let c7 = c6 + self.ecu_qualifier@;
        let c8 = c7 + self.variant_qualifier@;
        let c9 = c8 + self.service_qualifier@;
        lemma_starts_with_self(s);
        lemma_field_bytes(c9, self.trailing@, s);
        lemma_field_bytes(c8, self.service_qualifier@, s);
        lemma_field_bytes(c7, self.variant_qualifier@, s);
        lemma_field_bytes(c6, self.ecu_qualifier@, s);
        lemma_field_u32(c5, low32(self.service_qualifier@.len() as int), s);
        lemma_field_u32(c4, low32(self.variant_qualifier@.len() as int), s);
        lemma_field_u32(c3, low32(self.ecu_qualifier@.len() as int), s);
        lemma_field_u32(c2, self.service_handle, s);
        lemma_field_u32(c1, self.variant_handle, s);
        lemma_field_u32(c0, self.description_handle, s);
        self.header.law_read_of_prefix(s, base);
    }

    /// Writing an object that was read gives back the bytes that it was read from.
    pub proof fn law_write_of_read(self, s: Seq<u8>)
        requires
            self.header.plain(),
            self.reads(s),
            s.len() == self.header.base.object_size,
            Self::failure(s, 0) is None,
            s.len() >= 56,
        ensures
            self.encoding() == s,
    {
        self.header.law_write_of_read(s);
        lemma_low32(self.total());
        lemma_low32(self.ecu_qualifier@.len() as int);
        lemma_low32(self.variant_qualifier@.len() as int);
        lemma_low32(self.service_qualifier@.len() as int);
        lemma_le_u32_at(s, 32);
        lemma_le_u32_at(s, 36);
        lemma_le_u32_at(s, 40);
        lemma_le_u32_at(s, 44);
        lemma_le_u32_at(s, 48);
        lemma_le_u32_at(s, 52);
        assert(self.encoding() =~= s);
    }

    /// The bytes of an object determine it.
    pub proof fn law_reads_unique(self, other: Self, s: Seq<u8>)
        requires
            self.reads(s),
            other.reads(s),
        ensures
            self.same(other),
    {
        self.header.law_reads_unique(other.header, s);
    }
}

} // verus!
