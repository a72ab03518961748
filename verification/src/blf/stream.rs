//! Reading the objects of a file one after another.
//!
//! The steps are functions on bytes: [`header_size`], [`top_level_size`], [`top_level`] and
//! [`inner_object`]. [`BlfReader`] takes them over a file in memory.

use crate::blf::bytes::{lemma_part, put_bytes, read_bytes, read_u32, u16_at, u32_at};
use crate::blf::error::{parse_err, Error, Failure, Result};
use crate::blf::file_header::{file_signature, Header, FILE_SIGNATURE, HEADER_CORE_SIZE};
use crate::blf::header::{
    is_obj_signature, obj_signature, LObj, ObjBase, OBJ_BASE_SIZE,
};
use crate::blf::log_container::{LogContainer, LOG_CONTAINER_SIZE};
use crate::blf::object::BlfObject;
use crate::blf::object_type::ObjectType;
use crate::blf::zlib::{inflated, inflates_back, zlib_inflate_limited};
use crate::text::{dec, push_dec};
use vstd::prelude::*;

verus! {

/// Resource limits applied while reading untrusted BLF input.
#[derive(Debug, Clone, Copy, PartialEq, Eq, Structural)]
pub struct BlfReaderOptions {
    pub max_header_size: usize,
    pub max_container_size: usize,
    pub max_object_size: usize,
}

impl Default for BlfReaderOptions {
    fn default() -> (r: Self)
        ensures
            r == default_options(),
    {
        BlfReaderOptions {
            max_header_size: 0x100_0000,
            max_container_size: 0x2000_0000,
            max_object_size: 0x1000_0000,
        }
    }
}

/// The limits that apply where none are given: 16, 512 and 256 MiB.
pub open spec fn default_options() -> BlfReaderOptions {
    BlfReaderOptions {
        max_header_size: 0x100_0000,
        max_container_size: 0x2000_0000,
        max_object_size: 0x1000_0000,
    }
}

/// The failure of a file that ends at `end`, where `need` more bytes are needed.
pub open spec fn end_of_file(end: int, need: int) -> Failure {
    Failure::Parse(end, "unexpected end of file: need "@ + dec(need as nat) + " more bytes"@)
}

/// The error of a file that ends at `end`, where `need` more bytes are needed.
pub fn end_of_file_error(end: u64, need: usize) -> (e: Error)
    ensures
        e@ == end_of_file(end as int, need as int),
{
    let mut message = "unexpected end of file: need ".to_string();
    push_dec(&mut message, need as u64);
    message.append(" more bytes");
    Error::Parse { offset: end, message }
}

/// Whether every byte is zero.
pub open spec fn all_zero(s: Seq<u8>) -> bool {
    forall|i: int| 0 <= i < s.len() ==> s[i] == 0
}

fn is_all_zero(bytes: &[u8], from: usize) -> (r: bool)
    requires
        from <= bytes.len(),
    ensures
        r == all_zero(bytes@.subrange(from as int, bytes@.len() as int)),
{
    let ghost rest = bytes@.subrange(from as int, bytes@.len() as int);
    let mut i: usize = from;
    while i < bytes.len()
        invariant
            from <= i <= bytes.len(),
            rest == bytes@.subrange(from as int, bytes@.len() as int),
            forall|j: int| 0 <= j < i - from ==> rest[j] == 0,
        decreases bytes.len() - i,
    {
        if bytes[i] != 0 {
            proof {
                assert(rest[i - from] != 0);
            }
            return false;
        }
        i += 1;
    }
    true
}

// ---------------------------------------------------------------------------
// The file header
// ---------------------------------------------------------------------------

/// How limits are refused, if they are: each must leave room for a header.
pub open spec fn limits_failure(options: BlfReaderOptions) -> Option<Failure> {
    if options.max_header_size < 72 || options.max_container_size < 32 || options.max_object_size
        < 16 {
        Some(
            Failure::Parse(0, "BLF reader limits are smaller than mandatory format headers"@),
        )
    } else {
        None
    }
}

/// Whether the limits leave room for headers.
pub fn check_limits(options: BlfReaderOptions) -> (r: Result<()>)
    ensures
        match r {
            Ok(_) => limits_failure(options) is None,
            Err(e) => limits_failure(options) == Some(e@),
        },
{
    if options.max_header_size < HEADER_CORE_SIZE || options.max_container_size
        < LOG_CONTAINER_SIZE || options.max_object_size < OBJ_BASE_SIZE {
        return parse_err(
            0,
            "BLF reader limits are smaller than mandatory format headers".to_string(),
        );
    }
    Ok(())
}

/// How the first eight bytes of a file are refused, if they are.
pub open spec fn prefix_failure(prefix: Seq<u8>, options: BlfReaderOptions) -> Option<Failure> {
    let size = u32_at(prefix, 4);
    if limits_failure(options) is Some {
        limits_failure(options)
    } else if prefix.len() < 8 {
        Some(end_of_file(prefix.len() as int, 8 - prefix.len()))
    } else if prefix.subrange(0, 4) != file_signature() {
        Some(Failure::Parse(0, "bad BLF file signature"@))
    } else if size < 72 || size > options.max_header_size {
        Some(
            Failure::Parse(
                4,
                "BLF header size "@ + dec(size as nat) + " is outside 72..="@ + dec(
                    options.max_header_size as nat,
                ) + " "@,
            ),
        )
    } else {
        None
    }
}

/// How reading the header at the start of a file fails, if it does.
pub open spec fn header_failure(file: Seq<u8>, options: BlfReaderOptions) -> Option<Failure> {
    let size = u32_at(file, 4);
    if prefix_failure(file, options) is Some {
        prefix_failure(file, options)
    } else if file.len() < size {
        Some(end_of_file(file.len() as int, size - file.len()))
    } else {
        None
    }
}

/// The size of the file header, from the first bytes of a file: eight, or fewer where the
/// file has no more.
pub fn header_size(prefix: &[u8], options: BlfReaderOptions) -> (r: Result<usize>)
    ensures
        match r {
            Ok(size) => {
                &&& prefix_failure(prefix@, options) is None
                &&& size == u32_at(prefix@, 4)
                &&& size >= 72
                &&& prefix.len() >= 8
            },
            Err(e) => prefix_failure(prefix@, options) == Some(e@),
        },
{
    check_limits(options)?;
    if prefix.len() < 8 {
        return Err(end_of_file_error(prefix.len() as u64, 8 - prefix.len()));
    }
    let matches = prefix[0] == FILE_SIGNATURE[0] && prefix[1] == FILE_SIGNATURE[1] && prefix[2]
        == FILE_SIGNATURE[2] && prefix[3] == FILE_SIGNATURE[3];
    proof {
        let start = prefix@.subrange(0, 4);
        assert(start[0] == prefix@[0] && start[1] == prefix@[1] && start[2] == prefix@[2]
            && start[3] == prefix@[3]);
        assert(matches ==> start =~= file_signature());
    }
    if !matches {
        return parse_err(0, "bad BLF file signature".to_string());
    }
    let size: usize = read_u32(prefix, 4) as usize;
    if size < HEADER_CORE_SIZE || size > options.max_header_size {
        let mut message = "BLF header size ".to_string();
        push_dec(&mut message, size as u64);
        message.append(" is outside 72..=");
        push_dec(&mut message, options.max_header_size as u64);
        message.append(" ");
        return parse_err(4, message);
    }
    Ok(size)
}

// ---------------------------------------------------------------------------
// Top-level objects
// ---------------------------------------------------------------------------

/// How the base header of the top-level object at `at` is refused, if it is.
pub open spec fn top_size_failure(
    base: Seq<u8>,
    at: int,
    options: BlfReaderOptions,
) -> Option<Failure> {
    let size = u32_at(base, 8);
    let limit = if ObjectType::of_raw(u32_at(base, 12)) == Some(ObjectType::LogContainer) {
        options.max_container_size
    } else {
        options.max_object_size
    };
    if base.subrange(0, 4) != obj_signature() {
        Some(Failure::Parse(at, "bad top-level object signature"@))
    } else if size < 16 {
        Some(
            Failure::Parse(
                at + 8,
                "top-level object size "@ + dec(size as nat) + " is too small"@,
            ),
        )
    } else if size > limit {
        Some(
            Failure::Parse(
                at + 8,
                "top-level object size "@ + dec(size as nat) + " exceeds configured limit "@ + dec(
                    limit as nat,
                ),
            ),
        )
    } else {
        None
    }
}

/// The size of the top-level object at `at`, from the 16 bytes of its base header.
pub fn top_level_size(base_bytes: &[u8], at: u64, options: BlfReaderOptions) -> (r: Result<usize>)
    requires
        base_bytes.len() == 16,
        at + 16 <= u64::MAX,
    ensures
        match r {
            Ok(size) => {
                &&& top_size_failure(base_bytes@, at as int, options) is None
                &&& size == u32_at(base_bytes@, 8)
                &&& size >= 16
            },
            Err(e) => top_size_failure(base_bytes@, at as int, options) == Some(e@),
        },
{
    proof {
        crate::blf::bytes::lemma_short_read_none(ObjBase::ends(), 0, 16, at as int);
    }
    let base = ObjBase::parse(base_bytes, at)?;
    if !is_obj_signature(&base.signature) {
        return parse_err(at, "bad top-level object signature".to_string());
    }
    let size: usize = base.object_size as usize;
    if size < OBJ_BASE_SIZE {
        let mut message = "top-level object size ".to_string();
        push_dec(&mut message, size as u64);
        message.append(" is too small");
        return parse_err(at + 8, message);
    }
    let limit: usize = if base.object_type() == Some(ObjectType::LogContainer) {
        options.max_container_size
    } else {
        options.max_object_size
    };
    if size > limit {
        let mut message = "top-level object size ".to_string();
        push_dec(&mut message, size as u64);
        message.append(" exceeds configured limit ");
        push_dec(&mut message, limit as u64);
        return parse_err(at + 8, message);
    }
    Ok(size)
}

/// What a top-level object is.
pub enum TopContent {
    Fail(Failure),
    /// A container with its uncompressed data.
    Container(Seq<u8>),
    Object,
}

/// How an object whose header is larger than the object is refused.
pub open spec fn header_overrun(s: Seq<u8>, at: int) -> Option<Failure> {
    if u16_at(s, 4) > u32_at(s, 8) {
        Some(
            Failure::Parse(
                at + 4,
                "object header size "@ + dec(u16_at(s, 4) as nat) + " exceeds object size "@ + dec(
                    u32_at(s, 8) as nat,
                ),
            ),
        )
    } else {
        None
    }
}

fn check_header_overrun(bytes: &[u8], at: u64) -> (r: Result<()>)
    requires
        bytes.len() >= 16,
        at + bytes.len() <= u64::MAX,
    ensures
        match r {
            Ok(_) => header_overrun(bytes@, at as int) is None,
            Err(e) => header_overrun(bytes@, at as int) == Some(e@),
        },
{
    let header_size: u16 = crate::blf::bytes::read_u16(bytes, 4);
    let object_size: u32 = read_u32(bytes, 8);
    if header_size as u32 > object_size {
        let mut message = "object header size ".to_string();
        push_dec(&mut message, header_size as u64);
        message.append(" exceeds object size ");
        push_dec(&mut message, object_size as u64);
        return parse_err(at + 4, message);
    }
    Ok(())
}

/// How reading an object that has as many bytes as it declares fails, if it does.
#[verifier::opaque]
pub open spec fn object_failure(s: Seq<u8>, at: int) -> Option<Failure> {
    if BlfObject::failure(s, at) is Some {
        BlfObject::failure(s, at)
    } else {
        header_overrun(s, at)
    }
}

/// Reads an object that has as many bytes as it declares. One whose header claims to be
/// larger than the whole object is refused.
fn read_object(bytes: &[u8], at: u64) -> (r: Result<BlfObject>)
    requires
        bytes.len() >= 16,
        u32_at(bytes@, 8) == bytes.len(),
        at + bytes.len() <= u64::MAX,
    ensures
        match r {
            Ok(o) => {
                &&& object_failure(bytes@, at as int) is None
                &&& o.reads(bytes@, at as int)
                &&& o.head().base.object_size == bytes.len()
                &&& o.head().base.object_type == u32_at(bytes@, 12)
            },
            Err(e) => object_failure(bytes@, at as int) == Some(e@),
        },
{
    proof {
        reveal(object_failure);
        reveal(BlfObject::failure);
    }
    match check_header_overrun(bytes, at) {
        Ok(_) => {
            proof {
                assert(bytes@.subrange(0, bytes@.len() as int) =~= bytes@);
            }
            BlfObject::parse(bytes, at)
        },
        Err(e) => {
            // The failures that come before this one do not depend on where the header ends.
            match LObj::parse(bytes, at) {
                Err(first) => Err(first),
                Ok(header) => {
                    proof {
                        assert(BlfObject::failure(bytes@, at as int) is None || u32_at(bytes@, 8)
                            < 32);
                    }
                    if header.base.object_size < 32 {
                        BlfObject::parse(bytes, at)
                    } else {
                        Err(e)
                    }
                },
            }
        },
    }
}

/// What the top-level object with the given bytes, which starts at `at`, is.
pub open spec fn top_content(s: Seq<u8>, at: int, options: BlfReaderOptions) -> TopContent {
    let size = s.len() as int;
    let payload = s.subrange(32, size);
    let method = u16_at(s, 16);
    let declared = u32_at(s, 24);
    if ObjectType::of_raw(u32_at(s, 12)) != Some(ObjectType::LogContainer) {
        match object_failure(s, at) {
            Some(f) => TopContent::Fail(f),
            None => TopContent::Object,
        }
    } else if size < 32 {
        TopContent::Fail(
            Failure::Parse(at, "LOG_CONTAINER is smaller than its fixed header"@),
        )
    } else if method == 0 {
        if declared != 0 && declared != payload.len() {
            TopContent::Fail(
                Failure::Parse(
                    at,
                    "LOG_CONTAINER declares "@ + dec(declared as nat) + " bytes but stores "@ + dec(
                        payload.len(),
                    ),
                ),
            )
        } else {
            TopContent::Container(payload)
        }
    } else if method == 2 {
        if declared > options.max_container_size {
            TopContent::Fail(
                Failure::Parse(
                    at + 24,
                    "LOG_CONTAINER uncompressed size "@ + dec(declared as nat)
                        + " exceeds configured limit "@ + dec(options.max_container_size as nat),
                ),
            )
        } else {
            match inflated(payload, declared as usize) {
                Err(f) => TopContent::Fail(f),
                Ok(data) => if data.len() != declared {
                    TopContent::Fail(
                        Failure::Parse(
                            at,
                            "LOG_CONTAINER declares "@ + dec(declared as nat)
                                + " bytes but expands to "@ + dec(data.len()),
                        ),
                    )
                } else {
                    TopContent::Container(data)
                },
            }
        }
    } else {
        TopContent::Fail(
            Failure::Parse(
                at + 16,
                "unsupported LOG_CONTAINER compression method "@ + dec(method as nat),
            ),
        )
    }
}

/// Number of padding bytes that follow a top-level object.
pub open spec fn top_padding(s: Seq<u8>) -> int {
    if ObjectType::of_raw(u32_at(s, 12)) == Some(ObjectType::LogContainer) {
        (u32_at(s, 8) % 4) as int
    } else {
        LObj::padding_of(u32_at(s, 12), u32_at(s, 8)) as int
    }
}

/// A top-level object, and the number of padding bytes that follow it.
#[derive(Debug)]
pub enum TopLevel {
    /// The uncompressed data of a container.
    Container { data: Vec<u8>, padding: usize },
    Object { object: BlfObject, padding: usize },
}

fn container_data(
    bytes: &[u8],
    at: u64,
    options: BlfReaderOptions,
) -> (r: Result<Vec<u8>>)
    requires
        bytes.len() >= 32,
        at + bytes.len() <= u64::MAX,
        bytes@.subrange(0, 4) == obj_signature(),
        ObjectType::of_raw(u32_at(bytes@, 12)) == Some(ObjectType::LogContainer),
    ensures
        match r {
            Ok(data) => top_content(bytes@, at as int, options) == TopContent::Container(data@),
            Err(e) => top_content(bytes@, at as int, options) == TopContent::Fail(e@),
        },
        u16_at(bytes@, 16) == 2 && u32_at(bytes@, 24) <= options.max_container_size
            ==> inflates_back(
            bytes@.subrange(32, bytes@.len() as int),
            u32_at(bytes@, 24) as usize,
        ),
{
    proof {
        crate::blf::bytes::lemma_short_read_none(
            LogContainer::ends(),
            0,
            bytes.len() as int,
            at as int,
        );
    }
    let container = LogContainer::parse(bytes, at)?;
    let payload = &bytes[LOG_CONTAINER_SIZE..bytes.len()];
    let declared: u32 = container.uncompressed_size;
    if container.compression_method == 0 {
        if declared != 0 && declared as u64 != payload.len() as u64 {
            let mut message = "LOG_CONTAINER declares ".to_string();
            push_dec(&mut message, declared as u64);
            message.append(" bytes but stores ");
            push_dec(&mut message, payload.len() as u64);
            return parse_err(at, message);
        }
        Ok(read_bytes(bytes, LOG_CONTAINER_SIZE, bytes.len()))
    } else if container.compression_method == 2 {
        let limit: usize = declared as usize;
        if limit > options.max_container_size {
            let mut message = "LOG_CONTAINER uncompressed size ".to_string();
            push_dec(&mut message, declared as u64);
            message.append(" exceeds configured limit ");
            push_dec(&mut message, options.max_container_size as u64);
            return parse_err(at + 24, message);
        }
        let data = zlib_inflate_limited(payload, limit)?;
        if data.len() != limit {
            let mut message = "LOG_CONTAINER declares ".to_string();
            push_dec(&mut message, declared as u64);
            message.append(" bytes but expands to ");
            push_dec(&mut message, data.len() as u64);
            return parse_err(at, message);
        }
        Ok(data)
    } else {
        let mut message = "unsupported LOG_CONTAINER compression method ".to_string();
        push_dec(&mut message, container.compression_method as u64);
        parse_err(at + 16, message)
    }
}

/// Whether decompressing the payload of a container gives back the data that it was made
/// of.
pub open spec fn container_faithful(s: Seq<u8>, options: BlfReaderOptions) -> bool {
    ObjectType::of_raw(u32_at(s, 12)) == Some(ObjectType::LogContainer) && s.len() >= 32 && u16_at(
        s,
        16,
    ) == 2 && u32_at(s, 24) <= options.max_container_size ==> inflates_back(
        s.subrange(32, s.len() as int),
        u32_at(s, 24) as usize,
    )
}

/// Reads the top-level object that starts at `at`, from all its bytes.
pub fn top_level(bytes: &[u8], at: u64, options: BlfReaderOptions) -> (r: Result<TopLevel>)
    requires
        bytes.len() >= 16,
        at + bytes.len() <= u64::MAX,
        bytes@.subrange(0, 4) == obj_signature(),
        u32_at(bytes@, 8) == bytes.len(),
    ensures
        match r {
            Ok(TopLevel::Container { data, padding }) => {
                &&& top_content(bytes@, at as int, options) == TopContent::Container(data@)
                &&& padding == top_padding(bytes@)
            },
            Ok(TopLevel::Object { object, padding }) => {
                &&& top_content(bytes@, at as int, options) == TopContent::Object
                &&& object.reads(bytes@, at as int)
                &&& padding == top_padding(bytes@)
            },
            Err(e) => top_content(bytes@, at as int, options) == TopContent::Fail(e@),
        },
        container_faithful(bytes@, options),
{
    let object_type: u32 = read_u32(bytes, 12);
    if ObjectType::from_raw(object_type) == Some(ObjectType::LogContainer) {
        if bytes.len() < LOG_CONTAINER_SIZE {
            return parse_err(at, "LOG_CONTAINER is smaller than its fixed header".to_string());
        }
        let data = container_data(bytes, at, options)?;
        Ok(TopLevel::Container { data, padding: (read_u32(bytes, 8) % 4) as usize })
    } else {
        let object = read_object(bytes, at)?;
        let padding: usize = object.padding() as usize;
        Ok(TopLevel::Object { object, padding })
    }
}

// ---------------------------------------------------------------------------
// Objects in containers
// ---------------------------------------------------------------------------

/// What stands at a position of the uncompressed data.
pub enum InnerStep {
    Fail(Failure),
    /// No whole object; reading goes on from the position when there is more data.
    Wait(int),
    /// An object of the given size, and the position behind it and its padding.
    Object(int, int),
}

/// What stands at `pos` in the uncompressed data.
#[verifier::opaque]
pub open spec fn inner_step(data: Seq<u8>, pos: int, options: BlfReaderOptions) -> InnerStep {
    let rest = data.subrange(pos, data.len() as int);
    let size = u32_at(rest, 8) as int;
    let body = rest.subrange(0, size);
    let padding = LObj::padding_of(u32_at(rest, 12), u32_at(rest, 8));
    if rest.len() == 0 {
        InnerStep::Wait(pos)
    } else if all_zero(rest) {
        InnerStep::Wait(data.len() as int)
    } else if rest.len() < 16 {
        InnerStep::Wait(pos)
    } else if rest.subrange(0, 4) != obj_signature() {
        InnerStep::Fail(Failure::Parse(pos, "bad object signature in uncompressed stream"@))
    } else if size < 16 {
        InnerStep::Fail(
            Failure::Parse(
                pos + 8,
                "object size "@ + dec(size as nat) + " is smaller than its base header"@,
            ),
        )
    } else if size > options.max_object_size {
        InnerStep::Fail(
            Failure::Parse(
                pos + 8,
                "object size "@ + dec(size as nat) + " exceeds configured limit "@ + dec(
                    options.max_object_size as nat,
                ),
            ),
        )
    } else if rest.len() < size {
        InnerStep::Wait(pos)
    } else if object_failure(body, pos) is Some {
        InnerStep::Fail(object_failure(body, pos)->0)
    } else if rest.len() < size + padding {
        InnerStep::Wait(pos)
    } else {
        InnerStep::Object(size, pos + size + padding)
    }
}

/// What [`inner_object`] finds.
#[derive(Debug)]
pub enum Inner {
    /// No whole object; reading goes on from the position when there is more data.
    Wait { pos: usize },
    /// An object, and the position behind it and its padding.
    Object { object: BlfObject, next: usize },
}

/// Reads the object at `pos` in the uncompressed data.
pub fn inner_object(data: &[u8], pos: usize, options: BlfReaderOptions) -> (r: Result<Inner>)
    requires
        pos <= data.len(),
    ensures
        match r {
            Ok(Inner::Wait { pos: p }) => {
                &&& inner_step(data@, pos as int, options) == InnerStep::Wait(p as int)
                &&& pos <= p <= data.len()
            },
            Ok(Inner::Object { object, next }) => {
                &&& pos < next <= data.len()
                &&& inner_step(data@, pos as int, options) matches InnerStep::Object(size, n) && n
                    == next && object.reads(data@.subrange(pos as int, pos + size), pos as int)
            },
            Err(e) => inner_step(data@, pos as int, options) == InnerStep::Fail(e@),
        },
{
    proof {
        reveal(inner_step);
    }
    let ghost rest = data@.subrange(pos as int, data@.len() as int);
    let available: usize = data.len() - pos;
    if available == 0 {
        return Ok(Inner::Wait { pos });
    }
    if is_all_zero(data, pos) {
        return Ok(Inner::Wait { pos: data.len() });
    }
    if available < OBJ_BASE_SIZE {
        return Ok(Inner::Wait { pos });
    }
    let remaining = &data[pos..data.len()];
    proof {
        assert(remaining@ =~= rest);
        crate::blf::bytes::lemma_short_read_none(
            ObjBase::ends(),
            0,
            rest.len() as int,
            pos as int,
        );
    }
    let base = ObjBase::parse(remaining, pos as u64)?;
    if !is_obj_signature(&base.signature) {
        return parse_err(pos as u64, "bad object signature in uncompressed stream".to_string());
    }
    let size: usize = base.object_size as usize;
    if size < OBJ_BASE_SIZE {
        let mut message = "object size ".to_string();
        push_dec(&mut message, size as u64);
        message.append(" is smaller than its base header");
        return parse_err(pos as u64 + 8, message);
    }
    if size > options.max_object_size {
        let mut message = "object size ".to_string();
        push_dec(&mut message, size as u64);
        message.append(" exceeds configured limit ");
        push_dec(&mut message, options.max_object_size as u64);
        return parse_err(pos as u64 + 8, message);
    }
    if available < size {
        return Ok(Inner::Wait { pos });
    }
    let body = &data[pos..pos + size];
    proof {
        assert(body@ =~= rest.subrange(0, size as int));
        lemma_part(rest, 0, size as int, 8);
        lemma_part(rest, 0, size as int, 12);
    }
    let object = read_object(body, pos as u64)?;
    let padding: usize = object.padding() as usize;
    if available - size < padding {
        return Ok(Inner::Wait { pos });
    }
    proof {
        assert(data@.subrange(pos as int, pos + size) =~= body@);
    }
    Ok(Inner::Object { object, next: pos + size + padding })
}

/// Whether the file may end where the uncompressed data from `pos` on is still to be read:
/// nothing but zeros may be left.
pub fn end_of_data(data: &[u8], pos: usize) -> (r: Result<()>)
    requires
        pos <= data.len(),
    ensures
        r is Ok <==> all_zero(data@.subrange(pos as int, data@.len() as int)),
        r matches Err(e) ==> e@ == Failure::Parse(
            pos as int,
            "truncated object at end of uncompressed stream"@,
        ),
{
    if is_all_zero(data, pos) {
        Ok(())
    } else {
        parse_err(pos as u64, "truncated object at end of uncompressed stream".to_string())
    }
}

/// Whether an object may stand outside of containers where the uncompressed data from `pos`
/// on is still to be read: nothing but zeros may be left.
pub fn before_object(data: &[u8], pos: usize) -> (r: Result<()>)
    requires
        pos <= data.len(),
    ensures
        r is Ok <==> all_zero(data@.subrange(pos as int, data@.len() as int)),
        r matches Err(e) ==> e@ == Failure::Parse(
            pos as int,
            "incomplete inner object before top-level object"@,
        ),
{
    if is_all_zero(data, pos) {
        Ok(())
    } else {
        parse_err(pos as u64, "incomplete inner object before top-level object".to_string())
    }
}

/// The uncompressed data that is to be read when a container gives more: that from `pos` on,
/// and the new data.
pub fn joined_data(data: &[u8], pos: usize, more: &[u8]) -> (r: Vec<u8>)
    requires
        pos <= data.len(),
    ensures
        r@ == data@.subrange(pos as int, data@.len() as int) + more@,
{
    let mut r = read_bytes(data, pos, data.len());
    put_bytes(&mut r, more);
    r
}

// ---------------------------------------------------------------------------
// Whole files
// ---------------------------------------------------------------------------

/// The bytes of an object, and the offset that its reader reports errors at.
pub struct Segment {
    pub bytes: Seq<u8>,
    pub base: int,
}

/// What stands at a position of a file.
pub enum TopStep {
    End,
    Fail(Failure),
    /// The uncompressed data of a container, and the position behind it.
    Container(Seq<u8>, int),
    /// The size of an object, and the position behind it and its padding.
    Object(int, int),
}

/// What stands at `at` in a file.
#[verifier::opaque]
pub open spec fn top_step(file: Seq<u8>, at: int, options: BlfReaderOptions) -> TopStep {
    let left = file.len() - at;
    let base = file.subrange(at, at + 16);
    let size = u32_at(base, 8) as int;
    let bytes = file.subrange(at, at + size);
    let content = top_content(bytes, at, options);
    let padding = top_padding(bytes);
    if left <= 0 {
        TopStep::End
    } else if left < 16 {
        TopStep::Fail(end_of_file(file.len() as int, 16 - left))
    } else if top_size_failure(base, at, options) is Some {
        TopStep::Fail(top_size_failure(base, at, options)->0)
    } else if left < size {
        TopStep::Fail(end_of_file(file.len() as int, size - left))
    } else if content is Fail {
        TopStep::Fail(content->Fail_0)
    } else if left < size + padding {
        TopStep::Fail(end_of_file(file.len() as int, size + padding - left))
    } else if content is Container {
        TopStep::Container(content->Container_0, at + size + padding)
    } else {
        TopStep::Object(size, at + size + padding)
    }
}

/// Objects found in a file, or how reading it fails.
pub type Found = std::result::Result<Seq<Segment>, Failure>;

/// What is found after an object.
pub open spec fn found_after(first: Segment, rest: Found) -> Found {
    match rest {
        Ok(segments) => Ok(seq![first] + segments),
        Err(f) => Err(f),
    }
}

/// The objects that are found in a file from `at` on, when the uncompressed data that was
/// read before is still to be read from `pos` on.
pub open spec fn find_objects(
    file: Seq<u8>,
    at: int,
    data: Seq<u8>,
    pos: int,
    options: BlfReaderOptions,
) -> Found
    decreases file.len() - at, data.len() - pos,
{
    match inner_step(data, pos, options) {
        InnerStep::Fail(f) => Err(f),
        InnerStep::Object(size, next) => if pos < next <= data.len() {
            found_after(
                Segment { bytes: data.subrange(pos, pos + size), base: pos },
                find_objects(file, at, data, next, options),
            )
        } else {
            arbitrary()
        },
        InnerStep::Wait(p) => {
            let rest = data.subrange(p, data.len() as int);
            match top_step(file, at, options) {
                TopStep::Fail(f) => Err(f),
                TopStep::End => if all_zero(rest) {
                    Ok(Seq::empty())
                } else {
                    Err(
                        Failure::Parse(p, "truncated object at end of uncompressed stream"@),
                    )
                },
                TopStep::Container(more, next) => if at < next <= file.len() {
                    find_objects(file, next, rest + more, 0, options)
                } else {
                    arbitrary()
                },
                TopStep::Object(size, next) => if !all_zero(rest) {
                    Err(
                        Failure::Parse(p, "incomplete inner object before top-level object"@),
                    )
                } else if at < next <= file.len() {
                    found_after(
                        Segment { bytes: file.subrange(at, at + size), base: at },
                        find_objects(file, next, data, p, options),
                    )
                } else {
                    arbitrary()
                },
            }
        },
    }
}

/// The objects that are found in a whole file.
pub open spec fn file_objects(file: Seq<u8>, options: BlfReaderOptions) -> Found {
    match header_failure(file, options) {
        Some(f) => Err(f),
        None => find_objects(file, u32_at(file, 4) as int, Seq::empty(), 0, options),
    }
}

/// Whether the container at `at`, if one stands there, gives back the data that it was made
/// of.
pub open spec fn faithful_at(file: Seq<u8>, at: int, options: BlfReaderOptions) -> bool {
    let size = u32_at(file.subrange(at, at + 16), 8) as int;
    0 <= at && at + 16 <= file.len() && top_size_failure(
        file.subrange(at, at + 16),
        at,
        options,
    ) is None && at + size <= file.len() ==> container_faithful(
        file.subrange(at, at + size),
        options,
    )
}

/// Whether every container that reading the file comes upon gives back the data that it was
/// made of.
pub open spec fn faithful_run(
    file: Seq<u8>,
    at: int,
    data: Seq<u8>,
    pos: int,
    options: BlfReaderOptions,
) -> bool
    decreases file.len() - at, data.len() - pos,
{
    match inner_step(data, pos, options) {
        InnerStep::Fail(_) => true,
        InnerStep::Object(size, next) => pos < next <= data.len() ==> faithful_run(
            file,
            at,
            data,
            next,
            options,
        ),
        InnerStep::Wait(p) => {
            let rest = data.subrange(p, data.len() as int);
            &&& faithful_at(file, at, options)
            &&& (match top_step(file, at, options) {
                TopStep::Container(more, next) => at < next <= file.len() ==> faithful_run(
                    file,
                    next,
                    rest + more,
                    0,
                    options,
                ),
                TopStep::Object(size, next) => all_zero(rest) && at < next <= file.len()
                    ==> faithful_run(file, next, data, p, options),
                _ => true,
            })
        },
    }
}

/// Incremental BLF reader over a file in memory.
pub struct BlfReader {
    inner: Vec<u8>,
    header: Header,
    object_data: Vec<u8>,
    object_pos: usize,
    file_offset: usize,
    finished: bool,
    options: BlfReaderOptions,
}

impl BlfReader {
    /// Whether the positions lie within the data.
    pub closed spec fn valid(self) -> bool {
        &&& self.object_pos <= self.object_data@.len()
        &&& self.file_offset <= self.inner@.len()
    }

    /// The file.
    pub closed spec fn file(self) -> Seq<u8> {
        self.inner@
    }

    /// The header of the file.
    pub closed spec fn file_header(self) -> Header {
        self.header
    }

    /// The objects that are still to come. After a failure there are none.
    pub closed spec fn coming(self) -> Found {
        if self.finished {
            Ok(Seq::empty())
        } else {
            find_objects(
                self.inner@,
                self.file_offset as int,
                self.object_data@,
                self.object_pos as int,
                self.options,
            )
        }
    }

    /// Whether every container that is still to come gives back the data that it was made
    /// of.
    pub closed spec fn faithful(self) -> bool {
        self.finished || faithful_run(
            self.inner@,
            self.file_offset as int,
            self.object_data@,
            self.object_pos as int,
            self.options,
        )
    }

    /// How many bytes of the file have been read.
    pub closed spec fn offset(self) -> int {
        self.file_offset as int
    }

    /// How many bytes of the uncompressed data are still to be read.
    pub closed spec fn left(self) -> nat {
        (self.object_data@.len() - self.object_pos) as nat
    }

    /// The limits that apply.
    pub closed spec fn limits(self) -> BlfReaderOptions {
        self.options
    }

    /// Reads the file header and prepares for reading the objects.
    pub fn new(inner: Vec<u8>) -> (r: Result<Self>)
        ensures
            match r {
                Ok(v) => {
                    &&& header_failure(inner@, default_options()) is None
                    &&& v.valid()
                    &&& v.file() == inner@
                    &&& v.file_header().reads(inner@)
                    &&& v.coming() == file_objects(inner@, default_options())
                    &&& v.faithful() == faithful_run(
                        inner@,
                        u32_at(inner@, 4) as int,
                        Seq::empty(),
                        0,
                        default_options(),
                    )
                    &&& v.offset() == u32_at(inner@, 4)
                    &&& v.limits() == default_options()
                },
                Err(e) => header_failure(inner@, default_options()) == Some(e@),
            },
    {
        Self::with_options(inner, BlfReaderOptions::default())
    }

    /// Reads a file using explicit limits for allocations and decompression.
    pub fn with_options(inner: Vec<u8>, options: BlfReaderOptions) -> (r: Result<Self>)
        ensures
            match r {
                Ok(v) => {
                    &&& header_failure(inner@, options) is None
                    &&& v.valid()
                    &&& v.file() == inner@
                    &&& v.file_header().reads(inner@)
                    &&& v.coming() == file_objects(inner@, options)
                    &&& v.faithful() == faithful_run(
                        inner@,
                        u32_at(inner@, 4) as int,
                        Seq::empty(),
                        0,
                        options,
                    )
                    &&& v.offset() == u32_at(inner@, 4)
                    &&& v.limits() == options
                },
                Err(e) => header_failure(inner@, options) == Some(e@),
            },
    {
        let size: usize = header_size(&inner, options)?;
        if inner.len() < size {
            return Err(end_of_file_error(inner.len() as u64, size - inner.len()));
        }
        let header = Header::parse(&inner, 0)?;
        Ok(
            BlfReader {
                inner,
                header,
                object_data: Vec::new(),
                object_pos: 0,
                file_offset: size,
                finished: false,
                options,
            },
        )
    }

    /// Returns the parsed BLF file header.
    pub fn header(&self) -> (r: &Header)
        ensures
            *r == self.file_header(),
    {
        &self.header
    }

    /// Consumes the reader and returns the parsed BLF file header.
    pub fn take_header(self) -> (r: Header)
        ensures
            r == self.file_header(),
    {
        self.header
    }

    /// Consumes the reader and returns the file.
    pub fn into_inner(self) -> (r: Vec<u8>)
        ensures
            r@ == self.file(),
    {
        self.inner
    }

    /// Reads the next object. After an error, and after the last object, there is none.
    #[verifier::rlimit(40)]
    pub fn next(&mut self) -> (r: Option<Result<BlfObject>>)
        requires
            old(self).valid(),
        ensures
            final(self).valid(),
            final(self).file() == old(self).file(),
            final(self).file_header() == old(self).file_header(),
            final(self).limits() == old(self).limits(),
            old(self).offset() <= final(self).offset(),
            r matches Some(Ok(_)) ==> final(self).faithful() ==> old(self).faithful(),
            !(r matches Some(Ok(_))) ==> old(self).faithful(),
            r matches Some(Ok(_)) ==> {
                ||| old(self).offset() < final(self).offset()
                ||| final(self).left() < old(self).left()
            },
            final(self).offset() <= final(self).file().len(),
            match r {
                None => old(self).coming() == Ok::<Seq<Segment>, Failure>(Seq::empty())
                    && final(self).coming() == Ok::<Seq<Segment>, Failure>(Seq::empty()),
                Some(Err(e)) => {
                    &&& old(self).coming() == Err::<Seq<Segment>, Failure>(e@)
                    &&& final(self).coming() == Ok::<Seq<Segment>, Failure>(Seq::empty())
                },
                Some(Ok(o)) => exists|segment: Segment|
                    {
                        &&& old(self).coming() == #[trigger] found_after(
                            segment,
                            final(self).coming(),
                        )
                        &&& o.reads(segment.bytes, segment.base)
                    },
            },
    {
        if self.finished {
            return None;
        }
        proof {
            reveal(top_step);
        }
        loop
            invariant
                self.valid(),
                !self.finished,
                self.inner@ == old(self).inner@,
                self.header == old(self).header,
                self.options == old(self).options,
                old(self).file_offset <= self.file_offset,
                self.coming() == old(self).coming(),
                self.faithful() ==> old(self).faithful(),
                self.file_offset == old(self).file_offset ==> self.left() <= old(self).left(),
            decreases self.inner@.len() - self.file_offset,
        {
            proof {
                reveal(top_step);
            }
            let ghost coming = self.coming();
            let ghost data = self.object_data@;
            let ghost start = self.object_pos as int;
            match inner_object(&self.object_data, self.object_pos, self.options) {
                Err(e) => {
                    self.finished = true;
                    return Some(Err(e));
                },
                Ok(Inner::Object { object, next }) => {
                    let ghost size = inner_step(data, start, self.options)->Object_0;
                    let ghost segment = Segment {
                        bytes: data.subrange(start, start + size),
                        base: start,
                    };
                    self.object_pos = next;
                    proof {
                        assert(coming == found_after(segment, self.coming()));
                    }
                    return Some(Ok(object));
                },
                Ok(Inner::Wait { pos }) => {
                    self.object_pos = pos;
                },
            }
            let at: usize = self.file_offset;
            let left: usize = self.inner.len() - at;
            let ghost pos = self.object_pos as int;
            let ghost rest = data.subrange(pos, data.len() as int);
            if left == 0 {
                self.finished = true;
                return match end_of_data(&self.object_data, self.object_pos) {
                    Ok(_) => None,
                    Err(e) => Some(Err(e)),
                };
            }
            if left < OBJ_BASE_SIZE {
                self.finished = true;
                return Some(
                    Err(end_of_file_error(self.inner.len() as u64, OBJ_BASE_SIZE - left)),
                );
            }
            let base_bytes = &self.inner[at..at + OBJ_BASE_SIZE];
            let ghost base = self.inner@.subrange(at as int, at + 16);
            proof {
                assert(base_bytes@ =~= base);
            }
            let size: usize = match top_level_size(base_bytes, at as u64, self.options) {
                Ok(size) => size,
                Err(e) => {
                    self.finished = true;
                    return Some(Err(e));
                },
            };
            if left < size {
                self.finished = true;
                return Some(Err(end_of_file_error(self.inner.len() as u64, size - left)));
            }
            let bytes = &self.inner[at..at + size];
            let ghost object_bytes = self.inner@.subrange(at as int, at + size);
            proof {
                assert(bytes@ =~= object_bytes);
                assert(object_bytes.subrange(0, 4) =~= base.subrange(0, 4));
                lemma_part(self.inner@, at as int, at + 16, 8);
                lemma_part(self.inner@, at as int, at + 16, 12);
                lemma_part(self.inner@, at as int, at + size, 8);
                lemma_part(self.inner@, at as int, at + size, 12);
            }
            match top_level(bytes, at as u64, self.options) {
                Err(e) => {
                    self.finished = true;
                    return Some(Err(e));
                },
                Ok(TopLevel::Container { data: more, padding }) => {
                    if left - size < padding {
                        self.finished = true;
                        return Some(
                            Err(
                                end_of_file_error(
                                    self.inner.len() as u64,
                                    padding - (left - size),
                                ),
                            ),
                        );
                    }
                    self.object_data = joined_data(&self.object_data, self.object_pos, &more);
                    self.object_pos = 0;
                    self.file_offset = at + size + padding;
                    proof {
                        assert(self.object_data@ == rest + more@);
                    }
                },
                Ok(TopLevel::Object { object, padding }) => {
                    if left - size < padding {
                        self.finished = true;
                        return Some(
                            Err(
                                end_of_file_error(
                                    self.inner.len() as u64,
                                    padding - (left - size),
                                ),
                            ),
                        );
                    }
                    self.file_offset = at + size + padding;
                    if let Err(e) = before_object(&self.object_data, self.object_pos) {
                        self.finished = true;
                        return Some(Err(e));
                    }
                    let ghost segment = Segment { bytes: object_bytes, base: at as int };
                    proof {
                        assert(coming == found_after(segment, self.coming()));
                    }
                    return Some(Ok(object));
                },
            }
        }
    }
}

} // verus!
