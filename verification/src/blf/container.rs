//! How objects are packed into log containers.

use crate::blf::bytes::{
    le_u16, le_u32, lemma_field_bytes, lemma_low32, lemma_starts_with_self, low32, put_bytes,
    u16_at, u32_at,
};
use crate::blf::error::{Error, Failure, Result};
use crate::blf::header::obj_signature;
use crate::blf::log_container::LogContainer;
use crate::blf::object::BlfObject;
use crate::blf::object_type::ObjectType;
use crate::blf::zlib::{zlib_deflate, zlib_stream};
use vstd::prelude::*;

verus! {

/// Number of bytes from which on a container is closed before the next object.
pub const MAX_CONTAINER_BUFFER: usize = 0x40_0000;

/// A number of zero bytes.
pub open spec fn zeros(n: int) -> Seq<u8> {
    Seq::new(n as nat, |i: int| 0u8)
}

/// Puts zero bytes behind the others.
pub(crate) fn put_zeros(out: &mut Vec<u8>, n: u32)
    ensures
        final(out)@ == old(out)@ + zeros(n as int),
{
    let mut i: u32 = 0;
    while i < n
        invariant
            i <= n,
            out@ == old(out)@ + zeros(i as int),
        decreases n - i,
    {
        out.push(0);
        i += 1;
        proof {
            assert(out@ =~= old(out)@ + zeros(i as int));
        }
    }
    proof {
        assert(n == 0 ==> out@ =~= old(out)@ + zeros(0));
    }
}

/// The low 64 bits of a number.
pub open spec fn low64(n: int) -> u64 {
    (n % 0x1_0000_0000_0000_0000) as u64
}

/// The sum of two numbers of which the low 64 bits are kept.
pub(crate) fn add64(a: u64, b: u64) -> (r: u64)
    ensures
        r == low64(a + b),
{
    a.wrapping_add(b)
}

/// The low 64 bits of a sum do not depend on the higher bits of its parts.
pub proof fn lemma_low64_sum(a: int, b: int)
    ensures
        low64(low64(a) + b) == low64(a + b),
{
    let m = 0x1_0000_0000_0000_0000int;
    let q = a / m;
    assert(a == q * m + a % m) by {
        vstd::arithmetic::div_mod::lemma_fundamental_div_mod(a, m);
    }
    assert((a + b) % m == (a % m + b) % m) by {
        vstd::arithmetic::div_mod::lemma_mod_multiples_vanish(q, a % m + b, m);
    }
}

/// The bytes of an object with its padding.
#[verifier::opaque]
pub open spec fn padded_bytes(o: BlfObject) -> Seq<u8> {
    o.encoding() + zeros(o.spec_padding() as int)
}

/// The header of a container for data of a length.
pub open spec fn container_header(data_len: int, method: u16, uncompressed: u32) -> Seq<u8> {
    obj_signature() + le_u16(16) + le_u16(0) + le_u32(low32(32 + data_len)) + le_u32(10) + le_u16(
        method,
    ) + le_u16(0) + le_u32(0) + le_u32(uncompressed) + le_u32(0)
}

/// What a container stores of the data: a compressed one a ZLIB stream.
pub open spec fn stored(data: Seq<u8>, compress: bool) -> Seq<u8> {
    if compress {
        zlib_stream(data)
    } else {
        data
    }
}

/// The bytes of a container, with padding.
#[verifier::opaque]
pub open spec fn container_bytes(data: Seq<u8>, compress: bool) -> Seq<u8> {
    let payload = stored(data, compress);
    container_header(
        payload.len() as int,
        if compress {
            2
        } else {
            0
        },
        low32(data.len() as int),
    ) + payload + zeros((low32((32 + payload.len()) as int) % 4) as int)
}

/// The message for data that is too large for a container.
pub open spec fn container_limit() -> Failure {
    Failure::Write("log container exceeds the u32 size limit"@)
}

/// Packs data into a container, and gives the container and its uncompressed size.
pub fn encode_container(buf: &[u8], compress: bool) -> (r: Result<(Vec<u8>, u64)>)
    ensures
        match r {
            Ok((bytes, size)) => {
                &&& buf@.len() <= u32::MAX
                &&& bytes@ == container_bytes(buf@, compress)
                &&& size == 32 + buf@.len()
            },
            Err(e) => buf@.len() > u32::MAX && e@ == container_limit(),
        },
{
    proof {
        reveal(container_bytes);
    }
    let data = if compress {
        zlib_deflate(buf)?
    } else {
        crate::blf::bytes::read_bytes(buf, 0, buf.len())
    };
    proof {
        assert(buf@.subrange(0, buf@.len() as int) =~= buf@);
        assert(data@ == stored(buf@, compress));
    }
    if buf.len() as u128 > u32::MAX as u128 {
        return Err(Error::Write("log container exceeds the u32 size limit".to_string()));
    }
    let method: u16 = if compress {
        2
    } else {
        0
    };
    let header = LogContainer::new_with_method(data.len(), method, buf.len() as u32);
    let mut out: Vec<u8> = Vec::new();
    header.write_to(&mut out);
    proof {
        lemma_low32(buf@.len() as int);
        assert(ObjectType::LogContainer.raw() == 10);
        assert(out@ =~= container_header(data@.len() as int, method, low32(buf@.len() as int)));
    }
    put_bytes(&mut out, &data);
    put_zeros(&mut out, header.base.object_size % 4);
    Ok((out, 32 + buf.len() as u64))
}

/// The bytes of objects one after another, each with its padding.
pub open spec fn object_stream(objects: Seq<BlfObject>) -> Seq<u8>
    decreases objects.len(),
{
    if objects.len() == 0 {
        Seq::empty()
    } else {
        object_stream(objects.drop_last()) + padded_bytes(objects.last())
    }
}

/// The bytes of the containers of groups of objects.
pub open spec fn containers(groups: Seq<Seq<BlfObject>>, compress: bool) -> Seq<u8>
    decreases groups.len(),
{
    if groups.len() == 0 {
        Seq::empty()
    } else {
        containers(groups.drop_last(), compress) + container_bytes(
            object_stream(groups.last()),
            compress,
        )
    }
}

/// The uncompressed size of the containers of groups of objects.
pub open spec fn uncompressed_size(groups: Seq<Seq<BlfObject>>) -> int
    decreases groups.len(),
{
    if groups.len() == 0 {
        0
    } else {
        uncompressed_size(groups.drop_last()) + 32 + object_stream(groups.last()).len()
    }
}

/// The objects of the groups one after another.
pub open spec fn flat(groups: Seq<Seq<BlfObject>>) -> Seq<BlfObject>
    decreases groups.len(),
{
    if groups.len() == 0 {
        Seq::empty()
    } else {
        flat(groups.drop_last()) + groups.last()
    }
}

/// Objects on their way into a file: those in containers that are closed, those in the one
/// that is open, where the restore points start, and whether the open container is one of
/// restore points.
pub struct Layout {
    pub groups: Seq<Seq<BlfObject>>,
    pub open: Seq<BlfObject>,
    pub restore: Option<int>,
    pub in_restore: bool,
}

impl Layout {
    /// The layout without any object.
    pub open spec fn empty() -> Layout {
        Layout { groups: Seq::empty(), open: Seq::empty(), restore: None, in_restore: false }
    }

    /// The layout after closing the open container.
    #[verifier::opaque]
    pub open spec fn closed(self) -> std::result::Result<Layout, Failure> {
        if object_stream(self.open).len() > u32::MAX {
            Err(container_limit())
        } else {
            Ok(Layout { groups: self.groups.push(self.open), open: Seq::empty(), ..self })
        }
    }

    /// The layout after closing the open container, if it holds anything.
    pub open spec fn closed_if_used(self) -> std::result::Result<Layout, Failure> {
        if object_stream(self.open).len() > 0 {
            self.closed()
        } else {
            Ok(self)
        }
    }

    /// The layout ready for an object of a kind: the first restore point starts a container
    /// of its own, and so does the first other object behind restore points.
    pub open spec fn ready(
        self,
        is_restore: bool,
        compress: bool,
        header_size: int,
    ) -> std::result::Result<Layout, Failure> {
        if is_restore && self.restore is None {
            match self.closed_if_used() {
                Ok(l) => Ok(
                    Layout {
                        restore: Some(header_size + containers(l.groups, compress).len()),
                        in_restore: true,
                        ..l
                    },
                ),
                Err(f) => Err(f),
            }
        } else if !is_restore && self.in_restore {
            match self.closed_if_used() {
                Ok(l) => Ok(Layout { in_restore: false, ..l }),
                Err(f) => Err(f),
            }
        } else {
            Ok(self)
        }
    }

    /// The layout with room for a number of bytes: a container that would reach four MiB is
    /// closed first.
    pub open spec fn with_room(self, len: int) -> std::result::Result<Layout, Failure> {
        let used = object_stream(self.open).len();
        if used > 0 && used + len >= 0x40_0000 {
            self.closed()
        } else {
            Ok(self)
        }
    }

    /// The layout with one more object.
    #[verifier::opaque]
    pub open spec fn placed(
        self,
        o: BlfObject,
        compress: bool,
        header_size: int,
    ) -> std::result::Result<Layout, Failure> {
        match self.ready(o.head().base.object_type == 115, compress, header_size) {
            Err(f) => Err(f),
            Ok(l) => match o.write_failure() {
                Some(f) => Err(f),
                None => match l.with_room(o.encoding().len() as int) {
                    Err(f) => Err(f),
                    Ok(m) => Ok(Layout { open: m.open.push(o), ..m }),
                },
            },
        }
    }

    /// The layout of a number of objects.
    pub open spec fn of(
        objects: Seq<BlfObject>,
        compress: bool,
        header_size: int,
    ) -> std::result::Result<Layout, Failure>
        decreases objects.len(),
    {
        if objects.len() == 0 {
            Ok(Layout::empty())
        } else {
            match Layout::of(objects.drop_last(), compress, header_size) {
                Err(f) => Err(f),
                Ok(l) => l.placed(objects.last(), compress, header_size),
            }
        }
    }
}

/// The fields of a container header that stands at the start of the bytes.
pub proof fn lemma_container_fields(data: Seq<u8>, compress: bool)
    requires
        data.len() <= u32::MAX,
        32 + stored(data, compress).len() <= u32::MAX,
    ensures
        ({
            let s = container_bytes(data, compress);
            let payload = stored(data, compress);
            let size = 32 + payload.len();
            &&& s.len() == size + size % 4
            &&& s.subrange(0, 4) == obj_signature()
            &&& u16_at(s, 4) == 16
            &&& u32_at(s, 8) == size
            &&& u32_at(s, 12) == 10
            &&& u16_at(s, 16) == (if compress { 2u16 } else { 0 })
            &&& u32_at(s, 24) == data.len()
            &&& s.subrange(32, size as int) == payload
        }),
{
    reveal(container_bytes);
    let s = container_bytes(data, compress);
    let payload = stored(data, compress);
    let size = (32 + payload.len()) as int;
    let method: u16 = if compress {
        2
    } else {
        0
    };
    lemma_low32(size);
    lemma_low32(data.len() as int);
    let h = container_header(payload.len() as int, method, data.len() as u32);
    let c0 = obj_signature();
    let c1 = c0 + le_u16(16);
    let c2 = c1 + le_u16(0);
    let c3 = c2 + le_u32(size as u32);
    let c4 = c3 + le_u32(10);
    let c5 = c4 + le_u16(method);
    let c6 = c5 + le_u16(0);
    let c7 = c6 + le_u32(0);
    let c8 = c7 + le_u32(data.len() as u32);
    lemma_starts_with_self(s);
    lemma_field_bytes(h + payload, zeros(size % 4), s);
    lemma_field_bytes(h, payload, s);
    crate::blf::bytes::lemma_field_u32(c8, 0, s);
    crate::blf::bytes::lemma_field_u32(c7, data.len() as u32, s);
    crate::blf::bytes::lemma_field_u32(c6, 0, s);
    crate::blf::bytes::lemma_field_u16(c5, 0, s);
    crate::blf::bytes::lemma_field_u16(c4, method, s);
    crate::blf::bytes::lemma_field_u32(c3, 10, s);
    crate::blf::bytes::lemma_field_u32(c2, size as u32, s);
    crate::blf::bytes::lemma_field_u16(c1, 0, s);
    crate::blf::bytes::lemma_field_u16(c0, 16, s);
    assert(Seq::<u8>::empty() + c0 =~= c0);
    lemma_field_bytes(Seq::empty(), c0, s);
}

} // verus!
