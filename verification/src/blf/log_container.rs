//! Log containers: the objects that hold the other objects of a file, compressed or not.

use crate::blf::bytes::{
    check_fields, le_u16, le_u32, lemma_field_u16, lemma_field_u32, lemma_short_read_none, low32,
    put_u16, put_u32, read_u16, read_u32, short_read, size_u32, starts_with, u16_at, u32_at,
    offsets_fit,
};
use crate::blf::error::{Failure, Result};
use crate::blf::header::{
    bad_signature, is_obj_signature, obj_signature, signature_message, ObjBase, OBJ_BASE_SIZE,
};
use crate::blf::object_type::ObjectType;
use vstd::prelude::*;

verus! {

pub const LOG_CONTAINER_SIZE: usize = 32;

/// The header of a log container.
#[derive(Debug, Clone, PartialEq, Eq)]
pub struct LogContainer {
    pub base: ObjBase,
    pub compression_method: u16,
    pub reserved: u16,
    pub reserved2: u32,
    pub uncompressed_size: u32,
    pub reserved3: u32,
}

impl LogContainer {
    /// Where each field ends.
    pub open spec fn ends() -> Seq<usize> {
        seq![4, 6, 8, 12, 16, 18, 20, 24, 28, 32]
    }

    /// How reading the container header fails, if it does. The signature is checked before
    /// the fields behind the base header are read.
    pub open spec fn failure(s: Seq<u8>, base: int) -> Option<Failure> {
        if s.len() >= 16 && s.subrange(0, 4) != obj_signature() {
            Some(Failure::Parse(base, signature_message(s.subrange(0, 4))))
        } else {
            short_read(Self::ends(), 0, s.len() as int, base)
        }
    }

    /// Whether the fields are those that stand in the bytes.
    pub open spec fn reads(self, s: Seq<u8>) -> bool {
        &&& self.base.reads(s)
        &&& self.compression_method == u16_at(s, 16)
        &&& self.reserved == u16_at(s, 18)
        &&& self.reserved2 == u32_at(s, 20)
        &&& self.uncompressed_size == u32_at(s, 24)
        &&& self.reserved3 == u32_at(s, 28)
    }

    /// The bytes of the container header.
    pub open spec fn encoding(self) -> Seq<u8> {
        self.base.encoding() + le_u16(self.compression_method) + le_u16(self.reserved) + le_u32(
            self.reserved2,
        ) + le_u32(self.uncompressed_size) + le_u32(self.reserved3)
    }

    /// Whether the header is the one that [`LogContainer::new_with_method`] makes.
    pub open spec fn is_new(
        self,
        data_len: int,
        compression_method: u16,
        uncompressed_size: u32,
    ) -> bool {
        &&& self.base.signature@ == obj_signature()
        &&& self.base.header_size == 16
        &&& self.base.header_version == 0
        &&& self.base.object_size == low32(32 + data_len)
        &&& self.base.object_type == ObjectType::LogContainer.raw()
        &&& self.compression_method == compression_method
        &&& self.reserved == 0
        &&& self.reserved2 == 0
        &&& self.uncompressed_size == uncompressed_size
        &&& self.reserved3 == 0
    }

    /// A container header for data of a length: compressed if the uncompressed size is not
    /// zero.
    pub fn new(data_len: usize, uncompressed_size: u32) -> (r: Self)
        ensures
            r.is_new(
                data_len as int,
                if uncompressed_size != 0 {
                    2
                } else {
                    0
                },
                uncompressed_size,
            ),
    {
        let compression_method: u16 = if uncompressed_size != 0 {
            2
        } else {
            0
        };
        Self::new_with_method(data_len, compression_method, uncompressed_size)
    }

    /// Creates a log container with an explicit BLF compression method.
    pub fn new_with_method(
        data_len: usize,
        compression_method: u16,
        uncompressed_size: u32,
    ) -> (r: Self)
        ensures
            r.is_new(data_len as int, compression_method, uncompressed_size),
    {
        LogContainer {
            base: ObjBase::new(
                ObjectType::LogContainer.to_raw(),
                OBJ_BASE_SIZE as u16,
                size_u32(LOG_CONTAINER_SIZE as u32, data_len),
            ),
            compression_method,
            reserved: 0,
            reserved2: 0,
            uncompressed_size,
            reserved3: 0,
        }
    }

    pub fn parse(bytes: &[u8], base: u64) -> (r: Result<Self>)
        requires
            offsets_fit(base, bytes.len(), 32),
        ensures
            match r {
                Ok(v) => {
                    &&& Self::failure(bytes@, base as int) is None
                    &&& v.reads(bytes@)
                    &&& bytes.len() >= 32
                },
                Err(e) => Self::failure(bytes@, base as int) == Some(e@),
            },
    {
        let ends = [4usize, 6, 8, 12, 16, 18, 20, 24, 28, 32];
        proof {
            assert(ends@ =~= Self::ends());
        }
        if bytes.len() >= OBJ_BASE_SIZE {
            let signature = crate::blf::bytes::read_array::<4>(bytes, 0);
            if !is_obj_signature(&signature) {
                return bad_signature(&signature, base);
            }
        }
        check_fields(&ends, bytes.len(), base)?;
        proof {
            assert(ends[9] == 32);
        }
        let base_obj = ObjBase {
            signature: crate::blf::bytes::read_array::<4>(bytes, 0),
            header_size: read_u16(bytes, 4),
            header_version: read_u16(bytes, 6),
            object_size: read_u32(bytes, 8),
            object_type: read_u32(bytes, 12),
        };
        Ok(
            LogContainer {
                base: base_obj,
                compression_method: read_u16(bytes, 16),
                reserved: read_u16(bytes, 18),
                reserved2: read_u32(bytes, 20),
                uncompressed_size: read_u32(bytes, 24),
                reserved3: read_u32(bytes, 28),
            },
        )
    }

    pub fn write_to(&self, out: &mut Vec<u8>)
        ensures
            final(out)@ == old(out)@ + self.encoding(),
    {
        self.base.write_to(out);
        put_u16(out, self.compression_method);
        put_u16(out, self.reserved);
        put_u32(out, self.reserved2);
        put_u32(out, self.uncompressed_size);
        put_u32(out, self.reserved3);
        proof {
            assert(out@ =~= old(out)@ + self.encoding());
        }
    }

    /// Reading bytes that start with those of a container header gives back its fields.
    pub proof fn law_read_of_prefix(self, s: Seq<u8>, base: int)
        requires
            self.base.signature@ == obj_signature(),
            starts_with(s, self.encoding()),
        ensures
            self.encoding().len() == 32,
            s.len() >= 32,
            Self::failure(s, base) is None,
            self.reads(s),
    {
        let c0 = self.base.encoding();
        let c1 = c0 + le_u16(self.compression_method);
        let c2 = c1 + le_u16(self.reserved);
        let c3 = c2 + le_u32(self.reserved2);
        let c4 = c3 + le_u32(self.uncompressed_size);
        lemma_field_u32(c4, self.reserved3, s);
        lemma_field_u32(c3, self.uncompressed_size, s);
        lemma_field_u32(c2, self.reserved2, s);
        lemma_field_u16(c1, self.reserved, s);
        lemma_field_u16(c0, self.compression_method, s);
        self.base.law_read_of_prefix(s, base);
        lemma_short_read_none(Self::ends(), 0, s.len() as int, base);
    }
}

} // verus!
