//! What is read of files, and what is refused.

use crate::blf::bytes::{lemma_short_read_none, u32_at};
use crate::blf::file_header::Header;
use crate::blf::error::Failure;
use crate::blf::header::{obj_signature, LObj, ObjBase};
use crate::blf::layout_laws::{law_little_endian_16, law_little_endian_32};
use crate::blf::object::BlfObject;
use crate::blf::object_type::ObjectType;
use crate::blf::stream::{
    header_failure, inner_step, limits_failure, object_failure, top_content, top_padding,
    BlfReaderOptions, InnerStep, TopContent,
};
use crate::blf::zlib::inflated;
use vstd::prelude::*;

verus! {

/// A reader takes limits that leave room for a file header of 72 bytes, a container header of 32
/// bytes and an object header of 16 bytes.
pub proof fn law_limits_taken(options: BlfReaderOptions)
    ensures
        limits_failure(options) is None <==> options.max_header_size >= 72
            && options.max_container_size >= 32 && options.max_object_size >= 16,
{
}

/// A file is taken if it starts with `LOGG` and a header of at least 72 bytes that is within the
/// limit and is there as a whole.
pub proof fn law_file_taken(file: Seq<u8>, options: BlfReaderOptions)
    requires
        limits_failure(options) is None,
    ensures
        header_failure(file, options) is None <==> {
            let size = file[4] + 256 * file[5] + 65536 * file[6] + 16777216 * file[7];
            &&& file.len() >= 8
            &&& file[0] == 0x4C && file[1] == 0x4F && file[2] == 0x47 && file[3] == 0x47
            &&& 72 <= size <= options.max_header_size
            &&& size <= file.len()
        },
        header_failure(file, options) is None ==> Header::failure(file, 0) is None,
{
    law_little_endian_32(file, 4);
    if file.len() >= 4 {
        let t = file.subrange(0, 4);
        assert(t[0] == file[0] && t[1] == file[1] && t[2] == file[2] && t[3] == file[3]);
        if file[0] == 0x4C && file[1] == 0x4F && file[2] == 0x47 && file[3] == 0x47 {
            assert(t =~= seq![0x4Cu8, 0x4F, 0x47, 0x47]);
        }
    }
}

/// An object header is taken if it starts with `LOBJ` and has the size of its version: 16 bytes
/// without a version, at least 32 in the first and at least 40 in the second.
pub proof fn law_object_header_taken(s: Seq<u8>, base: int)
    requires
        s.len() >= 16,
    ensures
        LObj::failure(s, base) is None <==> {
            let size = s[4] + 256 * s[5];
            let version = s[6] + 256 * s[7];
            &&& s[0] == 0x4C && s[1] == 0x4F && s[2] == 0x42 && s[3] == 0x4A
            &&& size <= s.len()
            &&& (version == 0 && size == 16) || (version == 1 && size >= 32) || (version == 2 && size
                >= 40)
        },
{
    law_little_endian_16(s, 4);
    law_little_endian_16(s, 6);
    lemma_short_read_none(ObjBase::ends(), 0, s.len() as int, base);
    let t = s.subrange(0, 4);
    assert(t[0] == s[0] && t[1] == s[1] && t[2] == s[2] && t[3] == s[3]);
    if s[0] == 0x4C && s[1] == 0x4F && s[2] == 0x42 && s[3] == 0x4A {
        assert(t =~= seq![0x4Cu8, 0x4F, 0x42, 0x4A]);
    }
}

/// The data of a container are the bytes behind its header where it is not compressed, and what
/// the ZLIB stream there decodes to where it is. They are as long as the container says, which an
/// uncompressed one may leave out. Any other method is refused.
pub proof fn law_container_read(s: Seq<u8>, at: int, options: BlfReaderOptions)
    ensures
        ({
            let t = s[12] + 256 * s[13] + 65536 * s[14] + 16777216 * s[15];
            let method = s[16] + 256 * s[17];
            let declared = s[24] + 256 * s[25] + 65536 * s[26] + 16777216 * s[27];
            let payload = s.subrange(32, s.len() as int);
            match top_content(s, at, options) {
                TopContent::Container(data) => {
                    &&& t == 10
                    &&& s.len() >= 32
                    &&& method == 0 || method == 2
                    &&& method == 0 ==> data == payload && (declared == 0 || declared == data.len())
                    &&& method == 2 ==> data.len() == declared && declared
                        <= options.max_container_size && inflated(payload, declared as usize)
                        == Ok::<Seq<u8>, Failure>(data)
                },
                TopContent::Object => t != 10 && object_failure(s, at) is None,
                TopContent::Fail(_) => {
                    ||| t != 10 && object_failure(s, at) is Some
                    ||| t == 10 && s.len() < 32
                    ||| t == 10 && method != 0 && method != 2
                    ||| t == 10 && method == 0 && declared != 0 && declared != payload.len()
                    ||| t == 10 && method == 2 && (declared > options.max_container_size || match inflated(
                        payload,
                        declared as usize,
                    ) {
                        Ok(data) => data.len() != declared,
                        Err(_) => true,
                    })
                },
            }
        }),
        ({
            let t = s[12] + 256 * s[13] + 65536 * s[14] + 16777216 * s[15];
            let size = s[8] + 256 * s[9] + 65536 * s[10] + 16777216 * s[11];
            t == 10 ==> top_padding(s) == size % 4
        }),
{
    law_little_endian_32(s, 8);
    law_little_endian_32(s, 12);
    law_little_endian_16(s, 16);
    law_little_endian_32(s, 24);
    ObjectType::law_raw_of_registered(u32_at(s, 12));
    assert(ObjectType::LogContainer.raw() == 10);
    ObjectType::law_of_raw_of_type(ObjectType::LogContainer);
}

/// An object is found in the data of containers where it starts with `LOBJ`, is within the limit
/// and can be read; the next one stands behind it and its padding. Reading goes on later where
/// there is not yet a whole object, and zeros at the end of the data are passed over.
pub proof fn law_object_found(data: Seq<u8>, pos: int, options: BlfReaderOptions)
    requires
        0 <= pos <= data.len(),
    ensures
        ({
            let s = data.subrange(pos, data.len() as int);
            let size = s[8] + 256 * s[9] + 65536 * s[10] + 16777216 * s[11];
            let t = s[12] + 256 * s[13] + 65536 * s[14] + 16777216 * s[15];
            match inner_step(data, pos, options) {
                InnerStep::Object(n, next) => {
                    &&& s.len() >= 16
                    &&& s[0] == 0x4C && s[1] == 0x4F && s[2] == 0x42 && s[3] == 0x4A
                    &&& n == size
                    &&& 16 <= size <= options.max_object_size
                    &&& object_failure(s.subrange(0, size), pos) is None
                    &&& next == pos + size + LObj::padding_of(t as u32, size as u32)
                    &&& next <= data.len()
                },
                InnerStep::Wait(p) => {
                    ||| p == data.len() && forall|i: int| 0 <= i < s.len() ==> #[trigger] s[i] == 0
                    ||| p == pos && s.len() < 16
                    ||| p == pos && s.len() < size + LObj::padding_of(t as u32, size as u32)
                },
                InnerStep::Fail(_) => {
                    &&& s.len() >= 16
                    &&& s.subrange(0, 4) != obj_signature() || size < 16 || size
                        > options.max_object_size || object_failure(s.subrange(0, size), pos) is Some
                },
            }
        }),
{
    reveal(inner_step);
    let s = data.subrange(pos, data.len() as int);
    law_little_endian_32(s, 8);
    law_little_endian_32(s, 12);
    if s.len() >= 4 {
        let t = s.subrange(0, 4);
        assert(t[0] == s[0] && t[1] == s[1] && t[2] == s[2] && t[3] == s[3]);
    }
}

/// An object of a type whose fields are known, with a header of 32 bytes in its first version, is
/// decoded; only a global marker may be kept as it is.
pub proof fn law_known_objects_decoded(o: BlfObject, s: Seq<u8>, base: int)
    requires
        o.reads(s, base),
        BlfObject::failure(s, base) is None,
    ensures
        ({
            let t = s[12] + 256 * s[13] + 65536 * s[14] + 16777216 * s[15];
            let plain = s[4] == 32 && s[5] == 0 && s[6] == 1 && s[7] == 0;
            let known = t == 1 || t == 2 || t == 3 || t == 4 || t == 5 || t == 6 || t == 7 || t == 8 || t == 9 || t == 11 || t == 31 || t == 44 || t == 46 || t == 51 || t == 57 || t == 65 || t == 71 || t == 72 || t == 73 || t == 74 || t == 86 || t == 91 || t == 92 || t == 96 || t == 100 || t == 101 || t == 102 || t == 103 || t == 104 || t == 114 || t == 115 || t == 119 || t == 120 || t == 121 || t == 122 || t == 123 || t == 124 || t == 125 || t == 126 || t == 127 || t == 128 || t == 129 || t == 130 || t == 131;
            &&& plain && known && t != 96 ==> !(o is Raw) && !(o is Unknown)
            &&& !plain || !known ==> o is Raw || o is Unknown
        }),
{
    reveal(BlfObject::reads);
    reveal(BlfObject::failure);
    law_little_endian_32(s, 12);
    law_little_endian_16(s, 4);
    law_little_endian_16(s, 6);
    ObjectType::law_raw_of_registered(u32_at(s, 12));
}

} // verus!
