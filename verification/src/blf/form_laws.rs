//! The checksums, times and headers that files are made of.

use crate::blf::container::{container_bytes, lemma_container_fields, stored};
use crate::blf::file_header::{file_signature, Header};
use crate::blf::flags::ObjectFlags;
use crate::blf::header::{obj_signature, LObj};
use crate::blf::layout_laws::{law_little_endian_16, law_little_endian_32};
use crate::blf::lin::LinMessage2;
use crate::blf::time::{Time, UnixTime};
use crate::blf::zlib::{adler_of, adler_sums, zlib_stream};
use vstd::prelude::*;

verus! {

/// The checksum of no data is one. A further byte adds itself to the low half and the new low half
/// to the high half, both modulo 65521.
pub proof fn law_checksum_of_byte(data: Seq<u8>, byte: u8)
    ensures
        adler_of(Seq::empty()) == 1,
        ({
            let low = adler_of(data) % 65536;
            let high = adler_of(data) / 65536;
            let next = adler_of(data.push(byte));
            &&& 0 <= low < 65521
            &&& 0 <= high < 65521
            &&& next % 65536 == (low + byte) % 65521
            &&& next / 65536 == (high + (low + byte) % 65521) % 65521
        }),
{
    assert(data.push(byte).drop_last() =~= data);
    lemma_sums(data);
    lemma_sums(data.push(byte));
}

proof fn lemma_sums(data: Seq<u8>)
    ensures
        0 <= adler_sums(data).0 < 65521,
        0 <= adler_sums(data).1 < 65521,
    decreases data.len(),
{
    if data.len() > 0 {
        lemma_sums(data.drop_last());
    }
}

/// A ZLIB stream starts with the method and flags of a deflated stream without a dictionary, and
/// ends with the checksum of the data, the high byte first.
pub proof fn law_stream_framed(data: Seq<u8>)
    ensures
        ({
            let s = zlib_stream(data);
            let n = s.len();
            &&& n >= 6
            &&& s[0] == 0x78
            &&& (s[0] * 256 + s[1]) % 31 == 0
            &&& s[1] / 32 % 2 == 0
            &&& s[n - 4] * 16777216 + s[n - 3] * 65536 + s[n - 2] * 256 + s[n - 1] == adler_of(data)
        }),
{
    lemma_sums(data);
}

/// A container is an object of type ten: its header says how large it is, how it is compressed,
/// and how long the data are that it holds. The data stand behind the header, as they are where
/// it is not compressed.
pub proof fn law_container_form(data: Seq<u8>, compress: bool)
    requires
        data.len() <= u32::MAX,
        32 + stored(data, compress).len() <= u32::MAX,
    ensures
        ({
            let s = container_bytes(data, compress);
            let size = s[8] + 256 * s[9] + 65536 * s[10] + 16777216 * s[11];
            &&& s[0] == 0x4C && s[1] == 0x4F && s[2] == 0x42 && s[3] == 0x4A
            &&& s[4] == 16 && s[5] == 0
            &&& s[12] == 10 && s[13] == 0 && s[14] == 0 && s[15] == 0
            &&& s[16] == (if compress { 2u8 } else { 0 }) && s[17] == 0
            &&& s[24] + 256 * s[25] + 65536 * s[26] + 16777216 * s[27] == data.len()
            &&& s.len() == size + size % 4
            &&& !compress ==> s.subrange(32, size) == data
            &&& compress ==> s.subrange(32, size) == zlib_stream(data)
        }),
{
    lemma_container_fields(data, compress);
    let s = container_bytes(data, compress);
    law_little_endian_16(s, 4);
    law_little_endian_32(s, 8);
    law_little_endian_32(s, 12);
    law_little_endian_16(s, 16);
    law_little_endian_32(s, 24);
    let t = s.subrange(0, 4);
    assert(t[0] == s[0] && t[1] == s[1] && t[2] == s[2] && t[3] == s[3]);
}

/// The fields of a calendar time: the seconds of the day are those of its hour, minute and
/// second; day zero is a Thursday, and a week has seven days from Sunday on.
pub proof fn law_time_fields(time: Time, t: UnixTime)
    requires
        time.is_time_of(t),
    ensures
        time.hour * 3600 + time.minute * 60 + time.second == t.secs as int % 86400,
        time.hour < 24,
        time.minute < 60,
        time.second < 60,
        time.day_of_week < 7,
        time.day_of_week == (t.secs as int / 86400 + 4) % 7,
        time.milliseconds == t.nanos / 1_000_000,
        1 <= time.month <= 12,
        1 <= time.day <= 31,
{
}

/// The point in time of a calendar time has its milliseconds as nanoseconds.
pub proof fn law_point_of_time(time: Time)
    requires
        time.valid(),
    ensures
        time.point().nanos == time.milliseconds * 1_000_000,
        time.point().secs == time.unix_secs(),
        time.unix_secs() % 86400 == time.hour * 3600 + time.minute * 60 + time.second,
{
}

/// A new object header is one of 32 bytes in its first version, with the signature `LOBJ`, the
/// type, flags, time and size given.
pub proof fn law_new_object_header(
    header: LObj,
    object_type: u32,
    object_flags: ObjectFlags,
    timestamp: u64,
    object_size: u32,
)
    requires
        header.is_new(object_type, object_flags, timestamp, object_size),
    ensures
        header.base.signature@ == seq![0x4Cu8, 0x4F, 0x42, 0x4A],
        header.base.header_size == 32,
        header.base.header_version == 1,
        header.base.object_type == object_type,
        header.base.object_size == object_size,
        header.object_flags == object_flags,
        header.timestamp == timestamp,
        header.client_index == 0,
        header.header_extension@.len() == 0,
{
}

/// A file header has 72 bytes, eight for the offset of restore points if it has one, and its
/// reserved bytes; it starts with `LOGG`.
pub proof fn law_header_size(header: Header)
    ensures
        header.encoding().len() == 72 + (if header.restore_point_offset is Some {
            8int
        } else {
            0
        }) + header.reserved3@.len(),
        header.spec_encoded_size() == header.encoding().len(),
        file_signature() == seq![0x4Cu8, 0x4F, 0x47, 0x47],
        obj_signature() == seq![0x4Cu8, 0x4F, 0x42, 0x4A],
{
    header.lemma_encoding_len();
}

/// A LIN message of at least 168 bytes has the baud rate of its response, and one of at least 184
/// bytes also exact timings.
pub proof fn law_lin_generations(m: LinMessage2, s: Seq<u8>)
    requires
        m.reads(s),
    ensures
        ({
            let size = s[8] + 256 * s[9] + 65536 * s[10] + 16777216 * s[11];
            &&& m.api_major == if size >= 184 {
                3u8
            } else if size >= 168 {
                2
            } else {
                1
            }
            &&& size >= 168 ==> m.response_baudrate == s[164] + 256 * s[165] + 65536 * s[166]
                + 16777216 * s[167]
            &&& size < 168 ==> m.response_baudrate == 0
            &&& size >= 184 ==> m.early_stop_bit_offset == s[176] + 256 * s[177] + 65536 * s[178]
                + 16777216 * s[179]
            &&& size < 184 ==> m.early_stop_bit_offset == 0
        }),
{
    law_little_endian_32(s, 8);
    law_little_endian_32(s, 164);
    law_little_endian_32(s, 176);
}

} // verus!
