//! Compression of log containers.

use crate::blf::error::{Error, Failure, Result};
use crate::text::{dec, push_dec};
use std::io::{Read, Write};
use vstd::prelude::*;

verus! {

/// What the DEFLATE encoder of `flate2` makes of data at its default level.
pub uninterp spec fn deflated(data: Seq<u8>) -> Seq<u8>;

/// `flate2::write::DeflateEncoder` over a `Vec`, fed with all the data and finished: it
/// succeeds, as a `Vec` takes all bytes and the encoder takes all data, and the bytes it has
/// written are a function of the data alone.
#[verifier::external_body]
fn deflate(data: &[u8]) -> (r: std::result::Result<Vec<u8>, String>)
    ensures
        r is Ok,
        r->Ok_0@ == deflated(data@),
{
    let mut enc = flate2::write::DeflateEncoder::new(Vec::new(), flate2::Compression::default());
    if let Err(e) = enc.write_all(data) {
        return Err(e.to_string());
    }
    match enc.finish() {
        Ok(v) => Ok(v),
        Err(e) => Err(e.to_string()),
    }
}

/// What the ZLIB decoder of `flate2` gives when it is read to the end, but for at most
/// `limit` bytes: the bytes, or the text of its error.
pub uninterp spec fn zlib_decoded(payload: Seq<u8>, limit: u64) -> std::result::Result<
    Seq<u8>,
    Seq<char>,
>;

/// The bytes or the message of an outcome.
pub open spec fn outcome(r: std::result::Result<Vec<u8>, String>) -> std::result::Result<
    Seq<u8>,
    Seq<char>,
> {
    match r {
        Ok(v) => Ok(v@),
        Err(m) => Err(m@),
    }
}

/// `flate2::read::ZlibDecoder` over a slice, read to the end through `Read::take`: the outcome
/// is a function of the payload and the limit, no more bytes come out than the limit
/// allows, and a payload that is a ZLIB header, the encoded data and its checksum comes out
/// as that data.
#[verifier::external_body]
fn zlib_read(payload: &[u8], limit: u64) -> (r: std::result::Result<Vec<u8>, String>)
    ensures
        outcome(r) == zlib_decoded(payload@, limit),
        r matches Ok(v) ==> v@.len() <= limit,
        forall|data: Seq<u8>|
            #![trigger zlib_stream(data)]
            payload@ == zlib_stream(data) && data.len() < limit ==> r is Ok && r->Ok_0@ == data,
{
    let mut out = Vec::new();
    match flate2::read::ZlibDecoder::new(payload).take(limit).read_to_end(&mut out) {
        Ok(_) => Ok(out),
        Err(e) => Err(e.to_string()),
    }
}

/// The two running sums of the Adler-32 checksum, each below 65521.
pub open spec fn adler_sums(data: Seq<u8>) -> (int, int)
    decreases data.len(),
{
    if data.len() == 0 {
        (1, 0)
    } else {
        let (a, b) = adler_sums(data.drop_last());
        let a2 = (a + data.last()) % 65521;
        (a2, (b + a2) % 65521)
    }
}

/// The Adler-32 checksum of data.
pub open spec fn adler_of(data: Seq<u8>) -> int {
    adler_sums(data).1 * 65536 + adler_sums(data).0
}

/// The Adler-32 checksum of data.
pub fn adler32(data: &[u8]) -> (r: u32)
    ensures
        r == adler_of(data@),
{
    let mut a: u32 = 1;
    let mut b: u32 = 0;
    let mut i: usize = 0;
    while i < data.len()
        invariant
            i <= data.len(),
            a < 65521,
            b < 65521,
            (a as int, b as int) == adler_sums(data@.subrange(0, i as int)),
        decreases data.len() - i,
    {
        let ghost before = data@.subrange(0, i as int);
        a = (a + data[i] as u32) % 65521;
        b = (b + a) % 65521;
        i += 1;
        proof {
            let now = data@.subrange(0, i as int);
            assert(now.drop_last() =~= before);
            assert(now.last() == data@[i - 1]);
        }
    }
    proof {
        assert(data@.subrange(0, data@.len() as int) =~= data@);
    }
    b * 65536 + a
}

/// The big-endian bytes of a 32-bit value.
pub open spec fn be_u32(v: u32) -> Seq<u8> {
    seq![
        (v / 16777216) as u8,
        (v / 65536 % 256) as u8,
        (v / 256 % 256) as u8,
        (v % 256) as u8,
    ]
}

/// The ZLIB stream that is written for data: a header, the encoded data, and the checksum
/// of the data.
pub open spec fn zlib_stream(data: Seq<u8>) -> Seq<u8> {
    seq![0x78u8, 0x01u8] + deflated(data) + be_u32(adler_of(data) as u32)
}

/// Compresses data into a ZLIB stream.
pub fn zlib_deflate(data: &[u8]) -> (r: Result<Vec<u8>>)
    ensures
        r matches Ok(v) && v@ == zlib_stream(data@),
{
    let encoded = match deflate(data) {
        Ok(v) => v,
        Err(e) => return Err(Error::Compression(e)),
    };
    let mut out: Vec<u8> = Vec::new();
    out.push(0x78);
    out.push(0x01);
    crate::blf::bytes::put_bytes(&mut out, &encoded);
    let sum: u32 = adler32(data);
    out.push((sum / 16777216) as u8);
    out.push((sum / 65536 % 256) as u8);
    out.push((sum / 256 % 256) as u8);
    out.push((sum % 256) as u8);
    proof {
        assert(out@ =~= zlib_stream(data@));
    }
    Ok(out)
}

/// What decompressing a payload to at most `limit` bytes gives: the bytes, or how it fails.
pub open spec fn inflated(payload: Seq<u8>, limit: usize) -> std::result::Result<
    Seq<u8>,
    Failure,
> {
    let read_limit = if limit < u64::MAX {
        (limit + 1) as u64
    } else {
        u64::MAX
    };
    if payload.len() < 6 {
        Err(
            Failure::Compression(
                "zlib container payload is shorter than its header and checksum"@,
            ),
        )
    } else {
        match zlib_decoded(payload, read_limit) {
            Err(message) => Err(Failure::Compression(message)),
            Ok(data) => if data.len() > limit {
                Err(
                    Failure::Compression(
                        "zlib output exceeds configured limit of "@ + dec(limit as nat)
                            + " bytes"@,
                    ),
                )
            } else {
                Ok(data)
            },
        }
    }
}

/// Whether decompressing gives back the data that a payload was made of.
pub open spec fn inflates_back(payload: Seq<u8>, limit: usize) -> bool {
    forall|data: Seq<u8>|
        #![trigger zlib_stream(data)]
        payload == zlib_stream(data) && data.len() <= limit && data.len() < u64::MAX ==> inflated(
            payload,
            limit,
        ) == Ok::<Seq<u8>, Failure>(data)
}

/// What [`zlib_inflate_limited`] does with the outcome of the decoder.
pub fn limit_output(
    decoded: std::result::Result<Vec<u8>, String>,
    limit: usize,
) -> (r: Result<Vec<u8>>)
    ensures
        match decoded {
            Err(m) => r is Err && r->Err_0@ == Failure::Compression(m@),
            Ok(v) => if v@.len() > limit {
                r is Err && r->Err_0@ == Failure::Compression(
                    "zlib output exceeds configured limit of "@ + dec(limit as nat) + " bytes"@,
                )
            } else {
                r is Ok && r->Ok_0@ == v@
            },
        },
{
    let out = match decoded {
        Ok(v) => v,
        Err(e) => return Err(Error::Compression(e)),
    };
    if out.len() > limit {
        let mut message = "zlib output exceeds configured limit of ".to_string();
        push_dec(&mut message, limit as u64);
        message.append(" bytes");
        return Err(Error::Compression(message));
    }
    Ok(out)
}

/// Decompresses a ZLIB stream to at most `limit` bytes. A stream that [`zlib_deflate`] made
/// of no more than that comes out as the data it was made of.
pub fn zlib_inflate_limited(payload: &[u8], limit: usize) -> (r: Result<Vec<u8>>)
    ensures
        match r {
            Ok(v) => {
                &&& inflated(payload@, limit) == Ok::<Seq<u8>, Failure>(v@)
                &&& v@.len() <= limit
            },
            Err(e) => inflated(payload@, limit) == Err::<Seq<u8>, Failure>(e@),
        },
        inflates_back(payload@, limit),
{
    if payload.len() < 6 {
        proof {
            assert forall|data: Seq<u8>| #![trigger zlib_stream(data)] payload@ == zlib_stream(
                data,
            ) implies false by {
                assert(zlib_stream(data).len() >= 6);
            }
        }
        return Err(
            Error::Compression(
                "zlib container payload is shorter than its header and checksum".to_string(),
            ),
        );
    }
    let read_limit: u64 = (limit as u64).saturating_add(1);
    let decoded = zlib_read(payload, read_limit);
    limit_output(decoded, limit)
}

} // verus!
