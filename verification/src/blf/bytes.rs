//! Little-endian fields in byte sequences.

use crate::blf::error::{parse_err, Failure, Result};
use crate::text::{dec, push_dec};
use vstd::prelude::*;

verus! {

/// The little-endian bytes of a 16-bit value.
#[verifier::opaque]
pub open spec fn le_u16(v: u16) -> Seq<u8> {
    seq![(v % 256) as u8, (v / 256) as u8]
}

/// The little-endian bytes of a 32-bit value.
#[verifier::opaque]
pub open spec fn le_u32(v: u32) -> Seq<u8> {
    seq![
        (v % 256) as u8,
        (v / 256 % 256) as u8,
        (v / 65536 % 256) as u8,
        (v / 16777216) as u8,
    ]
}

/// The little-endian bytes of a 64-bit value.
#[verifier::opaque]
pub open spec fn le_u64(v: u64) -> Seq<u8> {
    le_u32((v % 0x1_0000_0000) as u32) + le_u32((v / 0x1_0000_0000) as u32)
}

/// The 16-bit value that stands at `i` in little-endian order.
#[verifier::opaque]
pub open spec fn u16_at(s: Seq<u8>, i: int) -> u16 {
    (s[i] + 256 * s[i + 1]) as u16
}

/// The 32-bit value that stands at `i` in little-endian order.
#[verifier::opaque]
pub open spec fn u32_at(s: Seq<u8>, i: int) -> u32 {
    (s[i] + 256 * s[i + 1] + 65536 * s[i + 2] + 16777216 * s[i + 3]) as u32
}

/// The 64-bit value that stands at `i` in little-endian order.
#[verifier::opaque]
pub open spec fn u64_at(s: Seq<u8>, i: int) -> u64 {
    (u32_at(s, i) + 0x1_0000_0000 * u32_at(s, i + 4)) as u64
}

/// The signed 16-bit value with the bits of `v`.
pub open spec fn signed16(v: u16) -> i16 {
    if v < 32768 {
        v as i16
    } else {
        (v - 65536) as i16
    }
}

/// The unsigned 16-bit value with the bits of `v`.
pub open spec fn unsigned16(v: i16) -> u16 {
    if v >= 0 {
        v as u16
    } else {
        (v + 65536) as u16
    }
}

/// The low 32 bits of a number.
#[verifier::opaque]
pub open spec fn low32(n: int) -> u32 {
    (n % 0x1_0000_0000) as u32
}

/// The low 16 bits of a number.
#[verifier::opaque]
pub open spec fn low16(n: int) -> u16 {
    (n % 0x1_0000) as u16
}

/// The low 8 bits of a number.
#[verifier::opaque]
pub open spec fn low8(n: int) -> u8 {
    (n % 256) as u8
}

/// A number that fits is its own low 32 bits.
pub proof fn lemma_low32(n: int)
    requires
        0 <= n <= u32::MAX,
    ensures
        low32(n) == n,
{
    reveal(low32);
}

/// A number that fits is its own low 16 bits.
pub proof fn lemma_low16(n: int)
    requires
        0 <= n <= u16::MAX,
    ensures
        low16(n) == n,
{
    reveal(low16);
}

/// A number that fits is its own low 8 bits.
pub proof fn lemma_low8(n: int)
    requires
        0 <= n <= u8::MAX,
    ensures
        low8(n) == n,
{
    reveal(low8);
}

pub(crate) fn low_u32(n: usize) -> (r: u32)
    ensures
        r == low32(n as int),
{
    proof {
        reveal(low32);
    }
    (n as u64 % 0x1_0000_0000) as u32
}

pub(crate) fn low_u16(n: usize) -> (r: u16)
    ensures
        r == low16(n as int),
{
    proof {
        reveal(low16);
    }
    (n % 0x1_0000) as u16
}

pub(crate) fn low_u8(n: usize) -> (r: u8)
    ensures
        r == low8(n as int),
{
    proof {
        reveal(low8);
    }
    (n % 256) as u8
}

/// The low 32 bits of `fixed + n`, whatever the sum is.
pub(crate) fn size_u32(fixed: u32, n: usize) -> (r: u32)
    ensures
        r == low32(fixed + n),
{
    proof {
        reveal(low32);
    }
    let sum = fixed as u128 + n as u128;
    (sum % 0x1_0000_0000) as u32
}

/// The low 32 bits of `fixed + a + b`, whatever the sum is.
pub(crate) fn size2_u32(fixed: u32, a: usize, b: usize) -> (r: u32)
    ensures
        r == low32(fixed + a + b),
{
    proof {
        reveal(low32);
    }
    let sum = fixed as u128 + a as u128 + b as u128;
    (sum % 0x1_0000_0000) as u32
}

pub(crate) fn read_u16(bytes: &[u8], at: usize) -> (r: u16)
    requires
        at + 2 <= bytes.len(),
    ensures
        r == u16_at(bytes@, at as int),
{
    proof {
        reveal(u16_at);
    }
    bytes[at] as u16 + 256 * bytes[at + 1] as u16
}

pub(crate) fn read_i16(bytes: &[u8], at: usize) -> (r: i16)
    requires
        at + 2 <= bytes.len(),
    ensures
        r == signed16(u16_at(bytes@, at as int)),
{
    let v: u16 = read_u16(bytes, at);
    if v < 32768 {
        v as i16
    } else {
        (v as i32 - 65536) as i16
    }
}

pub(crate) fn read_u32(bytes: &[u8], at: usize) -> (r: u32)
    requires
        at + 4 <= bytes.len(),
    ensures
        r == u32_at(bytes@, at as int),
{
    proof {
        reveal(u32_at);
    }
    bytes[at] as u32 + 256 * bytes[at + 1] as u32 + 65536 * bytes[at + 2] as u32 + 16777216
        * bytes[at + 3] as u32
}

pub(crate) fn read_u64(bytes: &[u8], at: usize) -> (r: u64)
    requires
        at + 8 <= bytes.len(),
    ensures
        r == u64_at(bytes@, at as int),
{
    proof {
        reveal(u64_at);
    }
    read_u32(bytes, at) as u64 + 0x1_0000_0000 * read_u32(bytes, at + 4) as u64
}

/// A copy of the `N` bytes from `at` on.
pub(crate) fn read_array<const N: usize>(bytes: &[u8], at: usize) -> (r: [u8; N])
    requires
        at + N <= bytes.len(),
    ensures
        r@ == bytes@.subrange(at as int, at + N),
{
    let mut a = [0u8;N];
    let mut i: usize = 0;
    while i < N
        invariant
            i <= N,
            a@.len() == N,
            at + N <= bytes.len(),
            forall|j: int| 0 <= j < i ==> a@[j] == bytes@[at + j],
        decreases N - i,
    {
        a[i] = bytes[at + i];
        i += 1;
    }
    proof {
        assert(a@ =~= bytes@.subrange(at as int, at + N));
    }
    a
}

/// A copy of the bytes from `from` up to `to`.
pub(crate) fn read_bytes(bytes: &[u8], from: usize, to: usize) -> (r: Vec<u8>)
    requires
        from <= to <= bytes.len(),
    ensures
        r@ == bytes@.subrange(from as int, to as int),
{
    let mut v: Vec<u8> = Vec::new();
    put_bytes(&mut v, &bytes[from..to]);
    proof {
        assert(v@ =~= bytes@.subrange(from as int, to as int));
    }
    v
}

pub(crate) fn put_bytes(out: &mut Vec<u8>, bytes: &[u8])
    ensures
        final(out)@ == old(out)@ + bytes@,
{
    out.extend_from_slice(bytes);
    proof {
        assert(out@ =~= old(out)@ + bytes@);
    }
}

pub(crate) fn put_u8(out: &mut Vec<u8>, v: u8)
    ensures
        final(out)@ == old(out)@ + seq![v],
{
    out.push(v);
    proof {
        assert(out@ =~= old(out)@ + seq![v]);
    }
}

pub(crate) fn put_u16(out: &mut Vec<u8>, v: u16)
    ensures
        final(out)@ == old(out)@ + le_u16(v),
{
    proof {
        reveal(le_u16);
    }
    out.push((v % 256) as u8);
    out.push((v / 256) as u8);
    proof {
        assert(out@ =~= old(out)@ + le_u16(v));
    }
}

pub(crate) fn put_i16(out: &mut Vec<u8>, v: i16)
    ensures
        final(out)@ == old(out)@ + le_u16(unsigned16(v)),
{
    if v >= 0 {
        put_u16(out, v as u16);
    } else {
        put_u16(out, (v as i32 + 65536) as u16);
    }
}

pub(crate) fn put_u32(out: &mut Vec<u8>, v: u32)
    ensures
        final(out)@ == old(out)@ + le_u32(v),
{
    proof {
        reveal(le_u32);
    }
    out.push((v % 256) as u8);
    out.push((v / 256 % 256) as u8);
    out.push((v / 65536 % 256) as u8);
    out.push((v / 16777216) as u8);
    proof {
        assert(out@ =~= old(out)@ + le_u32(v));
    }
}

pub(crate) fn put_u64(out: &mut Vec<u8>, v: u64)
    ensures
        final(out)@ == old(out)@ + le_u64(v),
{
    proof {
        reveal(le_u64);
    }
    put_u32(out, (v % 0x1_0000_0000) as u32);
    put_u32(out, (v / 0x1_0000_0000) as u32);
    proof {
        assert(out@ =~= old(out)@ + le_u64(v));
    }
}

/// Reading back the bytes of a 16-bit value gives the value.
pub proof fn lemma_u16_bytes(s: Seq<u8>, i: int, v: u16)
    requires
        0 <= i,
        i + 2 <= s.len(),
        s.subrange(i, i + 2) == le_u16(v),
    ensures
        u16_at(s, i) == v,
{
    reveal(u16_at);
    reveal(le_u16);
    let b = s.subrange(i, i + 2);
    assert(s[i] == b[0] && s[i + 1] == b[1]);
}

/// Reading back the bytes of a 32-bit value gives the value.
pub proof fn lemma_u32_bytes(s: Seq<u8>, i: int, v: u32)
    requires
        0 <= i,
        i + 4 <= s.len(),
        s.subrange(i, i + 4) == le_u32(v),
    ensures
        u32_at(s, i) == v,
{
    reveal(u32_at);
    reveal(le_u32);
    let b = s.subrange(i, i + 4);
    assert(s[i] == b[0] && s[i + 1] == b[1] && s[i + 2] == b[2] && s[i + 3] == b[3]);
}

/// Reading back the bytes of a 64-bit value gives the value.
pub proof fn lemma_u64_bytes(s: Seq<u8>, i: int, v: u64)
    requires
        0 <= i,
        i + 8 <= s.len(),
        s.subrange(i, i + 8) == le_u64(v),
    ensures
        u64_at(s, i) == v,
{
    reveal(u64_at);
    reveal(le_u64);
    reveal(le_u32);
    let b = s.subrange(i, i + 8);
    let low = (v % 0x1_0000_0000) as u32;
    let high = (v / 0x1_0000_0000) as u32;
    assert(s.subrange(i, i + 4) =~= le_u32(low)) by {
        assert forall|j: int| 0 <= j < 4 implies s[i + j] == le_u32(low)[j] by {
            assert(s[i + j] == b[j]);
        }
    }
    assert(s.subrange(i + 4, i + 8) =~= le_u32(high)) by {
        assert forall|j: int| 0 <= j < 4 implies s[i + 4 + j] == le_u32(high)[j] by {
            assert(s[i + 4 + j] == b[4 + j]);
        }
    }
    lemma_u32_bytes(s, i, low);
    lemma_u32_bytes(s, i + 4, high);
}

/// Whether the bytes start with `start`.
#[verifier::opaque]
pub open spec fn starts_with(s: Seq<u8>, start: Seq<u8>) -> bool {
    start.len() <= s.len() && s.subrange(0, start.len() as int) == start
}

/// Bytes start with themselves.
pub proof fn lemma_starts_with_self(s: Seq<u8>)
    ensures
        starts_with(s, s),
{
    reveal(starts_with);
    assert(s.subrange(0, s.len() as int) =~= s);
}

/// Bytes that stand at the end of a prefix stand at that place in the whole.
pub proof fn lemma_field_bytes(before: Seq<u8>, field: Seq<u8>, s: Seq<u8>)
    requires
        starts_with(s, before + field),
    ensures
        starts_with(s, before),
        s.subrange(before.len() as int, (before.len() + field.len()) as int) == field,
        before.len() + field.len() <= s.len(),
{
    reveal(starts_with);
    let start = before + field;
    assert(start =~= s.subrange(0, start.len() as int));
    assert forall|i: int| 0 <= i < start.len() implies s[i] == start[i] by {
        assert(s.subrange(0, start.len() as int)[i] == start[i]);
    }
    assert(before =~= s.subrange(0, before.len() as int));
    assert(s.subrange(before.len() as int, (before.len() + field.len()) as int) =~= field);
}

/// A byte that stands at the end of a prefix is read back at that place.
pub proof fn lemma_field_u8(before: Seq<u8>, v: u8, s: Seq<u8>)
    requires
        starts_with(s, before + seq![v]),
    ensures
        starts_with(s, before),
        s[before.len() as int] == v,
        before.len() + 1 <= s.len(),
{
    lemma_field_bytes(before, seq![v], s);
    assert(s.subrange(before.len() as int, (before.len() + 1) as int)[0] == v);
}

/// A 16-bit value that stands at the end of a prefix is read back at that place.
pub proof fn lemma_field_u16(before: Seq<u8>, v: u16, s: Seq<u8>)
    requires
        starts_with(s, before + le_u16(v)),
    ensures
        starts_with(s, before),
        u16_at(s, before.len() as int) == v,
        le_u16(v).len() == 2,
        before.len() + 2 <= s.len(),
{
    lemma_le_u16_len(v);
    lemma_field_bytes(before, le_u16(v), s);
    lemma_u16_bytes(s, before.len() as int, v);
}

/// A 32-bit value that stands at the end of a prefix is read back at that place.
pub proof fn lemma_field_u32(before: Seq<u8>, v: u32, s: Seq<u8>)
    requires
        starts_with(s, before + le_u32(v)),
    ensures
        starts_with(s, before),
        u32_at(s, before.len() as int) == v,
        le_u32(v).len() == 4,
        before.len() + 4 <= s.len(),
{
    lemma_le_u32_len(v);
    lemma_field_bytes(before, le_u32(v), s);
    lemma_u32_bytes(s, before.len() as int, v);
}

/// A 64-bit value that stands at the end of a prefix is read back at that place.
pub proof fn lemma_field_u64(before: Seq<u8>, v: u64, s: Seq<u8>)
    requires
        starts_with(s, before + le_u64(v)),
    ensures
        starts_with(s, before),
        u64_at(s, before.len() as int) == v,
        le_u64(v).len() == 8,
        before.len() + 8 <= s.len(),
{
    lemma_le_u64_len(v);
    lemma_field_bytes(before, le_u64(v), s);
    lemma_u64_bytes(s, before.len() as int, v);
}

/// A value that stands in a part of the bytes stands in the whole, further behind.
pub proof fn lemma_part(s: Seq<u8>, from: int, to: int, i: int)
    requires
        0 <= from <= to <= s.len(),
        0 <= i,
    ensures
        from + i + 2 <= to ==> u16_at(s.subrange(from, to), i) == u16_at(s, from + i),
        from + i + 4 <= to ==> u32_at(s.subrange(from, to), i) == u32_at(s, from + i),
{
    reveal(u16_at);
    reveal(u32_at);
}

/// Length of a 16-bit value.
pub proof fn lemma_le_u16_len(v: u16)
    ensures
        le_u16(v).len() == 2,
{
    reveal(le_u16);
}

/// Length of a 32-bit value.
pub proof fn lemma_le_u32_len(v: u32)
    ensures
        le_u32(v).len() == 4,
{
    reveal(le_u32);
}

/// Length of a 64-bit value.
pub proof fn lemma_le_u64_len(v: u64)
    ensures
        le_u64(v).len() == 8,
{
    reveal(le_u64);
    reveal(le_u32);
}

/// The bytes of the 16-bit value that was read are the bytes that it was read from.
pub proof fn lemma_le_u16_at(s: Seq<u8>, i: int)
    requires
        0 <= i,
        i + 2 <= s.len(),
    ensures
        le_u16(u16_at(s, i)) == s.subrange(i, i + 2),
{
    reveal(u16_at);
    reveal(le_u16);
    assert(le_u16(u16_at(s, i)) =~= s.subrange(i, i + 2));
}

/// The bytes of the 32-bit value that was read are the bytes that it was read from.
pub proof fn lemma_le_u32_at(s: Seq<u8>, i: int)
    requires
        0 <= i,
        i + 4 <= s.len(),
    ensures
        le_u32(u32_at(s, i)) == s.subrange(i, i + 4),
{
    reveal(u32_at);
    reveal(le_u32);
    let v = u32_at(s, i) as int;
    let (b0, b1, b2, b3) = (s[i] as int, s[i + 1] as int, s[i + 2] as int, s[i + 3] as int);
    assert(v / 256 == b1 + 256 * b2 + 65536 * b3);
    assert(v / 65536 == b2 + 256 * b3);
    assert(v / 16777216 == b3);
    assert(le_u32(u32_at(s, i)) =~= s.subrange(i, i + 4));
}

/// The bytes of the 64-bit value that was read are the bytes that it was read from.
pub proof fn lemma_le_u64_at(s: Seq<u8>, i: int)
    requires
        0 <= i,
        i + 8 <= s.len(),
    ensures
        le_u64(u64_at(s, i)) == s.subrange(i, i + 8),
{
    reveal(u64_at);
    reveal(le_u64);
    let low = u32_at(s, i);
    let high = u32_at(s, i + 4);
    let v = u64_at(s, i);
    assert(v % 0x1_0000_0000 == low);
    assert(v / 0x1_0000_0000 == high);
    lemma_le_u32_at(s, i);
    lemma_le_u32_at(s, i + 4);
    assert(le_u64(v) =~= s.subrange(i, i + 8));
}

/// The message of a read past the end.
pub open spec fn end_message(need: int, have: int) -> Seq<char> {
    "unexpected end of data: need "@ + dec(need as nat) + " bytes, have "@ + dec(have as nat)
}

/// How reading fields one after another fails on `avail` bytes, from field `k` on: at
/// the first field whose end, as listed in `ends`, lies behind the available bytes.
pub open spec fn short_read(ends: Seq<usize>, k: int, avail: int, base: int) -> Option<Failure>
    decreases ends.len() - k,
{
    if k < 0 || k >= ends.len() {
        None
    } else if ends[k] > avail {
        let start: int = if k == 0 {
            0
        } else {
            ends[k - 1] as int
        };
        Some(Failure::Parse(base + start, end_message(ends[k] - start, avail - start)))
    } else {
        short_read(ends, k + 1, avail, base)
    }
}

/// A read that finds all its fields does not fail.
pub proof fn lemma_short_read_none(ends: Seq<usize>, k: int, avail: int, base: int)
    requires
        0 <= k,
        forall|j: int| k <= j < ends.len() ==> ends[j] <= avail,
    ensures
        short_read(ends, k, avail, base) is None,
    decreases ends.len() - k,
{
    if k < ends.len() {
        lemma_short_read_none(ends, k + 1, avail, base);
    }
}

/// Whether the offsets of bytes at `base`, `room` of them at most, fit the type of offsets.
pub open spec fn offsets_fit(base: u64, len: usize, room: int) -> bool {
    base + (if len < room {
        len as int
    } else {
        room
    }) <= u64::MAX
}

/// Checks that the fields with the ends `ends`, in ascending order, lie within
/// `avail` bytes.
pub(crate) fn check_fields(ends: &[usize], avail: usize, base: u64) -> (r: Result<()>)
    requires
        forall|i: int, j: int| 0 <= i < j < ends.len() ==> ends[i] <= ends[j],
        ends.len() > 0 ==> offsets_fit(base, avail, ends[ends.len() - 1] as int),
    ensures
        match r {
            Ok(_) => {
                &&& short_read(ends@, 0, avail as int, base as int) is None
                &&& forall|j: int| 0 <= j < ends.len() ==> ends[j] <= avail
            },
            Err(e) => short_read(ends@, 0, avail as int, base as int) == Some(e@),
        },
{
    let mut start: usize = 0;
    let mut k: usize = 0;
    while k < ends.len()
        invariant
            k <= ends.len(),
            start == (if k == 0 { 0 } else { ends[k - 1] as int }),
            start <= avail,
            ends.len() > 0 ==> offsets_fit(base, avail, ends[ends.len() - 1] as int),
            forall|i: int, j: int| 0 <= i < j < ends.len() ==> ends[i] <= ends[j],
            forall|j: int| 0 <= j < k ==> ends[j] <= avail,
            short_read(ends@, 0, avail as int, base as int) == short_read(
                ends@,
                k as int,
                avail as int,
                base as int,
            ),
        decreases ends.len() - k,
    {
        let end: usize = ends[k];
        if end > avail {
            let mut message = "unexpected end of data: need ".to_string();
            push_dec(&mut message, (end - start) as u64);
            message.append(" bytes, have ");
            push_dec(&mut message, (avail - start) as u64);
            return parse_err(base + start as u64, message);
        }
        start = end;
        k += 1;
    }
    Ok(())
}

} // verus!
