//! What a file says of the number and size of its objects.

use crate::blf::bytes::{lemma_field_bytes, lemma_starts_with_self, starts_with, u32_at, u64_at};
use crate::blf::container::{
    containers, flat, object_stream, padded_bytes, uncompressed_size, Layout,
};
use crate::blf::error::Failure;
use crate::blf::file::{count_type, lemma_types_of, passes, passing, types_of, updated_header, BlfFile};
use crate::blf::file_header::Header;
use crate::blf::file_laws::{lemma_closed_flat, lemma_layout_flat};
use crate::blf::frames::time_base;
use crate::blf::object::BlfObject;
use crate::blf::object_type::ObjectType;
use crate::span::Span;
use vstd::prelude::*;

verus! {

/// A filter of types leaves the objects of those types, each once and in their order; without a
/// filter all objects are left.
pub proof fn law_objects_passing(objects: Seq<BlfObject>, filter: Option<Seq<ObjectType>>)
    ensures
        filter is None ==> passing(objects, filter) == Seq::new(objects.len(), |i: int| i),
        forall|i: int|
            #![trigger objects[i]]
            0 <= i < objects.len() ==> (passing(objects, filter).contains(i) <==> (filter matches Some(
                types,
            ) ==> exists|k: int|
                0 <= k < types.len() && (#[trigger] types[k]).raw() == objects[i].head().base.object_type)),
        forall|k: int|
            0 <= k < passing(objects, filter).len() ==> 0 <= #[trigger] passing(objects, filter)[k]
                < objects.len(),
        forall|j: int, k: int|
            0 <= j < k < passing(objects, filter).len() ==> #[trigger] passing(objects, filter)[j]
                < #[trigger] passing(objects, filter)[k],
    decreases objects.len(),
{
    let all = passing(objects, filter);
    if objects.len() > 0 {
        let less = objects.drop_last();
        law_objects_passing(less, filter);
        let before = passing(less, filter);
        let n = objects.len() - 1;
        assert(forall|k: int| 0 <= k < before.len() ==> all[k] == before[k]);
        assert forall|k: int| 0 <= k < all.len() implies 0 <= #[trigger] all[k] < objects.len() by {
            if k < before.len() {
                assert(before[k] < less.len());
            }
        }
        assert forall|i: int|
            #![trigger objects[i]]
            0 <= i < objects.len() implies (all.contains(i) <==> passes(filter, objects[i])) by {
            if i < n {
                assert(less[i] == objects[i]);
                if before.contains(i) {
                    let k = choose|k: int| 0 <= k < before.len() && before[k] == i;
                    assert(all[k] == i);
                }
                if all.contains(i) {
                    let k = choose|k: int| 0 <= k < all.len() && all[k] == i;
                    assert(k < before.len());
                    assert(before[k] == i);
                }
            } else {
                if passes(filter, objects[i]) {
                    assert(all[before.len() as int] == i);
                }
                if all.contains(i) {
                    let k = choose|k: int| 0 <= k < all.len() && all[k] == i;
                    if k < before.len() {
                        assert(before[k] < less.len());
                    }
                }
            }
        }
        if filter is None {
            assert(all =~= Seq::new(objects.len(), |i: int| i));
        }
    } else if filter is None {
        assert(all =~= Seq::new(objects.len(), |i: int| i));
    }
}

/// The number of objects of a type in one list and another is that in both together. An object
/// is of one type only.
pub proof fn law_count_of_type(a: Seq<BlfObject>, b: Seq<BlfObject>, o: BlfObject, t: u32)
    ensures
        count_type(a + b, t) == count_type(a, t) + count_type(b, t),
        count_type(seq![o], t) == if o.head().base.object_type == t { 1int } else { 0 },
        count_type(Seq::empty(), t) == 0,
    decreases b.len(),
{
    let one = seq![o];
    assert(one.drop_last() =~= Seq::<BlfObject>::empty());
    assert(count_type(one.drop_last(), t) == 0);
    assert(one.last() == o);
    if b.len() == 0 {
        assert(a + b =~= a);
    } else {
        law_count_of_type(a, b.drop_last(), o, t);
        assert((a + b).drop_last() =~= a + b.drop_last());
        assert((a + b).last() == b.last());
    }
}

/// The types that are counted are those of the objects, each once.
pub proof fn law_types_counted(objects: Seq<BlfObject>, t: u32)
    ensures
        types_of(objects).contains(t) <==> exists|i: int|
            0 <= i < objects.len() && (#[trigger] objects[i]).head().base.object_type == t,
        forall|i: int, j: int|
            0 <= i < j < types_of(objects).len() ==> types_of(objects)[i] != types_of(objects)[j],
    decreases objects.len(),
{
    lemma_types_of(objects);
    if objects.len() > 0 {
        let less = objects.drop_last();
        law_types_counted(less, t);
        let before = types_of(less);
        let all = types_of(objects);
        let last = objects.last().head().base.object_type;
        if before.contains(t) {
            let k = choose|k: int| 0 <= k < before.len() && before[k] == t;
            assert(all[k] == t);
            let i = choose|i: int|
                0 <= i < less.len() && (#[trigger] less[i]).head().base.object_type == t;
            assert(objects[i] == less[i]);
        }
        if last == t {
            assert(objects[objects.len() - 1].head().base.object_type == t);
            if !before.contains(t) {
                assert(all[before.len() as int] == t);
            }
        }
        if all.contains(t) && last != t {
            let k = choose|k: int| 0 <= k < all.len() && all[k] == t;
            assert(before[k] == t);
        }
        if exists|i: int|
            0 <= i < objects.len() && (#[trigger] objects[i]).head().base.object_type == t {
            let i = choose|i: int|
                0 <= i < objects.len() && (#[trigger] objects[i]).head().base.object_type == t;
            if i < less.len() {
                assert(less[i] == objects[i]);
            }
        }
    }
}

proof fn lemma_stream_sum(a: Seq<BlfObject>, b: Seq<BlfObject>)
    ensures
        object_stream(a + b).len() == object_stream(a).len() + object_stream(b).len(),
    decreases b.len(),
{
    if b.len() == 0 {
        assert(a + b =~= a);
    } else {
        lemma_stream_sum(a, b.drop_last());
        assert((a + b).drop_last() =~= a + b.drop_last());
        assert((a + b).last() == b.last());
    }
}

/// Uncompressed, containers hold the bytes of their objects behind 32 bytes each.
pub proof fn law_uncompressed_size(groups: Seq<Seq<BlfObject>>)
    ensures
        uncompressed_size(groups) == 32 * groups.len() + object_stream(flat(groups)).len(),
    decreases groups.len(),
{
    if groups.len() > 0 {
        law_uncompressed_size(groups.drop_last());
        lemma_stream_sum(flat(groups.drop_last()), groups.last());
    }
}

/// A file that is written says how long it is, how long it would be if its containers held the
/// objects as they are, and how many objects it has. It says of its producer and its time what
/// the file says.
pub proof fn law_sizes_of_written(file: BlfFile, bytes: Seq<u8>)
    requires
        file.file_bytes() == Ok::<Seq<u8>, Failure>(bytes),
    ensures
        bytes.len() >= 72,
        u64_at(bytes, 16) == bytes.len() % 0x1_0000_0000_0000_0000,
        u64_at(bytes, 24) == (file.header.spec_encoded_size() + 32 * file.groups().len()
            + object_stream(file.objects@).len()) % 0x1_0000_0000_0000_0000,
        file.objects@.len() <= u32::MAX ==> u32_at(bytes, 32) == file.objects@.len(),
        u32_at(bytes, 4) == file.header.spec_encoded_size(),
        bytes[12] == file.header.app_id.0,
        bytes[13] == file.header.compression,
        bytes[14] == file.header.app_major,
        bytes[15] == file.header.app_minor,
        u32_at(bytes, 36) == file.header.app_build,
        file.header.start.reads(bytes, 40),
        file.header.end.reads(bytes, 56),
        file.objects@.len() == 0 ==> bytes.len() == file.header.spec_encoded_size(),
{
    let size = file.header.spec_encoded_size();
    let compress = file.header.compression > 0;
    let groups = file.groups();
    let body = containers(groups, compress);
    let h = file.written_header();
    if file.objects@.len() == 0 {
        assert(bytes =~= h.encoding() + body);
        assert(flat(groups) =~= file.objects@);
    } else {
        let l = Layout::of(file.objects@, compress, size)->Ok_0;
        let m = l.closed()->Ok_0;
        assert(bytes == h.encoding() + body);
        lemma_layout_flat(file.objects@, compress, size);
        lemma_closed_flat(l);
        reveal(Layout::closed);
        assert(flat(m.groups) + Seq::<BlfObject>::empty() =~= flat(m.groups));
    }
    assert(flat(groups) == file.objects@);
    law_uncompressed_size(groups);
    lemma_starts_with_self(bytes);
    lemma_field_bytes(h.encoding(), body, bytes);
    assert(starts_with(bytes, h.encoding()));
    h.lemma_fields(bytes);
}

/// A header that is written at the end has the sizes, the number of objects and, if it has room
/// for one, the offset of restore points that are given, and keeps what it says otherwise.
pub proof fn law_header_updated(
    header: Header,
    file_size: u64,
    uncompressed: u64,
    count: u32,
    restore: u64,
)
    requires
        header.spec_encoded_size() <= u32::MAX,
    ensures
        ({
            let h = updated_header(header, file_size, uncompressed, count, restore);
            &&& h.header_size == header.encoding().len()
            &&& h.file_size == file_size
            &&& h.uncompressed_file_size == uncompressed
            &&& h.object_count == count
            &&& h.restore_point_offset is Some <==> header.restore_point_offset is Some
            &&& h.restore_point_offset matches Some(offset) ==> offset == restore
            &&& h.signature == header.signature
            &&& h.api_number == header.api_number
            &&& h.app_id == header.app_id
            &&& h.compression == header.compression
            &&& h.app_major == header.app_major
            &&& h.app_minor == header.app_minor
            &&& h.app_build == header.app_build
            &&& h.start == header.start
            &&& h.end == header.end
            &&& h.reserved3 == header.reserved3
        }),
{
    header.lemma_encoding_len();
}

/// The bytes of objects one after another: each has its own bytes and then zeros.
pub proof fn law_stream_of_objects(a: Seq<BlfObject>, b: Seq<BlfObject>, o: BlfObject)
    ensures
        object_stream(a + b) == object_stream(a) + object_stream(b),
        object_stream(seq![o]).len() == o.encoding().len() + o.spec_padding(),
        object_stream(seq![o]).subrange(0, o.encoding().len() as int) == o.encoding(),
        forall|i: int|
            o.encoding().len() <= i < object_stream(seq![o]).len() ==> #[trigger] object_stream(
                seq![o],
            )[i] == 0,
    decreases b.len(),
{
    reveal(padded_bytes);
    let one = seq![o];
    assert(one.drop_last() =~= Seq::<BlfObject>::empty());
    assert(object_stream(one.drop_last()) =~= Seq::<u8>::empty());
    assert(one.last() == o);
    assert(object_stream(one) =~= padded_bytes(o));
    assert(object_stream(one).subrange(0, o.encoding().len() as int) =~= o.encoding());
    if b.len() == 0 {
        assert(a + b =~= a);
        assert(object_stream(a) + object_stream(b) =~= object_stream(a));
    } else {
        law_stream_of_objects(a, b.drop_last(), o);
        assert((a + b).drop_last() =~= a + b.drop_last());
        assert((a + b).last() == b.last());
        let x = object_stream(a);
        let y = object_stream(b.drop_last());
        let z = padded_bytes(b.last());
        assert((x + y) + z =~= x + (y + z));
    }
}

/// The first frame that is added sets the time from which all are counted; no later one changes
/// it.
pub proof fn law_first_frame_sets_time(first: Span, later: Span)
    ensures
        time_base(None, first) == first,
        time_base(Some(time_base(None, first)), later) == first,
{
}

} // verus!
