//! What a file gives back of the objects that were written to it.

use crate::blf::bytes::{lemma_field_bytes, lemma_part, lemma_starts_with_self, starts_with, u32_at};
use crate::blf::container::{
    container_bytes, containers, flat, lemma_container_fields, low64, object_stream, padded_bytes,
    stored, uncompressed_size, Layout,
};
use crate::blf::error::Failure;
use crate::blf::file::{
    count_type, lemma_absent_type, lemma_types_of, read_from, saturated32, types_of,
    updated_header, BlfFile,
};
use crate::blf::file_header::{file_signature, Header};
use crate::blf::header::obj_signature;
use crate::blf::object::BlfObject;
use crate::blf::object_type::ObjectType;
use crate::blf::stream::{
    all_zero, container_faithful, default_options, faithful_at, faithful_run, file_objects,
    find_objects, found_after, header_failure, inner_step, object_failure, top_content, top_padding, top_step,
    BlfReaderOptions, Found, InnerStep, Segment, TopContent, TopStep,
};
use crate::blf::zlib::{inflated, inflates_back, zlib_stream};
use vstd::prelude::*;

verus! {

/// Whether what is found are the objects, each with its bytes.
pub open spec fn found_are(found: Found, objects: Seq<BlfObject>) -> bool {
    match found {
        Ok(segments) => {
            &&& segments.len() == objects.len()
            &&& forall|i: int|
                0 <= i < objects.len() ==> (#[trigger] segments[i]).bytes == objects[i].encoding()
        },
        Err(_) => false,
    }
}

/// Whether an object can be read back from a container: its own bytes give it back, and it is
/// not larger than the limit for objects.
pub open spec fn readable(o: BlfObject, options: BlfReaderOptions) -> bool {
    o.gives_back() && o.encoding().len() <= options.max_object_size
}

proof fn lemma_found_after(segment: Segment, rest: Found, o: BlfObject, objects: Seq<BlfObject>)
    requires
        segment.bytes == o.encoding(),
        found_are(rest, objects),
    ensures
        found_are(found_after(segment, rest), seq![o] + objects),
{
    let all = seq![segment] + rest->Ok_0;
    assert forall|i: int| 0 <= i < 1 + objects.len() implies (#[trigger] all[i]).bytes == (seq![o]
        + objects)[i].encoding() by {
        if i > 0 {
            assert(all[i] == rest->Ok_0[i - 1]);
        }
    }
}

/// The stream of objects starts with the first one.
proof fn lemma_stream_front(objects: Seq<BlfObject>)
    requires
        objects.len() > 0,
    ensures
        object_stream(objects) == padded_bytes(objects[0]) + object_stream(objects.drop_first()),
    decreases objects.len(),
{
    let rest = objects.drop_first();
    if objects.len() == 1 {
        assert(objects.drop_last() =~= Seq::<BlfObject>::empty());
        assert(rest =~= Seq::<BlfObject>::empty());
        assert(object_stream(objects) =~= padded_bytes(objects[0]) + object_stream(rest));
    } else {
        lemma_stream_front(objects.drop_last());
        assert(objects.drop_last().drop_first() =~= rest.drop_last());
        assert(rest.last() == objects.last());
        assert(object_stream(objects) =~= padded_bytes(objects[0]) + object_stream(rest));
    }
}

/// The containers of groups start with that of the first group.
proof fn lemma_containers_front(groups: Seq<Seq<BlfObject>>, compress: bool)
    requires
        groups.len() > 0,
    ensures
        containers(groups, compress) == container_bytes(object_stream(groups[0]), compress)
            + containers(groups.drop_first(), compress),
        flat(groups) == groups[0] + flat(groups.drop_first()),
    decreases groups.len(),
{
    let rest = groups.drop_first();
    let first = container_bytes(object_stream(groups[0]), compress);
    if groups.len() == 1 {
        assert(groups.drop_last() =~= Seq::<Seq<BlfObject>>::empty());
        assert(rest =~= Seq::<Seq<BlfObject>>::empty());
        assert(containers(groups, compress) =~= first + containers(rest, compress));
        assert(flat(groups) =~= groups[0] + flat(rest));
    } else {
        lemma_containers_front(groups.drop_last(), compress);
        assert(groups.drop_last().drop_first() =~= rest.drop_last());
        assert(rest.last() == groups.last());
        assert(containers(groups, compress) =~= first + containers(rest, compress));
        assert(flat(groups) =~= groups[0] + flat(rest));
    }
}

/// The object at the start of the rest of the data is found.
proof fn lemma_inner_step(data: Seq<u8>, pos: int, o: BlfObject, options: BlfReaderOptions)
    requires
        0 <= pos <= data.len(),
        readable(o, options),
        starts_with(data.subrange(pos, data.len() as int), padded_bytes(o)),
    ensures
        ({
            let size = o.encoding().len() as int;
            &&& inner_step(data, pos, options) == InnerStep::Object(
                size,
                pos + padded_bytes(o).len(),
            )
            &&& data.subrange(pos, pos + size) == o.encoding()
            &&& padded_bytes(o).len() > 0
            &&& pos + padded_bytes(o).len() <= data.len()
        }),
{
    reveal(inner_step);
    reveal(padded_bytes);
    let rest = data.subrange(pos, data.len() as int);
    let enc = o.encoding();
    let size = enc.len() as int;
    o.law_canonical_of_given_back();
    o.law_read_of_write(pos);
    assert(Seq::<u8>::empty() + padded_bytes(o) =~= padded_bytes(o));
    lemma_field_bytes(Seq::empty(), padded_bytes(o), rest);
    let padded = padded_bytes(o);
    assert(rest.subrange(0, padded.len() as int) == padded);
    assert(rest.subrange(0, size) =~= enc) by {
        assert forall|i: int| 0 <= i < size implies rest[i] == enc[i] by {
            assert(rest[i] == rest.subrange(0, padded.len() as int)[i]);
        }
    }
    lemma_part(rest, 0, size, 4);
    lemma_part(rest, 0, size, 8);
    lemma_part(rest, 0, size, 12);
    assert(rest.subrange(0, 4) =~= enc.subrange(0, 4));
    assert(enc.subrange(0, 4) == obj_signature());
    assert(rest[0] == 0x4C) by {
        assert(rest.subrange(0, 4)[0] == rest[0]);
    }
    assert(!all_zero(rest));
    reveal(object_failure);
    assert(object_failure(enc, pos) is None);
    assert(data.subrange(pos, pos + size) =~= rest.subrange(0, size));
}

/// Objects in uncompressed data are found one after another.
proof fn lemma_inner_objects(
    file: Seq<u8>,
    at: int,
    data: Seq<u8>,
    pos: int,
    objects: Seq<BlfObject>,
    more: Seq<BlfObject>,
    options: BlfReaderOptions,
)
    requires
        0 <= pos <= data.len(),
        data.subrange(pos, data.len() as int) == object_stream(objects),
        forall|i: int| 0 <= i < objects.len() ==> readable(#[trigger] objects[i], options),
        faithful_run(file, at, data, data.len() as int, options) ==> found_are(
            find_objects(file, at, data, data.len() as int, options),
            more,
        ),
        faithful_run(file, at, data, pos, options),
    ensures
        found_are(find_objects(file, at, data, pos, options), objects + more),
    decreases objects.len(),
{
    let end = data.len() as int;
    let rest = data.subrange(pos, end);
    if objects.len() == 0 {
        assert(rest.len() == 0);
        assert(pos == end);
        assert(objects + more =~= more);
    } else {
        let o = objects[0];
        let tail = objects.drop_first();
        lemma_stream_front(objects);
        lemma_starts_with_self(rest);
        lemma_field_bytes(padded_bytes(o), object_stream(tail), rest);
        lemma_inner_step(data, pos, o, options);
        let next = pos + padded_bytes(o).len() as int;
        assert(data.subrange(next, end) =~= object_stream(tail)) by {
            assert(rest.subrange(padded_bytes(o).len() as int, rest.len() as int) =~= data.subrange(
                next,
                end,
            ));
        }
        assert forall|i: int| 0 <= i < tail.len() implies readable(
            #[trigger] tail[i],
            options,
        ) by {
            assert(tail[i] == objects[i + 1]);
        }
        lemma_inner_objects(file, at, data, next, tail, more, options);
        let segment = Segment {
            bytes: data.subrange(pos, pos + o.encoding().len()),
            base: pos,
        };
        lemma_found_after(
            segment,
            find_objects(file, at, data, next, options),
            o,
            tail + more,
        );
        assert(seq![o] + (tail + more) =~= objects + more);
    }
}

/// The container at a position of the file is found, with the data that it was made of.
proof fn lemma_top_step(
    file: Seq<u8>,
    at: int,
    data: Seq<u8>,
    compress: bool,
    options: BlfReaderOptions,
)
    requires
        0 <= at <= file.len(),
        starts_with(file.subrange(at, file.len() as int), container_bytes(data, compress)),
        data.len() <= options.max_container_size,
        32 + stored(data, compress).len() <= options.max_container_size,
        options.max_container_size <= u32::MAX,
        faithful_at(file, at, options),
    ensures
        top_step(file, at, options) == TopStep::Container(
            data,
            at + container_bytes(data, compress).len(),
        ),
        container_bytes(data, compress).len() > 0,
        at + container_bytes(data, compress).len() <= file.len(),
{
    reveal(top_step);
    let s = container_bytes(data, compress);
    let payload = stored(data, compress);
    let size = (32 + payload.len()) as int;
    let rest = file.subrange(at, file.len() as int);
    lemma_container_fields(data, compress);
    assert(Seq::<u8>::empty() + s =~= s);
    lemma_field_bytes(Seq::empty(), s, rest);
    assert(rest.subrange(0, s.len() as int) == s);
    let bytes = file.subrange(at, at + size);
    let base = file.subrange(at, at + 16);
    assert(bytes =~= s.subrange(0, size)) by {
        assert forall|i: int| 0 <= i < size implies bytes[i] == s[i] by {
            assert(rest.subrange(0, s.len() as int)[i] == file[at + i]);
        }
    }
    assert(base =~= s.subrange(0, 16)) by {
        assert forall|i: int| 0 <= i < 16 implies base[i] == s[i] by {
            assert(rest.subrange(0, s.len() as int)[i] == file[at + i]);
        }
    }
    lemma_part(s, 0, 16, 8);
    lemma_part(s, 0, 16, 12);
    lemma_part(s, 0, size, 8);
    lemma_part(s, 0, size, 12);
    lemma_part(s, 0, size, 16);
    lemma_part(s, 0, size, 24);
    assert(base.subrange(0, 4) =~= s.subrange(0, 4));
    assert(bytes.subrange(32, size) =~= s.subrange(32, size));
    assert(ObjectType::of_raw(10) == Some(ObjectType::LogContainer));
    assert(crate::blf::stream::top_size_failure(base, at, options) is None);
    assert(container_faithful(bytes, options));
    if compress {
        assert(payload == zlib_stream(data));
        assert(inflates_back(payload, data.len() as usize));
        assert(inflated(payload, data.len() as usize) == Ok::<Seq<u8>, Failure>(data));
    }
    assert(top_content(bytes, at, options) == TopContent::Container(data));
    assert(top_padding(bytes) == size % 4);
}

/// Whether the containers of the groups are within the limits.
pub open spec fn groups_fit(
    groups: Seq<Seq<BlfObject>>,
    compress: bool,
    options: BlfReaderOptions,
) -> bool {
    forall|i: int|
        #![trigger groups[i]]
        0 <= i < groups.len() ==> {
            &&& object_stream(groups[i]).len() <= options.max_container_size
            &&& 32 + stored(object_stream(groups[i]), compress).len() <= options.max_container_size
        }
}

/// Whether all objects of the groups can be read back.
pub open spec fn groups_readable(
    groups: Seq<Seq<BlfObject>>,
    options: BlfReaderOptions,
) -> bool {
    forall|i: int, j: int|
        #![trigger groups[i][j]]
        0 <= i < groups.len() && 0 <= j < groups[i].len() ==> readable(groups[i][j], options)
}

/// The objects of containers at the end of a file are found.
proof fn lemma_containers(
    file: Seq<u8>,
    at: int,
    data: Seq<u8>,
    groups: Seq<Seq<BlfObject>>,
    compress: bool,
    options: BlfReaderOptions,
)
    requires
        0 <= at <= file.len(),
        file.subrange(at, file.len() as int) == containers(groups, compress),
        groups_fit(groups, compress, options),
        groups_readable(groups, options),
        options.max_container_size <= u32::MAX,
        faithful_run(file, at, data, data.len() as int, options),
    ensures
        found_are(find_objects(file, at, data, data.len() as int, options), flat(groups)),
    decreases groups.len(),
{
    let end = file.len() as int;
    let pos = data.len() as int;
    let left = data.subrange(pos, data.len() as int);
    assert(inner_step(data, pos, options) == InnerStep::Wait(pos)) by {
        reveal(inner_step);
    }
    assert(left.len() == 0);
    if groups.len() == 0 {
        assert(file.subrange(at, end).len() == 0);
        assert(top_step(file, at, options) == TopStep::End) by {
            reveal(top_step);
        }
    } else {
        let stream = object_stream(groups[0]);
        let rest = groups.drop_first();
        let first = container_bytes(stream, compress);
        lemma_containers_front(groups, compress);
        lemma_starts_with_self(file.subrange(at, end));
        lemma_field_bytes(first, containers(rest, compress), file.subrange(at, end));
        lemma_top_step(file, at, stream, compress, options);
        let next = at + first.len() as int;
        assert(left + stream =~= stream);
        assert(file.subrange(next, end) =~= containers(rest, compress)) by {
            let all = file.subrange(at, end);
            assert(all.subrange(first.len() as int, all.len() as int) =~= file.subrange(next, end));
        }
        assert forall|i: int| #![trigger rest[i]] 0 <= i < rest.len() implies {
            &&& object_stream(rest[i]).len() <= options.max_container_size
            &&& 32 + stored(object_stream(rest[i]), compress).len() <= options.max_container_size
        } by {
            assert(rest[i] == groups[i + 1]);
        }
        assert forall|i: int, j: int|
            #![trigger rest[i][j]]
            0 <= i < rest.len() && 0 <= j < rest[i].len() implies readable(
            rest[i][j],
            options,
        ) by {
            assert(rest[i][j] == groups[i + 1][j]);
        }
        if faithful_run(file, next, stream, stream.len() as int, options) {
            lemma_containers(file, next, stream, rest, compress, options);
        }
        assert forall|i: int| 0 <= i < groups[0].len() implies readable(
            #[trigger] groups[0][i],
            options,
        ) by {}
        assert(stream.subrange(0, stream.len() as int) =~= stream);
        lemma_inner_objects(file, next, stream, 0, groups[0], flat(rest), options);
    }
}

/// Reading a file that is a header with its size and containers finds the objects in the
/// containers, in their order and each with its bytes, however they are grouped. Where the
/// containers are compressed, this rests on their giving back the data that they were made
/// of.
pub proof fn law_found_of_containers(
    header: Header,
    groups: Seq<Seq<BlfObject>>,
    compress: bool,
    options: BlfReaderOptions,
)
    requires
        header.signature@ == file_signature(),
        header.header_size == header.spec_encoded_size(),
        header.spec_encoded_size() <= options.max_header_size,
        32 <= options.max_container_size <= u32::MAX,
        16 <= options.max_object_size,
        groups_fit(groups, compress, options),
        groups_readable(groups, options),
        faithful_run(
            header.encoding() + containers(groups, compress),
            header.spec_encoded_size(),
            Seq::empty(),
            0,
            options,
        ),
    ensures
        found_are(
            file_objects(header.encoding() + containers(groups, compress), options),
            flat(groups),
        ),
{
    let body = containers(groups, compress);
    let bytes = header.encoding() + body;
    lemma_starts_with_self(bytes);
    lemma_field_bytes(header.encoding(), body, bytes);
    header.lemma_fields(bytes);
    assert(bytes.subrange(header.spec_encoded_size(), bytes.len() as int) =~= body);
    lemma_containers(
        bytes,
        header.spec_encoded_size(),
        Seq::empty(),
        groups,
        compress,
        options,
    );
}

/// How many objects have one of the types.
pub open spec fn count_types(objects: Seq<BlfObject>, types: Seq<u32>) -> nat
    decreases types.len(),
{
    if types.len() == 0 {
        0
    } else {
        count_types(objects, types.drop_last()) + count_type(objects, types.last())
    }
}

proof fn lemma_count_types_push(objects: Seq<BlfObject>, o: BlfObject, types: Seq<u32>)
    requires
        forall|i: int, j: int| 0 <= i < j < types.len() ==> types[i] != types[j],
    ensures
        count_types(objects.push(o), types) == count_types(objects, types) + (if types.contains(
            o.head().base.object_type,
        ) {
            1nat
        } else {
            0
        }),
    decreases types.len(),
{
    let t = o.head().base.object_type;
    assert(objects.push(o).drop_last() =~= objects);
    if types.len() > 0 {
        let before = types.drop_last();
        lemma_count_types_push(objects, o, before);
        if types.last() == t {
            assert(types[types.len() - 1] == t);
            assert(types.contains(t));
            assert(!before.contains(t));
        } else if before.contains(t) {
            let k = choose|k: int| 0 <= k < before.len() && before[k] == t;
            assert(types[k] == t);
        } else {
            assert(!types.contains(t)) by {
                if types.contains(t) {
                    let k = choose|k: int| 0 <= k < types.len() && types[k] == t;
                    assert(before[k] == t);
                }
            }
        }
    }
}

/// The counts of all types that occur add up to the number of objects.
pub proof fn law_statistics_total(objects: Seq<BlfObject>)
    ensures
        count_types(objects, types_of(objects)) == objects.len(),
    decreases objects.len(),
{
    if objects.len() > 0 {
        let before = objects.drop_last();
        let o = objects.last();
        let t = o.head().base.object_type;
        let types = types_of(before);
        law_statistics_total(before);
        lemma_types_of(before);
        lemma_count_types_push(before, o, types);
        assert(before.push(o) =~= objects);
        if !types.contains(t) {
            assert(types.push(t).drop_last() =~= types);
            lemma_absent_type(before, t);
        }
    }
}

/// The groups of a layout hold the objects, in their order.
pub(crate) proof fn lemma_layout_flat(objects: Seq<BlfObject>, compress: bool, header_size: int)
    requires
        Layout::of(objects, compress, header_size) is Ok,
    ensures
        ({
            let l = Layout::of(objects, compress, header_size)->Ok_0;
            flat(l.groups) + l.open == objects
        }),
    decreases objects.len(),
{
    if objects.len() == 0 {
        assert(flat(Layout::empty().groups) + Layout::empty().open =~= objects);
    } else {
        let before = objects.drop_last();
        let o = objects.last();
        lemma_layout_flat(before, compress, header_size);
        let l = Layout::of(before, compress, header_size)->Ok_0;
        reveal(Layout::placed);
        let is_restore = o.head().base.object_type == 115;
        let ready = l.ready(is_restore, compress, header_size)->Ok_0;
        lemma_closed_flat(l);
        assert(flat(ready.groups) + ready.open == before);
        lemma_closed_flat(ready);
        let room = ready.with_room(o.encoding().len() as int)->Ok_0;
        assert(flat(room.groups) + room.open == before);
        assert(flat(room.groups) + room.open.push(o) =~= before.push(o));
        assert(before.push(o) =~= objects);
    }
}

pub proof fn lemma_closed_flat(l: Layout)
    ensures
        l.closed() matches Ok(m) ==> flat(m.groups) + m.open == flat(l.groups) + l.open,
{
    reveal(Layout::closed);
    let groups = l.groups.push(l.open);
    assert(groups.drop_last() =~= l.groups);
    assert(flat(groups) + Seq::<BlfObject>::empty() =~= flat(l.groups) + l.open);
}

/// Whether the groups and the open container of a layout are no larger than one object of
/// the largest size, or four MiB.
spec fn small(l: Layout) -> bool {
    &&& object_stream(l.open).len() <= 0x1000_0003
    &&& forall|i: int|
        0 <= i < l.groups.len() ==> object_stream(#[trigger] l.groups[i]).len() <= 0x1000_0003
}

proof fn lemma_closed_small(l: Layout)
    requires
        small(l),
    ensures
        l.closed() matches Ok(m) ==> small(m) && object_stream(m.open).len() == 0,
{
    reveal(Layout::closed);
    let groups = l.groups.push(l.open);
    assert forall|i: int| 0 <= i < groups.len() implies object_stream(
        #[trigger] groups[i],
    ).len() <= 0x1000_0003 by {
        if i < l.groups.len() {
            assert(groups[i] == l.groups[i]);
        }
    }
}

/// No container of objects up to the largest size is larger than one such object, or four
/// MiB.
proof fn lemma_group_sizes(objects: Seq<BlfObject>, compress: bool, header_size: int)
    requires
        Layout::of(objects, compress, header_size) is Ok,
        forall|i: int|
            0 <= i < objects.len() ==> (#[trigger] objects[i]).encoding().len() <= 0x1000_0000,
    ensures
        small(Layout::of(objects, compress, header_size)->Ok_0),
    decreases objects.len(),
{
    if objects.len() > 0 {
        let before = objects.drop_last();
        let o = objects.last();
        assert forall|i: int| 0 <= i < before.len() implies (#[trigger] before[i]).encoding().len()
            <= 0x1000_0000 by {
            assert(before[i] == objects[i]);
        }
        assert(o == objects[objects.len() - 1]);
        lemma_group_sizes(before, compress, header_size);
        let l = Layout::of(before, compress, header_size)->Ok_0;
        reveal(Layout::placed);
        let ready = l.ready(
            o.head().base.object_type == 115,
            compress,
            header_size,
        )->Ok_0;
        lemma_closed_small(l);
        assert(small(ready));
        lemma_closed_small(ready);
        let room = ready.with_room(o.encoding().len() as int)->Ok_0;
        assert(small(room));
        let open = room.open.push(o);
        assert(open.drop_last() =~= room.open);
        assert(object_stream(open) == object_stream(room.open) + padded_bytes(o));
        lemma_padding_small(o);
    }
}

proof fn lemma_padding_small(o: BlfObject)
    ensures
        padded_bytes(o).len() <= o.encoding().len() + 3,
{
    reveal(padded_bytes);
}

/// The objects of a group are among all objects.
pub(crate) proof fn lemma_flat_member(groups: Seq<Seq<BlfObject>>, i: int, j: int)
    requires
        0 <= i < groups.len(),
        0 <= j < groups[i].len(),
    ensures
        flat(groups).contains(groups[i][j]),
    decreases groups.len(),
{
    if i == groups.len() - 1 {
        let k = flat(groups.drop_last()).len() + j;
        assert(flat(groups)[k as int] == groups[i][j]);
    } else {
        lemma_flat_member(groups.drop_last(), i, j);
        let before = flat(groups.drop_last());
        let k = choose|k: int| 0 <= k < before.len() && before[k] == groups[i][j];
        assert(flat(groups)[k] == groups[i][j]);
    }
}

impl BlfFile {
    /// The groups of objects that go into one container each.
    pub open spec fn groups(self) -> Seq<Seq<BlfObject>> {
        let l = Layout::of(
            self.objects@,
            self.header.compression > 0,
            self.header.spec_encoded_size(),
        )->Ok_0;
        if self.objects@.len() == 0 {
            Seq::empty()
        } else {
            l.closed()->Ok_0.groups
        }
    }

    /// Whether what is written of the file can be read back within the default limits: the
    /// signature is right, the objects are given back by their own bytes, and headers, objects
    /// and compressed containers are not too large.
    pub open spec fn readable_back(self) -> bool {
        &&& self.header.signature@ == file_signature()
        &&& self.header.spec_encoded_size() <= default_options().max_header_size
        &&& forall|i: int|
            0 <= i < self.objects@.len() ==> readable(
                #[trigger] self.objects@[i],
                default_options(),
            )
        &&& (self.header.compression > 0 ==> forall|i: int|
            0 <= i < self.groups().len() ==> 32 + zlib_stream(
                object_stream(#[trigger] self.groups()[i]),
            ).len() <= default_options().max_container_size)
    }

    /// Whether the header has an offset of restore points, or is too short to have one. The
    /// reserved bytes of another one are read as such an offset.
    pub open spec fn header_kept(self) -> bool {
        self.header.restore_point_offset is None ==> self.header.reserved3@.len() < 8
    }

    /// The header that is written.
    pub open spec fn written_header(self) -> Header {
        let size = self.header.spec_encoded_size();
        let body = containers(self.groups(), self.header.compression > 0);
        let l = Layout::of(self.objects@, self.header.compression > 0, size)->Ok_0;
        if self.objects@.len() == 0 {
            updated_header(self.header, size as u64, size as u64, 0, 0)
        } else {
            updated_header(
                self.header,
                low64(size + body.len()),
                low64(size + uncompressed_size(self.groups())),
                saturated32(self.objects@.len() as int),
                (match l.closed()->Ok_0.restore {
                    Some(offset) => low64(offset),
                    None => 0,
                }),
            )
        }
    }

    /// Reading a file that was written finds the header that was written: that of the file,
    /// with its sizes and number of objects. Reserved bytes in the place of an offset of restore
    /// points are read as such an offset.
    pub proof fn law_header_of_written(self, bytes: Seq<u8>)
        requires
            self.file_bytes() == Ok::<Seq<u8>, Failure>(bytes),
            self.readable_back(),
        ensures
            header_failure(bytes, default_options()) is None,
            u32_at(bytes, 4) == self.header.spec_encoded_size(),
            self.written_header().reads_fixed(bytes),
            self.header_kept() ==> self.written_header().reads(bytes),
            Header::failure(bytes, 0) is None,
            self.written_header().encoding() == bytes.subrange(
                0,
                self.header.spec_encoded_size(),
            ),
            bytes.len() >= self.header.spec_encoded_size(),
            bytes.subrange(self.header.spec_encoded_size(), bytes.len() as int) == containers(
                self.groups(),
                self.header.compression > 0,
            ),
            flat(self.groups()) == self.objects@,
    {
        let size = self.header.spec_encoded_size();
        let compress = self.header.compression > 0;
        let groups = self.groups();
        let body = containers(groups, compress);
        let h = self.written_header();
        if self.objects@.len() == 0 {
            assert(bytes =~= h.encoding() + body);
            assert(flat(groups) =~= self.objects@);
        } else {
            let l = Layout::of(self.objects@, compress, size)->Ok_0;
            let m = l.closed()->Ok_0;
            assert(bytes == h.encoding() + body);
            lemma_layout_flat(self.objects@, compress, size);
            lemma_closed_flat(l);
            reveal(Layout::closed);
            assert(flat(m.groups) + Seq::<BlfObject>::empty() =~= flat(m.groups));
        }
        lemma_starts_with_self(bytes);
        lemma_field_bytes(h.encoding(), body, bytes);
        h.lemma_fields(bytes);
        assert(h.signature@ == file_signature());
        assert(h.header_size == size);
        assert(self.header_kept() ==> h.canonical());
    }

    /// Reading a file that was written finds its objects, each with its bytes. Where the
    /// file is compressed, this rests on the containers giving back the data that they were
    /// made of.
    pub proof fn law_found_of_written(self, bytes: Seq<u8>)
        requires
            self.file_bytes() == Ok::<Seq<u8>, Failure>(bytes),
            self.readable_back(),
            faithful_run(
                bytes,
                self.header.spec_encoded_size(),
                Seq::empty(),
                0,
                default_options(),
            ),
        ensures
            found_are(file_objects(bytes, default_options()), self.objects@),
    {
        let options = default_options();
        let size = self.header.spec_encoded_size();
        let compress = self.header.compression > 0;
        let groups = self.groups();
        self.law_header_of_written(bytes);
        assert forall|i: int, j: int|
            #![trigger groups[i][j]]
            0 <= i < groups.len() && 0 <= j < groups[i].len() implies readable(
            groups[i][j],
            options,
        ) by {
            lemma_flat_member(groups, i, j);
            let k = choose|k: int| 0 <= k < flat(groups).len() && flat(groups)[k] == groups[i][j];
            assert(readable(self.objects@[k], options));
        }
        if self.objects@.len() > 0 {
            assert forall|i: int| 0 <= i < self.objects@.len() implies (
            #[trigger] self.objects@[i]).encoding().len() <= 0x1000_0000 by {
                assert(readable(self.objects@[i], options));
            }
            lemma_group_sizes(self.objects@, compress, size);
            reveal(Layout::closed);
        }
        assert(groups_fit(groups, compress, options)) by {
            assert forall|i: int| #![trigger groups[i]] 0 <= i < groups.len() implies {
                &&& object_stream(groups[i]).len() <= options.max_container_size
                &&& 32 + stored(object_stream(groups[i]), compress).len()
                    <= options.max_container_size
            } by {
                assert(object_stream(groups[i]).len() <= 0x1000_0003);
            }
        }
        lemma_containers(bytes, size, Seq::empty(), groups, compress, options);
    }

    /// Objects that were read from the bytes of others are the same objects.
    pub proof fn law_same_objects(objects: Seq<BlfObject>, originals: Seq<BlfObject>, found: Found)
        requires
            found_are(found, originals),
            read_from(objects, found->Ok_0),
            forall|i: int| 0 <= i < originals.len() ==> (#[trigger] originals[i]).gives_back(),
        ensures
            objects.len() == originals.len(),
            forall|i: int|
                0 <= i < objects.len() ==> (#[trigger] objects[i]).same(originals[i]),
    {
        let segments = found->Ok_0;
        assert forall|i: int| 0 <= i < objects.len() implies (#[trigger] objects[i]).same(
            originals[i],
        ) by {
            originals[i].law_canonical_of_given_back();
            originals[i].law_read_of_write(segments[i].base);
            assert(segments[i].bytes == originals[i].encoding());
            objects[i].law_reads_unique(originals[i], segments[i].bytes, segments[i].base);
        }
    }
}

} // verus!
