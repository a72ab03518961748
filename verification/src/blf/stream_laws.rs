//! What a file gives back of the objects that were written to it one after another.

use crate::blf::container::{containers, flat, object_stream, padded_bytes, zeros, Layout};
use crate::blf::error::Failure;
use crate::blf::file_header::{file_signature, Header};
use crate::blf::file_laws::{
    found_are, groups_fit, groups_readable, law_found_of_containers, lemma_closed_flat,
    lemma_flat_member, readable,
};
use crate::blf::object::BlfObject;
use crate::blf::stream::{faithful_run, file_objects, BlfReaderOptions};
use vstd::prelude::*;

verus! {

impl Layout {
    /// The layout of a stream of objects in containers of a size, or how writing one of the
    /// objects fails.
    pub open spec fn of_stream(
        objects: Seq<BlfObject>,
        compress: bool,
        header_size: int,
        container_size: int,
    ) -> std::result::Result<Layout, Failure>
        decreases objects.len(),
    {
        if objects.len() == 0 {
            Ok(Layout::empty())
        } else {
            match Layout::of_stream(objects.drop_last(), compress, header_size, container_size) {
                Err(f) => Err(f),
                Ok(l) => l.streamed(objects.last(), compress, header_size, container_size),
            }
        }
    }
}

/// An object that is written to a stream comes behind those that were written before.
pub proof fn law_streamed_in_order(
    l: Layout,
    o: BlfObject,
    compress: bool,
    header_size: int,
    container_size: int,
)
    ensures
        l.streamed(o, compress, header_size, container_size) matches Ok(m) ==> flat(m.groups)
            + m.open == (flat(l.groups) + l.open).push(o),
{
    reveal(Layout::streamed);
    let is_restore = o.head().base.object_type == 115;
    if l.streamed(o, compress, header_size, container_size) is Ok {
        lemma_closed_flat(l);
        let ready = l.stream_ready(is_restore, compress, header_size)->Ok_0;
        lemma_closed_flat(ready);
        let room = ready.stream_room(padded_bytes(o).len() as int, container_size)->Ok_0;
        assert(flat(room.groups) + room.open.push(o) =~= (flat(room.groups) + room.open).push(o));
    }
}

/// A stream holds the objects that were written to it, in their order.
pub proof fn law_stream_holds_objects(
    objects: Seq<BlfObject>,
    compress: bool,
    header_size: int,
    container_size: int,
)
    ensures
        Layout::of_stream(objects, compress, header_size, container_size) matches Ok(l) ==> flat(
            l.groups,
        ) + l.open == objects,
    decreases objects.len(),
{
    if objects.len() == 0 {
        assert(flat(Layout::empty().groups) + Layout::empty().open =~= objects);
    } else if Layout::of_stream(objects, compress, header_size, container_size) is Ok {
        let before = objects.drop_last();
        law_stream_holds_objects(before, compress, header_size, container_size);
        let l = Layout::of_stream(before, compress, header_size, container_size)->Ok_0;
        law_streamed_in_order(l, objects.last(), compress, header_size, container_size);
        assert(before.push(objects.last()) =~= objects);
    }
}

/// An object that can be written takes room in a container.
proof fn lemma_object_takes_room(o: BlfObject)
    requires
        o.write_failure() is None,
    ensures
        padded_bytes(o).len() >= 12,
{
    let s = o.encoding();
    let z = zeros(o.spec_padding() as int);
    reveal(padded_bytes);
    assert(padded_bytes(o) == s + z);
    assert((s + z).len() == s.len() + z.len());
}

/// The containers of a stream that was ended hold the objects that were written to it.
proof fn lemma_ended_flat(l: Layout, ended: Layout, objects: Seq<BlfObject>)
    requires
        l.closed_if_used() == Ok::<Layout, Failure>(ended),
        flat(l.groups) + l.open == objects,
        objects.len() > 0 ==> objects.last().write_failure() is None,
    ensures
        flat(ended.groups) == objects,
{
    lemma_closed_flat(l);
    assert(ended.open.len() == 0) by {
        reveal(Layout::closed);
        if object_stream(l.open).len() == 0 && l.open.len() > 0 {
            assert(objects.last() == l.open.last());
            lemma_object_takes_room(l.open.last());
        }
    }
    assert(flat(ended.groups) + ended.open =~= flat(ended.groups));
}

/// Whether objects are no more than one, or take fewer bytes than a container may have.
pub open spec fn group_fits(g: Seq<BlfObject>, container_size: int) -> bool {
    g.len() <= 1 || object_stream(g).len() < container_size
}

/// Whether all containers of a layout hold one object, or fewer bytes than they may have.
pub open spec fn layout_fits(l: Layout, container_size: int) -> bool {
    &&& group_fits(l.open, container_size)
    &&& forall|i: int| 0 <= i < l.groups.len() ==> group_fits(#[trigger] l.groups[i], container_size)
}

proof fn lemma_closed_fits(l: Layout, container_size: int)
    requires
        layout_fits(l, container_size),
    ensures
        l.closed() matches Ok(m) ==> layout_fits(m, container_size) && m.open.len() == 0,
{
    reveal(Layout::closed);
    let groups = l.groups.push(l.open);
    assert forall|i: int| 0 <= i < groups.len() implies group_fits(
        #[trigger] groups[i],
        container_size,
    ) by {
        if i < l.groups.len() {
            assert(groups[i] == l.groups[i]);
            assert(group_fits(l.groups[i], container_size));
        }
    }
}

/// An object that was written to a stream can be written.
proof fn lemma_streamed_written(
    l: Layout,
    o: BlfObject,
    compress: bool,
    header_size: int,
    container_size: int,
)
    ensures
        l.streamed(o, compress, header_size, container_size) is Ok ==> o.write_failure() is None,
{
    reveal(Layout::streamed);
}

/// A container of a stream holds one object, or fewer bytes than the size that was set.
pub proof fn law_stream_containers_fit(
    objects: Seq<BlfObject>,
    compress: bool,
    header_size: int,
    container_size: int,
)
    ensures
        Layout::of_stream(objects, compress, header_size, container_size) matches Ok(l)
            ==> layout_fits(l, container_size),
    decreases objects.len(),
{
    if objects.len() > 0 && Layout::of_stream(
        objects,
        compress,
        header_size,
        container_size,
    ) is Ok {
        let before = objects.drop_last();
        let o = objects.last();
        law_stream_containers_fit(before, compress, header_size, container_size);
        law_stream_holds_objects(before, compress, header_size, container_size);
        let l = Layout::of_stream(before, compress, header_size, container_size)->Ok_0;
        reveal(Layout::streamed);
        lemma_closed_fits(l, container_size);
        lemma_closed_flat(l);
        let ready = l.stream_ready(o.head().base.object_type == 115, compress, header_size)->Ok_0;
        lemma_closed_fits(ready, container_size);
        let len = padded_bytes(o).len() as int;
        let room = ready.stream_room(len, container_size)->Ok_0;
        assert(flat(ready.groups) + ready.open == before);
        if object_stream(ready.open).len() == 0 && ready.open.len() > 0 {
            assert(before.last() == ready.open.last());
            let m = Layout::of_stream(
                before.drop_last(),
                compress,
                header_size,
                container_size,
            )->Ok_0;
            lemma_streamed_written(m, before.last(), compress, header_size, container_size);
            lemma_object_takes_room(ready.open.last());
        }
        let open = room.open.push(o);
        assert(open.drop_last() =~= room.open);
        assert(object_stream(open) == object_stream(room.open) + padded_bytes(o));
    }
}

/// Groups of objects that can be read back can be read back.
proof fn lemma_groups_readable(
    groups: Seq<Seq<BlfObject>>,
    objects: Seq<BlfObject>,
    options: BlfReaderOptions,
)
    requires
        flat(groups) == objects,
        forall|i: int| 0 <= i < objects.len() ==> readable(#[trigger] objects[i], options),
    ensures
        groups_readable(groups, options),
{
    assert forall|i: int, j: int|
        #![trigger groups[i][j]]
        0 <= i < groups.len() && 0 <= j < groups[i].len() implies readable(
        groups[i][j],
        options,
    ) by {
        lemma_flat_member(groups, i, j);
        let k = choose|k: int| 0 <= k < flat(groups).len() && flat(groups)[k] == groups[i][j];
        assert(readable(objects[k], options));
    }
}

/// Reading a stream that was ended, with any header of its own size before its containers, finds
/// the objects that were written to it, in their order and each with its bytes. Where the
/// containers are compressed, this rests on their giving back the data that they were made of.
pub proof fn law_found_of_streamed(
    header: Header,
    objects: Seq<BlfObject>,
    compress: bool,
    container_size: int,
    ended: Layout,
    options: BlfReaderOptions,
)
    requires
        header.signature@ == file_signature(),
        header.header_size == header.spec_encoded_size(),
        header.spec_encoded_size() <= options.max_header_size,
        32 <= options.max_container_size <= u32::MAX,
        16 <= options.max_object_size,
        Layout::of_stream(objects, compress, header.spec_encoded_size(), container_size) matches Ok(
            l,
        ) && l.closed_if_used() == Ok::<Layout, Failure>(ended),
        forall|i: int| 0 <= i < objects.len() ==> readable(#[trigger] objects[i], options),
        groups_fit(ended.groups, compress, options),
        faithful_run(
            header.encoding() + containers(ended.groups, compress),
            header.spec_encoded_size(),
            Seq::empty(),
            0,
            options,
        ),
    ensures
        found_are(
            file_objects(header.encoding() + containers(ended.groups, compress), options),
            objects,
        ),
{
    let size = header.spec_encoded_size();
    let l = Layout::of_stream(objects, compress, size, container_size)->Ok_0;
    law_stream_holds_objects(objects, compress, size, container_size);
    let groups = ended.groups;
    if objects.len() > 0 {
        assert(readable(objects[objects.len() - 1], options));
    }
    lemma_ended_flat(l, ended, objects);
    lemma_groups_readable(groups, objects, options);
    law_found_of_containers(header, groups, compress, options);
}

} // verus!
