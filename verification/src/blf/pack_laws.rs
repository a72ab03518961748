//! How the objects of a file are parted into containers.

use crate::blf::container::{
    containers, flat, low64, object_stream, padded_bytes, Layout,
};
use crate::blf::file::BlfFile;
use crate::blf::file_laws::{lemma_closed_flat, lemma_layout_flat};
use crate::blf::object::BlfObject;
use vstd::prelude::*;

verus! {

/// Whether an object is a restore point.
pub open spec fn is_restore(o: BlfObject) -> bool {
    o.head().base.object_type == 115
}

/// Whether objects have room in one container: a second one that would bring it to four MiB does
/// not.
spec fn has_room(group: Seq<BlfObject>) -> bool {
    group.len() >= 2 ==> object_stream(group.drop_last()).len() + group.last().encoding().len()
        < 0x40_0000
}

/// Whether an object behind those of a container belongs into the next one.
spec fn is_parted(group: Seq<BlfObject>, o: BlfObject) -> bool {
    ||| is_restore(group.last())
    ||| is_restore(o)
    ||| object_stream(group).len() + o.encoding().len() >= 0x40_0000
}

/// The groups of a layout with the one that is open.
spec fn all_groups(l: Layout) -> Seq<Seq<BlfObject>> {
    l.groups.push(l.open)
}

/// Whether the groups are parted as they should be.
spec fn well_parted(groups: Seq<Seq<BlfObject>>) -> bool {
    &&& forall|i: int| 0 <= i < groups.len() ==> has_room(#[trigger] groups[i])
    &&& forall|i: int|
        #![trigger groups[i]]
        0 <= i < groups.len() - 1 ==> groups[i].len() > 0 && groups[i + 1].len() > 0 && is_parted(
            groups[i],
            groups[i + 1][0],
        )
}

/// Whether the first restore point is the first object of a group, and where its container
/// starts.
spec fn restores_at(
    groups: Seq<Seq<BlfObject>>,
    k: int,
    offset: int,
    compress: bool,
    header_size: int,
) -> bool {
    &&& 0 <= k < groups.len()
    &&& groups[k].len() > 0
    &&& is_restore(groups[k][0])
    &&& offset == header_size + containers(groups.take(k), compress).len()
    &&& forall|i: int|
        0 <= i < flat(groups.take(k)).len() ==> !is_restore(#[trigger] flat(groups.take(k))[i])
}

/// What holds of every layout.
spec fn sound(l: Layout, compress: bool, header_size: int) -> bool {
    &&& well_parted(all_groups(l))
    &&& l.open.len() > 0 <==> object_stream(l.open).len() > 0
    &&& l.groups.len() > 0 ==> l.open.len() > 0
    &&& l.in_restore ==> l.open.len() > 0 && is_restore(l.open.last())
    &&& match l.restore {
        None => !l.in_restore && forall|i: int|
            0 <= i < flat(all_groups(l)).len() ==> !is_restore(#[trigger] flat(all_groups(l))[i]),
        Some(offset) => exists|k: int|
            #[trigger] restores_at(all_groups(l), k, offset, compress, header_size),
    }
}

proof fn lemma_flat_push(groups: Seq<Seq<BlfObject>>, g: Seq<BlfObject>)
    ensures
        flat(groups.push(g)) == flat(groups) + g,
{
    assert(groups.push(g).drop_last() =~= groups);
}

/// Putting an object into the open group.
proof fn lemma_pushed(l: Layout, o: BlfObject, compress: bool, header_size: int)
    requires
        sound(l, compress, header_size),
        o.write_failure() is None,
        l.open.len() > 0,
        object_stream(l.open).len() + o.encoding().len() < 0x40_0000,
        l.in_restore ==> is_restore(o),
        l.restore is None ==> !is_restore(o),
    ensures
        sound(Layout { open: l.open.push(o), ..l }, compress, header_size),
{
    let m = Layout { open: l.open.push(o), ..l };
    let a = all_groups(l);
    let b = all_groups(m);
    let n = l.groups.len() as int;
    assert(l.open.push(o).drop_last() =~= l.open);
    assert(object_stream(m.open) == object_stream(l.open) + padded_bytes(o));
    assert(forall|i: int| 0 <= i < n ==> b[i] == a[i]);
    assert(well_parted(b)) by {
        assert forall|i: int| 0 <= i < b.len() implies has_room(#[trigger] b[i]) by {
            if i < n {
                assert(has_room(a[i]));
            }
        }
        assert forall|i: int| #![trigger b[i]] 0 <= i < b.len() - 1 implies b[i].len() > 0 && b[i
            + 1].len() > 0 && is_parted(b[i], b[i + 1][0]) by {
            assert(a[i].len() > 0);
            if i + 1 == n {
                assert(b[i + 1][0] == a[i + 1][0]);
            }
        }
    }
    lemma_flat_push(l.groups, l.open);
    lemma_flat_push(m.groups, m.open);
    match l.restore {
        None => {
            assert forall|i: int| 0 <= i < flat(b).len() implies !is_restore(#[trigger] flat(b)[i]) by {
                if i < flat(a).len() {
                    assert(flat(a)[i] == flat(b)[i]);
                }
            }
        },
        Some(offset) => {
            let k = choose|k: int|
                #[trigger] restores_at(a, k, offset, compress, header_size);
            assert(a.take(k) =~= b.take(k));
            assert(b[k][0] == a[k][0]);
            assert(restores_at(b, k, offset, compress, header_size));
        },
    }
}

/// Starting a group with an object, where one is there before it.
proof fn lemma_started(
    l: Layout,
    o: BlfObject,
    restore: Option<int>,
    in_restore: bool,
    compress: bool,
    header_size: int,
)
    requires
        sound(l, compress, header_size),
        o.write_failure() is None,
        l.open.len() > 0,
        is_parted(l.open, o),
        in_restore ==> is_restore(o),
        l.restore is Some ==> restore == l.restore,
        l.restore is None && !is_restore(o) ==> restore is None && !in_restore,
        l.restore is None && is_restore(o) ==> restore == Some(
            header_size + containers(l.groups.push(l.open), compress).len(),
        ),
    ensures
        sound(
            Layout { groups: l.groups.push(l.open), open: seq![o], restore, in_restore },
            compress,
            header_size,
        ),
{
    let m = Layout { groups: l.groups.push(l.open), open: seq![o], restore, in_restore };
    let a = all_groups(l);
    let b = all_groups(m);
    let n = a.len() as int;
    assert(forall|i: int| 0 <= i < n ==> b[i] == a[i]);
    assert(b[n] == m.open);
    lemma_one(o);
    assert(well_parted(b)) by {
        assert forall|i: int| 0 <= i < b.len() implies has_room(#[trigger] b[i]) by {
            if i < n {
                assert(has_room(a[i]));
            }
        }
        assert forall|i: int| #![trigger b[i]] 0 <= i < b.len() - 1 implies b[i].len() > 0 && b[i
            + 1].len() > 0 && is_parted(b[i], b[i + 1][0]) by {
            if i + 1 < n {
                assert(a[i].len() > 0);
                assert(b[i + 1] == a[i + 1]);
            } else {
                assert(b[i] == l.open);
                assert(b[i + 1][0] == o);
            }
        }
    }
    assert(m.groups == a);
    lemma_flat_push(a, m.open);
    match l.restore {
        None => {
            if is_restore(o) {
                assert(b.take(n) =~= a);
                assert(restores_at(b, n, restore->Some_0, compress, header_size));
            } else {
                assert forall|i: int| 0 <= i < flat(b).len() implies !is_restore(
                    #[trigger] flat(b)[i],
                ) by {
                    if i < flat(a).len() {
                        assert(flat(a)[i] == flat(b)[i]);
                    }
                }
            }
        },
        Some(offset) => {
            let k = choose|k: int|
                #[trigger] restores_at(a, k, offset, compress, header_size);
            assert(a.take(k) =~= b.take(k));
            assert(restores_at(b, k, offset, compress, header_size));
        },
    }
}

proof fn lemma_one(o: BlfObject)
    requires
        o.write_failure() is None,
    ensures
        object_stream(seq![o]).len() > 0,
        seq![o].last() == o,
{
    reveal(padded_bytes);
    let one = seq![o];
    assert(one.drop_last() =~= Seq::<BlfObject>::empty());
    assert(object_stream(one.drop_last()) =~= Seq::<u8>::empty());
    assert(one.last() == o);
}

/// The first object of all.
proof fn lemma_first(l: Layout, o: BlfObject, compress: bool, header_size: int)
    requires
        sound(l, compress, header_size),
        l.open.len() == 0,
        o.write_failure() is None,
    ensures
        sound(
            Layout {
                open: l.open.push(o),
                restore: if is_restore(o) {
                    Some(header_size + containers(l.groups, compress).len())
                } else {
                    None
                },
                in_restore: is_restore(o),
                ..l
            },
            compress,
            header_size,
        ),
        l.restore is None,
        !l.in_restore,
{
    let m = Layout {
        open: l.open.push(o),
        restore: if is_restore(o) {
            Some(header_size + containers(l.groups, compress).len())
        } else {
            None
        },
        in_restore: is_restore(o),
        ..l
    };
    let a = all_groups(l);
    let b = all_groups(m);
    assert(l.groups.len() == 0);
    assert(l.open.push(o) =~= seq![o]);
    lemma_one(o);
    if let Some(offset) = l.restore {
        let k = choose|k: int| #[trigger] restores_at(a, k, offset, compress, header_size);
        assert(a[k] == l.open);
    }
    assert(b =~= seq![seq![o]]);
    lemma_flat_push(l.groups, m.open);
    assert(flat(l.groups) =~= Seq::<BlfObject>::empty());
    assert(flat(b) =~= seq![o]);
    if is_restore(o) {
        assert(b.take(0) =~= l.groups);
        assert(restores_at(b, 0, m.restore->Some_0, compress, header_size));
    }
}

proof fn lemma_placed(l: Layout, o: BlfObject, compress: bool, header_size: int)
    requires
        sound(l, compress, header_size),
        l.placed(o, compress, header_size) is Ok,
    ensures
        sound(l.placed(o, compress, header_size)->Ok_0, compress, header_size),
{
    reveal(Layout::placed);
    reveal(Layout::closed);
    let m = l.placed(o, compress, header_size)->Ok_0;
    assert(Seq::<BlfObject>::empty().push(o) =~= seq![o]);
    assert(object_stream(Seq::<BlfObject>::empty()).len() == 0);
    if l.open.len() == 0 {
        lemma_first(l, o, compress, header_size);
    } else if m.groups == l.groups {
        assert(m.open == l.open.push(o));
        assert(m.restore == l.restore && m.in_restore == l.in_restore) by {
            assert(l.groups.push(l.open).len() != l.groups.len());
        }
        lemma_pushed(l, o, compress, header_size);
    } else {
        lemma_started(l, o, m.restore, m.in_restore, compress, header_size);
    }
}

proof fn lemma_layout_sound(objects: Seq<BlfObject>, compress: bool, header_size: int)
    requires
        Layout::of(objects, compress, header_size) is Ok,
    ensures
        sound(Layout::of(objects, compress, header_size)->Ok_0, compress, header_size),
        objects.len() > 0 ==> Layout::of(objects, compress, header_size)->Ok_0.open.len() > 0,
    decreases objects.len(),
{
    if objects.len() == 0 {
        let l = Layout::empty();
        assert(all_groups(l) =~= seq![Seq::<BlfObject>::empty()]);
        lemma_flat_push(l.groups, l.open);
        assert(flat(l.groups) =~= Seq::<BlfObject>::empty());
        assert(flat(all_groups(l)) =~= Seq::<BlfObject>::empty());
    } else {
        lemma_layout_sound(objects.drop_last(), compress, header_size);
        let l = Layout::of(objects.drop_last(), compress, header_size)->Ok_0;
        lemma_placed(l, objects.last(), compress, header_size);
        reveal(Layout::placed);
    }
}

/// The containers of a file hold its objects, in their order. A container holds at least one
/// object, and less than four MiB unless it holds only one. Between objects that are no restore
/// points a new one is begun only where the last would reach four MiB.
pub proof fn law_containers_of_file(file: BlfFile)
    requires
        file.file_bytes() is Ok,
        file.objects@.len() > 0,
    ensures
        flat(file.groups()) == file.objects@,
        forall|i: int|
            #![trigger file.groups()[i]]
            0 <= i < file.groups().len() ==> {
                let group = file.groups()[i];
                &&& group.len() > 0
                &&& group.len() > 1 ==> object_stream(group.drop_last()).len()
                    + group.last().encoding().len() < 0x40_0000
                &&& i + 1 < file.groups().len() && group.last().head().base.object_type != 115
                    && file.groups()[i + 1][0].head().base.object_type != 115 ==> object_stream(
                    group,
                ).len() + file.groups()[i + 1][0].encoding().len() >= 0x40_0000
            },
{
    let size = file.header.spec_encoded_size();
    let compress = file.header.compression > 0;
    let l = Layout::of(file.objects@, compress, size)->Ok_0;
    let m = l.closed()->Ok_0;
    lemma_layout_sound(file.objects@, compress, size);
    lemma_layout_flat(file.objects@, compress, size);
    lemma_closed_flat(l);
    reveal(Layout::closed);
    assert(flat(m.groups) + Seq::<BlfObject>::empty() =~= flat(m.groups));
    let groups = file.groups();
    assert(groups == all_groups(l));
    assert forall|i: int|
        #![trigger groups[i]]
        0 <= i < groups.len() implies {
        let group = groups[i];
        &&& group.len() > 0
        &&& group.len() > 1 ==> object_stream(group.drop_last()).len()
            + group.last().encoding().len() < 0x40_0000
        &&& i + 1 < groups.len() && group.last().head().base.object_type != 115 && groups[i
            + 1][0].head().base.object_type != 115 ==> object_stream(group).len() + groups[i
            + 1][0].encoding().len() >= 0x40_0000
    } by {
        assert(has_room(groups[i]));
    }
}

/// A header with an offset of restore points says where the container of the first one starts,
/// behind the containers of the objects before it; without restore points it says zero.
pub proof fn law_restore_offset_of_file(file: BlfFile)
    requires
        file.file_bytes() is Ok,
        file.objects@.len() > 0,
        file.header.restore_point_offset is Some,
    ensures
        ({
            let groups = file.groups();
            let offset = file.written_header().restore_point_offset;
            ||| offset == Some(0u64) && forall|i: int|
                0 <= i < file.objects@.len() ==> (
                #[trigger] file.objects@[i]).head().base.object_type != 115
            ||| exists|k: int|
                #![trigger groups[k]]
                {
                    &&& 0 <= k < groups.len()
                    &&& groups[k][0].head().base.object_type == 115
                    &&& offset == Some(
                        low64(
                            file.header.spec_encoded_size() + containers(
                                groups.take(k),
                                file.header.compression > 0,
                            ).len(),
                        ),
                    )
                    &&& forall|i: int|
                        0 <= i < flat(groups.take(k)).len() ==> (#[trigger] flat(
                            groups.take(k),
                        )[i]).head().base.object_type != 115
                }
        }),
{
    let size = file.header.spec_encoded_size();
    let compress = file.header.compression > 0;
    let l = Layout::of(file.objects@, compress, size)->Ok_0;
    lemma_layout_sound(file.objects@, compress, size);
    law_containers_of_file(file);
    reveal(Layout::closed);
    let groups = file.groups();
    assert(groups == all_groups(l));
    match l.restore {
        None => {
            assert forall|i: int| 0 <= i < file.objects@.len() implies (
            #[trigger] file.objects@[i]).head().base.object_type != 115 by {
                assert(!is_restore(flat(groups)[i]));
            }
        },
        Some(offset) => {
            let k = choose|k: int| #[trigger] restores_at(groups, k, offset, compress, size);
            assert(groups[k].len() > 0);
            assert forall|i: int| 0 <= i < flat(groups.take(k)).len() implies (#[trigger] flat(
                groups.take(k),
            )[i]).head().base.object_type != 115 by {
                assert(!is_restore(flat(groups.take(k))[i]));
            }
        },
    }
}

} // verus!
