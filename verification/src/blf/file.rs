//! Whole BLF files.

use crate::blf::bytes::{put_bytes, read_bytes};
use crate::blf::container::{
    add64, containers, encode_container, lemma_low64_sum, low64, object_stream, put_zeros,
    uncompressed_size, Layout, MAX_CONTAINER_BUFFER,
};
use crate::blf::error::{Error, Failure, Result};
use crate::blf::file_header::Header;
use crate::blf::flags::AppId;
use crate::blf::object::BlfObject;
use crate::blf::object_type::ObjectType;
use crate::blf::stream::{
    default_options, faithful_run, file_objects, found_after, BlfReader, Found, Segment,
};
use crate::span::Span;
use vstd::prelude::*;

verus! {

/// A BLF file in memory.
#[derive(Debug, Clone, PartialEq, Eq)]
pub struct BlfFile {
    pub header: Header,
    pub objects: Vec<BlfObject>,
    /// Time of the first frame that was added.
    pub frame_time_base: Option<Span>,
}

/// What is found after a number of objects.
pub open spec fn found_behind(done: Seq<Segment>, rest: Found) -> Found {
    match rest {
        Ok(segments) => Ok(done + segments),
        Err(f) => Err(f),
    }
}

proof fn lemma_found_step(done: Seq<Segment>, segment: Segment, rest: Found)
    ensures
        found_behind(done, found_after(segment, rest)) == found_behind(done.push(segment), rest),
{
    if let Ok(segments) = rest {
        assert(done + (seq![segment] + segments) =~= done.push(segment) + segments);
    }
}

/// Whether the objects are those in the segments.
pub open spec fn read_from(objects: Seq<BlfObject>, segments: Seq<Segment>) -> bool {
    &&& objects.len() == segments.len()
    &&& forall|i: int|
        0 <= i < objects.len() ==> (#[trigger] objects[i]).reads(
            segments[i].bytes,
            segments[i].base,
        )
}

/// How many of the objects have a type.
pub open spec fn count_type(objects: Seq<BlfObject>, t: u32) -> nat
    decreases objects.len(),
{
    if objects.len() == 0 {
        0
    } else {
        count_type(objects.drop_last(), t) + (if objects.last().head().base.object_type == t {
            1nat
        } else {
            0
        })
    }
}

/// The types of the objects, each once, in the order in which they first occur.
pub open spec fn types_of(objects: Seq<BlfObject>) -> Seq<u32>
    decreases objects.len(),
{
    if objects.len() == 0 {
        Seq::empty()
    } else {
        let before = types_of(objects.drop_last());
        let t = objects.last().head().base.object_type;
        if before.contains(t) {
            before
        } else {
            before.push(t)
        }
    }
}

/// Whether an object passes a filter of object types; without a filter all of them do.
pub open spec fn passes(filter: Option<Seq<ObjectType>>, o: BlfObject) -> bool {
    match filter {
        None => true,
        Some(types) => has_type(types, o.head().base.object_type),
    }
}

/// Whether the type with a number is among the types.
pub open spec fn has_type(types: Seq<ObjectType>, raw: u32) -> bool {
    exists|i: int| 0 <= i < types.len() && (#[trigger] types[i]).raw() == raw
}

/// The positions of the objects that pass a filter, in their order.
pub open spec fn passing(objects: Seq<BlfObject>, filter: Option<Seq<ObjectType>>) -> Seq<int>
    decreases objects.len(),
{
    if objects.len() == 0 {
        Seq::empty()
    } else {
        let before = passing(objects.drop_last(), filter);
        if passes(filter, objects.last()) {
            before.push(objects.len() - 1)
        } else {
            before
        }
    }
}

/// Whether the references are to the objects at the positions.
pub open spec fn picked(r: Seq<&BlfObject>, objects: Seq<BlfObject>, at: Seq<int>) -> bool {
    &&& r.len() == at.len()
    &&& forall|i: int| 0 <= i < r.len() ==> *(#[trigger] r[i]) == objects[at[i]]
}

/// The header of a file with the given sizes and number of objects.
pub open spec fn updated_header(
    header: Header,
    file_size: u64,
    uncompressed: u64,
    count: u32,
    restore: u64,
) -> Header {
    Header {
        header_size: header.spec_encoded_size() as u32,
        file_size,
        uncompressed_file_size: uncompressed,
        object_count: count,
        restore_point_offset: match header.restore_point_offset {
            Some(_) => Some(restore),
            None => None,
        },
        ..header
    }
}

/// The failure for a header that is too large.
pub open spec fn header_limit() -> Failure {
    Failure::Write("BLF header exceeds the u32 size limit"@)
}

pub(crate) fn update_header(
    header: &Header,
    file_size: u64,
    uncompressed: u64,
    count: u32,
    restore: u64,
) -> (r: Header)
    requires
        header.spec_encoded_size() <= u32::MAX,
        header.spec_encoded_size() <= usize::MAX,
    ensures
        r.same(updated_header(*header, file_size, uncompressed, count, restore)),
{
    let r = Header {
        signature: header.signature,
        header_size: header.encoded_size() as u32,
        api_number: header.api_number,
        app_id: header.app_id,
        compression: header.compression,
        app_major: header.app_major,
        app_minor: header.app_minor,
        file_size,
        uncompressed_file_size: uncompressed,
        object_count: count,
        app_build: header.app_build,
        start: header.start,
        end: header.end,
        restore_point_offset: if header.restore_point_offset.is_some() {
            Some(restore)
        } else {
            None
        },
        reserved3: read_bytes(&header.reserved3, 0, header.reserved3.len()),
    };
    proof {
        assert(r.reserved3@ =~= header.reserved3@);
    }
    r
}

/// A number, or the largest 32-bit one if it is larger.
pub open spec fn saturated32(n: int) -> u32 {
    if n > u32::MAX {
        u32::MAX
    } else {
        n as u32
    }
}

fn saturate_u32(n: usize) -> (r: u32)
    ensures
        r == saturated32(n as int),
{
    if n as u128 > u32::MAX as u128 {
        u32::MAX
    } else {
        n as u32
    }
}

/// A layout while it is being made.
struct Packer {
    body: Vec<u8>,
    open: Vec<u8>,
    total: u64,
    restore: Option<u64>,
    in_restore: bool,
}

impl Packer {
    /// Whether the packer holds what the layout says.
    spec fn holds(self, l: Layout, compress: bool) -> bool {
        &&& self.body@ == containers(l.groups, compress)
        &&& self.open@ == object_stream(l.open)
        &&& self.total == low64(uncompressed_size(l.groups))
        &&& (match (self.restore, l.restore) {
            (Some(a), Some(b)) => a == low64(b),
            (None, None) => true,
            _ => false,
        })
        &&& self.in_restore == l.in_restore
    }

    fn close(&mut self, compress: bool, layout: Ghost<Layout>) -> (r: Result<()>)
        requires
            old(self).holds(layout@, compress),
        ensures
            match r {
                Ok(_) => {
                    &&& layout@.closed() is Ok
                    &&& final(self).holds(layout@.closed()->Ok_0, compress)
                },
                Err(e) => layout@.closed() == Err::<Layout, Failure>(e@),
            },
    {
        proof {
            reveal(Layout::closed);
        }
        let (container, size) = encode_container(&self.open, compress)?;
        put_bytes(&mut self.body, &container);
        self.total = add64(self.total, size);
        self.open.clear();
        proof {
            let l = layout@;
            let groups = l.groups.push(l.open);
            assert(groups.drop_last() =~= l.groups);
            lemma_low64_sum(uncompressed_size(l.groups), 32 + object_stream(l.open).len() as int);
            assert(self.open@ =~= Seq::<u8>::empty());
        }
        Ok(())
    }

    fn close_if_used(&mut self, compress: bool, layout: Ghost<Layout>) -> (r: Result<()>)
        requires
            old(self).holds(layout@, compress),
        ensures
            match r {
                Ok(_) => {
                    &&& layout@.closed_if_used() is Ok
                    &&& final(self).holds(layout@.closed_if_used()->Ok_0, compress)
                },
                Err(e) => layout@.closed_if_used() == Err::<Layout, Failure>(e@),
            },
    {
        if self.open.len() > 0 {
            self.close(compress, layout)?;
        }
        Ok(())
    }

    fn place(
        &mut self,
        o: &BlfObject,
        compress: bool,
        header_size: usize,
        layout: Ghost<Layout>,
    ) -> (r: Result<()>)
        requires
            old(self).holds(layout@, compress),
        ensures
            match r {
                Ok(_) => {
                    &&& layout@.placed(*o, compress, header_size as int) is Ok
                    &&& final(self).holds(
                        layout@.placed(*o, compress, header_size as int)->Ok_0,
                        compress,
                    )
                },
                Err(e) => layout@.placed(*o, compress, header_size as int) == Err::<
                        Layout,
                        Failure,
                    >(e@),
            },
    {
        let is_restore = o.object_type() == ObjectType::RestorepointContainer.to_raw();
        proof {
            reveal(Layout::placed);
            reveal(crate::blf::container::padded_bytes);
            assert(ObjectType::RestorepointContainer.raw() == 115);
        }
        let ghost ready = layout@.ready(is_restore, compress, header_size as int);
        if is_restore && self.restore.is_none() {
            self.close_if_used(compress, layout)?;
            self.restore = Some(add64(header_size as u64, self.body.len() as u64));
            self.in_restore = true;
        } else if !is_restore && self.in_restore {
            self.close_if_used(compress, layout)?;
            self.in_restore = false;
        }
        let ghost l = ready->Ok_0;
        assert(self.holds(l, compress));
        let mut bytes: Vec<u8> = Vec::new();
        o.write_to(&mut bytes)?;
        proof {
            assert(bytes@ =~= o.encoding());
        }
        let ghost mut m = l;
        if self.open.len() > 0 && self.open.len() as u128 + bytes.len() as u128
            >= MAX_CONTAINER_BUFFER as u128 {
            self.close(compress, Ghost(l))?;
            proof {
                m = l.closed()->Ok_0;
            }
        }
        put_zeros(&mut bytes, o.padding());
        put_bytes(&mut self.open, &bytes);
        proof {
            assert(m.open.push(*o).drop_last() =~= m.open);
        }
        Ok(())
    }
}

impl BlfFile {
    /// The object types of CAN data frames.
    pub fn can_data_frames() -> (r: [ObjectType; 4])
        ensures
            r@ == can_types(),
    {
        let r = [
            ObjectType::CanMessage,
            ObjectType::CanMessage2,
            ObjectType::CanFdMessage,
            ObjectType::CanFdMessage64,
        ];
        proof {
            assert(r@ =~= can_types());
        }
        r
    }

    /// The object types of LIN data frames.
    pub fn lin_data_frames() -> (r: [ObjectType; 2])
        ensures
            r@ == lin_types(),
    {
        let r = [ObjectType::LinMessage, ObjectType::LinMessage2];
        proof {
            assert(r@ =~= lin_types());
        }
        r
    }

    pub fn new(
        compressed: bool,
        app_id: AppId,
        app_major: u8,
        app_minor: u8,
        app_build: u32,
    ) -> (r: Self)
        ensures
            r.header.canonical(),
            r.header.header_size == 144,
            r.header.app_id == app_id,
            r.header.compression == (if compressed { 1u8 } else { 0 }),
            r.header.app_major == app_major,
            r.header.app_minor == app_minor,
            r.header.app_build == app_build,
            r.header.restore_point_offset == Some(0u64),
            r.objects@.len() == 0,
            r.frame_time_base is None,
    {
        BlfFile {
            header: Header::new(compressed, app_id, app_major, app_minor, app_build),
            objects: Vec::new(),
            frame_time_base: None,
        }
    }

    /// Appends any strongly typed or opaque BLF object.
    pub fn push_object<T: Into<BlfObject>>(&mut self, object: T)
        ensures
            final(self).header == old(self).header,
            final(self).frame_time_base == old(self).frame_time_base,
            final(self).objects@.len() == old(self).objects@.len() + 1,
            final(self).objects@.drop_last() == old(self).objects@,
            <T as vstd::std_specs::convert::IntoSpec<BlfObject>>::obeys_into_spec() ==> {
                final(self).objects@.last()
                    == <T as vstd::std_specs::convert::IntoSpec<BlfObject>>::into_spec(object)
            },
    {
        let o: BlfObject = object.into();
        self.objects.push(o);
        proof {
            assert(self.objects@.drop_last() =~= old(self).objects@);
        }
    }

    /// Whether a file has the written header and the objects of another. Reserved bytes in the
    /// place of an offset of restore points count as such an offset.
    pub open spec fn is_written_copy(self, original: BlfFile) -> bool {
        &&& self.header.same_fixed(original.written_header())
        &&& self.header.encoding() == original.written_header().encoding()
        &&& original.header_kept() ==> self.header.same(original.written_header())
        &&& self.header.object_count == saturated32(original.objects@.len() as int)
        &&& self.objects@.len() == original.objects@.len()
        &&& forall|i: int|
            0 <= i < self.objects@.len() ==> (#[trigger] self.objects@[i]).same(
                original.objects@[i],
            )
    }

    /// Reads a file: its header, and the objects in its containers and beside them. What was
    /// written of a file is read back as that file.
    pub fn parse(data: &[u8]) -> (r: Result<Self>)
        ensures
            forall|f: BlfFile|
                #[trigger] f.file_bytes() == Ok::<Seq<u8>, Failure>(data@) && f.readable_back()
                    ==> r is Ok && r->Ok_0.is_written_copy(f),
            match r {
                Ok(f) => {
                    &&& f.header.reads(data@)
                    &&& file_objects(data@, default_options()) matches Ok(segments) && read_from(
                        f.objects@,
                        segments,
                    )
                    &&& f.frame_time_base is None
                },
                Err(e) => file_objects(data@, default_options()) == Err::<Seq<Segment>, Failure>(
                    e@,
                ),
            },
    {
        let copy = read_bytes(data, 0, data.len());
        proof {
            assert(copy@ =~= data@);
        }
        let mut reader = match BlfReader::new(copy) {
            Ok(reader) => reader,
            Err(e) => {
                proof {
                    assert forall|f: BlfFile|
                        #[trigger] f.file_bytes() == Ok::<Seq<u8>, Failure>(data@)
                            && f.readable_back() implies false by {
                        f.law_header_of_written(data@);
                    }
                }
                return Err(e);
            },
        };
        let ghost faithful = faithful_run(
            data@,
            crate::blf::bytes::u32_at(data@, 4) as int,
            Seq::empty(),
            0,
            default_options(),
        );
        let ghost found = file_objects(data@, default_options());
        let mut objects: Vec<BlfObject> = Vec::new();
        let ghost mut done: Seq<Segment> = Seq::empty();
        proof {
            if let Ok(segments) = found {
                assert(done + segments =~= segments);
            }
        }
        let mut running = true;
        while running
            invariant
                reader.valid(),
                reader.file() == data@,
                reader.file_header().reads(data@),
                reader.offset() <= data@.len(),
                found == file_objects(data@, default_options()),
                found == found_behind(done, reader.coming()),
                read_from(objects@, done),
                reader.faithful() ==> faithful,
                !running ==> faithful,
                faithful == faithful_run(
                    data@,
                    crate::blf::bytes::u32_at(data@, 4) as int,
                    Seq::empty(),
                    0,
                    default_options(),
                ),
                !running ==> reader.coming() == Ok::<Seq<Segment>, Failure>(Seq::empty()),
            decreases (if running { 1int } else { 0 }), data@.len() - reader.offset(), reader.left(),
        {
            let ghost before = reader.coming();
            match reader.next() {
                None => {
                    running = false;
                },
                Some(Err(e)) => {
                    proof {
                        assert forall|f: BlfFile|
                            #[trigger] f.file_bytes() == Ok::<Seq<u8>, Failure>(data@)
                                && f.readable_back() implies false by {
                            f.law_header_of_written(data@);
                            f.law_found_of_written(data@);
                        }
                    }
                    return Err(e);
                },
                Some(Ok(object)) => {
                    let ghost segment = choose|segment: Segment|
                        {
                            &&& before == #[trigger] found_after(segment, reader.coming())
                            &&& object.reads(segment.bytes, segment.base)
                        };
                    proof {
                        lemma_found_step(done, segment, reader.coming());
                        done = done.push(segment);
                    }
                    objects.push(object);
                },
            }
        }
        proof {
            assert(done + Seq::<Segment>::empty() =~= done);
        }
        let header = reader.take_header();
        let r = BlfFile { header, objects, frame_time_base: None };
        proof {
            assert forall|f: BlfFile|
                #[trigger] f.file_bytes() == Ok::<Seq<u8>, Failure>(data@)
                    && f.readable_back() implies r.is_written_copy(f) by {
                f.law_header_of_written(data@);
                f.law_found_of_written(data@);
                r.header.law_fixed_unique(f.written_header(), data@);
                r.header.law_write_of_read(data@);
                if f.header_kept() {
                    r.header.law_reads_unique(f.written_header(), data@);
                }
                BlfFile::law_same_objects(r.objects@, f.objects@, found);
            }
        }
        Ok(r)
    }

    /// The bytes of the file, or how writing it fails.
    pub open spec fn file_bytes(self) -> std::result::Result<Seq<u8>, Failure> {
        let size = self.header.spec_encoded_size();
        let compress = self.header.compression > 0;
        if self.objects@.len() == 0 {
            if size > u32::MAX {
                Err(header_limit())
            } else {
                Ok(updated_header(self.header, size as u64, size as u64, 0, 0).encoding())
            }
        } else {
            match Layout::of(self.objects@, compress, size) {
                Err(f) => Err(f),
                Ok(l) => match l.closed() {
                    Err(f) => Err(f),
                    Ok(m) => if size > u32::MAX {
                        Err(header_limit())
                    } else {
                        Ok(
                            updated_header(
                                self.header,
                                low64(size + containers(m.groups, compress).len()),
                                low64(size + uncompressed_size(m.groups)),
                                saturated32(self.objects@.len() as int),
                                (match m.restore {
                                    Some(offset) => low64(offset),
                                    None => 0,
                                }),
                            ).encoding() + containers(m.groups, compress),
                        )
                    },
                },
            }
        }
    }

    /// Writes the file.
    pub fn write(&self) -> (r: Result<Vec<u8>>)
        requires
            self.header.spec_encoded_size() <= usize::MAX,
        ensures
            match r {
                Ok(bytes) => self.file_bytes() == Ok::<Seq<u8>, Failure>(bytes@),
                Err(e) => self.file_bytes() == Err::<Seq<u8>, Failure>(e@),
            },
    {
        let header_size: usize = self.header.encoded_size();
        let compress = self.header.compression > 0;
        if self.objects.len() == 0 {
            if header_size as u128 > u32::MAX as u128 {
                return Err(
                    Error::Write("BLF header exceeds the u32 size limit".to_string()),
                );
            }
            let header = update_header(
                &self.header,
                header_size as u64,
                header_size as u64,
                0,
                0,
            );
            let mut out: Vec<u8> = Vec::new();
            header.write_to(&mut out);
            proof {
                assert(out@ =~= header.encoding());
                header.lemma_same_encoding(
                    updated_header(self.header, header_size as u64, header_size as u64, 0, 0),
                );
            }
            return Ok(out);
        }
        let mut packer = Packer {
            body: Vec::new(),
            open: Vec::new(),
            total: 0,
            restore: None,
            in_restore: false,
        };
        let ghost mut layout = Layout::empty();
        let mut i: usize = 0;
        while i < self.objects.len()
            invariant
                i <= self.objects@.len(),
                packer.holds(layout, compress),
                self.objects@.len() > 0,
                compress == (self.header.compression > 0),
                header_size == self.header.spec_encoded_size(),
                Layout::of(
                    self.objects@.subrange(0, i as int),
                    compress,
                    header_size as int,
                ) == Ok::<Layout, Failure>(layout),
            decreases self.objects.len() - i,
        {
            let ghost next = self.objects@.subrange(0, i + 1);
            proof {
                assert(next.drop_last() =~= self.objects@.subrange(0, i as int));
                assert(next.last() == self.objects@[i as int]);
            }
            match packer.place(&self.objects[i], compress, header_size, Ghost(layout)) {
                Ok(_) => {},
                Err(e) => {
                    proof {
                        if Layout::of(next, compress, header_size as int) is Err {
                            lemma_layout_prefix(
                                self.objects@,
                                i + 1,
                                compress,
                                header_size as int,
                            );
                        }
                    }
                    return Err(e);
                },
            }
            proof {
                layout = layout.placed(self.objects@[i as int], compress, header_size as int)->Ok_0;
            }
            i += 1;
        }
        proof {
            assert(self.objects@.subrange(0, i as int) =~= self.objects@);
        }
        packer.close(compress, Ghost(layout))?;
        let ghost m = layout.closed()->Ok_0;
        if header_size as u128 > u32::MAX as u128 {
            return Err(Error::Write("BLF header exceeds the u32 size limit".to_string()));
        }
        let file_size: u64 = add64(header_size as u64, packer.body.len() as u64);
        let uncompressed: u64 = add64(packer.total, header_size as u64);
        let restore: u64 = packer.restore.unwrap_or(0);
        proof {
            lemma_low64_sum(uncompressed_size(m.groups), header_size as int);
        }
        let header = update_header(
            &self.header,
            file_size,
            uncompressed,
            saturate_u32(self.objects.len()),
            restore,
        );
        let mut out: Vec<u8> = Vec::new();
        header.write_to(&mut out);
        proof {
            assert(out@ =~= header.encoding());
            header.lemma_same_encoding(
                updated_header(
                    self.header,
                    file_size,
                    uncompressed,
                    saturated32(self.objects@.len() as int),
                    restore,
                ),
            );
        }
        put_bytes(&mut out, &packer.body);
        Ok(out)
    }

    /// The objects whose type is in the filter, or all of them, in their order.
    pub fn iter_objects<'a>(&'a self, filter: Option<&[ObjectType]>) -> (r: Vec<&'a BlfObject>)
        ensures
            ({
                let types = match filter {
                    Some(f) => Some(f@),
                    None => None,
                };
                picked(r@, self.objects@, passing(self.objects@, types))
            }),
    {
        let ghost types: Option<Seq<ObjectType>> = match filter {
            Some(f) => Some(f@),
            None => None,
        };
        let mut r: Vec<&'a BlfObject> = Vec::new();
        let mut i: usize = 0;
        while i < self.objects.len()
            invariant
                i <= self.objects@.len(),
                types == (match filter {
                    Some(f) => Some(f@),
                    None => None::<Seq<ObjectType>>,
                }),
                picked(r@, self.objects@, passing(self.objects@.subrange(0, i as int), types)),
            decreases self.objects.len() - i,
        {
            let ghost next = self.objects@.subrange(0, i + 1);
            proof {
                assert(next.drop_last() =~= self.objects@.subrange(0, i as int));
                assert(next.last() == self.objects@[i as int]);
            }
            let o: &'a BlfObject = &self.objects[i];
            let wanted = match filter {
                None => true,
                Some(f) => {
                    let w = contains_type(f, o.object_type());
                    proof {
                        assert(types == Some(f@));
                        assert(w == passes(Some(f@), *o));
                    }
                    w
                },
            };
            proof {
                let found = passing(self.objects@.subrange(0, i as int), types);
                assert(wanted == passes(types, next.last()));
                assert(passing(next, types) == if wanted {
                    found.push(i as int)
                } else {
                    found
                });
            }
            let ghost before = r@;
            if wanted {
                r.push(o);
            }
            proof {
                let now = passing(next, types);
                assert forall|j: int| 0 <= j < r@.len() implies *(#[trigger] r@[j])
                    == self.objects@[now[j]] by {
                    if j < before.len() {
                        assert(r@[j] == before[j]);
                    }
                }
            }
            i += 1;
        }
        proof {
            assert(self.objects@.subrange(0, i as int) =~= self.objects@);
        }
        r
    }

    /// How many objects there are of each type, by the order in which the types first occur.
    pub fn statistics(&self) -> (r: Vec<(u32, usize)>)
        ensures
            r@.len() == types_of(self.objects@).len(),
            forall|i: int|
                0 <= i < r@.len() ==> (#[trigger] r@[i]).0 == types_of(self.objects@)[i] && r@[i].1
                    == count_type(self.objects@, r@[i].0),
    {
        let mut out: Vec<(u32, usize)> = Vec::new();
        let mut i: usize = 0;
        while i < self.objects.len()
            invariant
                i <= self.objects@.len(),
                ({
                    let seen = self.objects@.subrange(0, i as int);
                    &&& out@.len() == types_of(seen).len()
                    &&& forall|j: int|
                        0 <= j < out@.len() ==> (#[trigger] out@[j]).0 == types_of(seen)[j]
                            && out@[j].1 == count_type(seen, out@[j].0)
                }),
            decreases self.objects.len() - i,
        {
            let ghost seen = self.objects@.subrange(0, i as int);
            let ghost next = self.objects@.subrange(0, i + 1);
            proof {
                assert(next.drop_last() =~= seen);
                assert(next.last() == self.objects@[i as int]);
                lemma_types_of(seen);
            }
            let t: u32 = self.objects[i].object_type();
            let ghost before = out@;
            let mut found = false;
            let mut k: usize = 0;
            while k < out.len() && !found
                invariant
                    k <= out@.len(),
                    i < self.objects@.len() <= usize::MAX,
                    seen.len() == i,
                    out@.len() == before.len(),
                    before.len() == types_of(seen).len(),
                    forall|j: int|
                        0 <= j < before.len() ==> (#[trigger] before[j]).0 == types_of(seen)[j]
                            && before[j].1 == count_type(seen, before[j].0),
                    !found ==> out@ == before && forall|j: int| 0 <= j < k ==> before[j].0 != t,
                    found ==> exists|j: int|
                        #![trigger before[j]]
                        {
                            &&& 0 <= j < before.len()
                            &&& before[j].0 == t
                            &&& out@ == before.update(j, (t, (before[j].1 + 1) as usize))
                        },
                decreases out@.len() - k,
            {
                if out[k].0 == t {
                    let c: usize = out[k].1;
                    proof {
                        assert(before[k as int].0 == t);
                        lemma_count_bound(seen, t);
                    }
                    out.set(k, (t, c + 1));
                    found = true;
                    proof {
                        assert(out@ == before.update(k as int, (t, (before[k as int].1 + 1) as usize)));
                    }
                }
                k += 1;
            }
            if !found {
                out.push((t, 1));
                proof {
                    assert(!types_of(seen).contains(t)) by {
                        if types_of(seen).contains(t) {
                            let j = choose|j: int|
                                0 <= j < types_of(seen).len() && types_of(seen)[j] == t;
                            assert(before[j].0 == t);
                        }
                    }
                    lemma_absent_type(seen, t);
                }
            } else {
                proof {
                    let j = choose|j: int|
                        #![trigger before[j]]
                        {
                            &&& 0 <= j < before.len()
                            &&& before[j].0 == t
                            &&& out@ == before.update(j, (t, (before[j].1 + 1) as usize))
                        };
                    assert(types_of(seen)[j] == t);
                    assert(types_of(next) == types_of(seen));
                    lemma_count_bound(seen, t);
                    assert forall|m: int| 0 <= m < out@.len() implies (#[trigger] out@[m]).0
                        == types_of(next)[m] && out@[m].1 == count_type(next, out@[m].0) by {
                        if m != j {
                            assert(types_of(seen)[m] != types_of(seen)[j]);
                            assert(out@[m] == before[m]);
                        }
                    }
                }
            }
            i += 1;
        }
        proof {
            assert(self.objects@.subrange(0, i as int) =~= self.objects@);
        }
        out
    }
}

/// The object types of CAN data frames.
pub open spec fn can_types() -> Seq<ObjectType> {
    seq![
        ObjectType::CanMessage,
        ObjectType::CanMessage2,
        ObjectType::CanFdMessage,
        ObjectType::CanFdMessage64,
    ]
}

/// The object types of LIN data frames.
pub open spec fn lin_types() -> Seq<ObjectType> {
    seq![ObjectType::LinMessage, ObjectType::LinMessage2]
}

pub(crate) fn contains_type(types: &[ObjectType], raw: u32) -> (r: bool)
    ensures
        r == has_type(types@, raw),
{
    let mut i: usize = 0;
    while i < types.len()
        invariant
            i <= types@.len(),
            forall|j: int| 0 <= j < i ==> (#[trigger] types@[j]).raw() != raw,
        decreases types.len() - i,
    {
        if types[i].to_raw() == raw {
            proof {
                assert(types@[i as int].raw() == raw);
            }
            return true;
        }
        i += 1;
    }
    false
}

/// Where placing some of the objects fails, placing all of them fails in the same way.
proof fn lemma_layout_prefix(objects: Seq<BlfObject>, n: int, compress: bool, header_size: int)
    requires
        0 <= n <= objects.len(),
        Layout::of(objects.subrange(0, n), compress, header_size) is Err,
    ensures
        Layout::of(objects, compress, header_size) == Layout::of(
            objects.subrange(0, n),
            compress,
            header_size,
        ),
    decreases objects.len() - n,
{
    if n == objects.len() {
        assert(objects.subrange(0, n) =~= objects);
    } else {
        assert(objects.subrange(0, n + 1).drop_last() =~= objects.subrange(0, n));
        lemma_layout_prefix(objects, n + 1, compress, header_size);
    }
}

/// Each type is listed once.
pub proof fn lemma_types_of(objects: Seq<BlfObject>)
    ensures
        forall|i: int, j: int|
            0 <= i < j < types_of(objects).len() ==> types_of(objects)[i] != types_of(objects)[j],
    decreases objects.len(),
{
    if objects.len() > 0 {
        lemma_types_of(objects.drop_last());
        let before = types_of(objects.drop_last());
        let t = objects.last().head().base.object_type;
        if !before.contains(t) {
            assert forall|i: int, j: int| 0 <= i < j < types_of(objects).len() implies types_of(
                objects,
            )[i] != types_of(objects)[j] by {
                if j == before.len() {
                    assert(before.contains(before[i]));
                }
            }
        }
    }
}

/// A type that is not listed does not occur.
pub proof fn lemma_absent_type(objects: Seq<BlfObject>, t: u32)
    requires
        !types_of(objects).contains(t),
    ensures
        count_type(objects, t) == 0,
    decreases objects.len(),
{
    if objects.len() > 0 {
        let before = types_of(objects.drop_last());
        let last = objects.last().head().base.object_type;
        assert(!before.contains(t)) by {
            if before.contains(t) {
                let j = choose|j: int| 0 <= j < before.len() && before[j] == t;
                assert(types_of(objects)[j] == t);
            }
        }
        assert(last != t) by {
            if last == t {
                if !before.contains(t) {
                    assert(types_of(objects)[before.len() as int] == t);
                }
            }
        }
        lemma_absent_type(objects.drop_last(), t);
    }
}

proof fn lemma_count_bound(objects: Seq<BlfObject>, t: u32)
    ensures
        count_type(objects, t) <= objects.len(),
    decreases objects.len(),
{
    if objects.len() > 0 {
        lemma_count_bound(objects.drop_last(), t);
    }
}

} // verus!
